use lib::nwk::frame::{DiscoverRoute, Frame, FrameControl, FrameType, Header};
use lib::types::{ExtendedAddress, ShortAddress, BROADCAST_ROUTERS_RAW};

#[test]
fn data_header_round_trip() {
    let h = Header::new(FrameType::Data, ShortAddress(0x1234), ShortAddress(0x0000), 30, 7)
        .with_discover_route(DiscoverRoute::Enable)
        .secured(true);
    assert_eq!(h.encoded_len(), 8);
    let mut buf = [0u8; 16];
    let n = h.encode_to_slice(&mut buf).unwrap();
    assert_eq!(&buf[..n], &[0x48, 0x02, 0x34, 0x12, 0x00, 0x00, 30, 7]);
    let d = Header::decode_exact(&buf[..n]).unwrap();
    assert_eq!(d, h);
    assert_eq!(d.frame_control.protocol_version(), 2);
    assert!(d.frame_control.reserved_clear());
}

#[test]
fn command_header_with_ieee_addresses() {
    let h = Header::new(
        FrameType::Command,
        ShortAddress(BROADCAST_ROUTERS_RAW),
        ShortAddress(0x0001),
        1,
        200,
    )
    .with_src_ieee(ExtendedAddress(0x1122_3344_5566_7788))
    .with_dst_ieee(ExtendedAddress(0x0102_0304_0506_0708));
    assert_eq!(h.encoded_len(), 24);
    let mut buf = [0u8; 32];
    let n = h.encode_to_slice(&mut buf).unwrap();
    assert_eq!(buf[0], 0x09);
    assert_eq!(buf[1], 0x18);
    let d = Header::decode_exact(&buf[..n]).unwrap();
    assert_eq!(d, h);
    assert_eq!(d.frame_control.frame_type(), FrameType::Command);
    assert!(d.is_broadcast());
}

#[test]
fn source_route_subframe() {
    let relays = [0x03, 0x00, 0x02, 0x00, 0x01, 0x00];
    let h = Header::new(FrameType::Data, ShortAddress(4), ShortAddress(0), 30, 1)
        .with_source_route(2, &relays);
    let mut buf = [0u8; 32];
    let n = h.encode_to_slice(&mut buf).unwrap();
    assert_eq!(n, 8 + 2 + 6);
    let d = Header::decode_exact(&buf[..n]).unwrap();
    let sr = d.source_route.unwrap();
    assert_eq!(sr.relay_count(), 3);
    assert_eq!(sr.relay_index, 2);
    assert_eq!(sr.next_relay(), Some(ShortAddress(1)));
    assert_eq!(sr.relay(0), Some(ShortAddress(3)));
    assert_eq!(sr.relays().len(), 3);
    let mut bad = buf;
    bad[9] = 3;
    assert!(Header::decode_exact(&bad[..n]).is_err());
    assert!(Header::decode_exact(&buf[..n - 1]).is_err());
}

#[test]
fn presence_flag_mismatch_is_rejected_on_encode() {
    let mut h = Header::new(FrameType::Data, ShortAddress(1), ShortAddress(2), 1, 1);
    h.frame_control = FrameControl(h.frame_control.0 | 0x1000);
    let mut buf = [0u8; 16];
    assert!(h.encode_to_slice(&mut buf).is_err());
}

#[test]
fn frame_payload_is_borrowed() {
    let bytes = [0x08, 0x02, 0x01, 0x00, 0x02, 0x00, 5, 6, 0xAA, 0xBB];
    let f = Frame::decode_exact(&bytes).unwrap();
    assert_eq!(f.header.dst, ShortAddress(1));
    assert_eq!(f.payload, &[0xAA, 0xBB]);
    for len in 0..bytes.len() {
        let _ = Frame::decode_exact(&bytes[..len]);
    }
}
