use lib::mac::frame::Beacon;

#[test]
fn beacon_round_trip() {
    let b = Beacon::non_beacon(true, true, &[1, 2, 3]);
    let mut buf = [0u8; 16];
    let n = b.encode_to_slice(&mut buf).unwrap();
    assert_eq!(&buf[..n], &[0xFF, 0xCF, 0x00, 0x00, 1, 2, 3]);
    let d = Beacon::decode_exact(&buf[..n]).unwrap();
    assert_eq!(d, b);
    assert!(d.superframe.pan_coordinator);
    assert!(d.superframe.association_permit);
    assert_eq!(d.superframe.beacon_order, 15);
    // Beacon with a pending short address list is skipped correctly.
    let with_pending = [0xFF, 0x4F, 0x00, 0x01, 0x34, 0x12, 0xAA];
    let d2 = Beacon::decode_exact(&with_pending).unwrap();
    assert_eq!(d2.pending_short, 1);
    assert_eq!(d2.payload, &[0xAA]);
    assert!(!d2.superframe.association_permit);
    assert!(Beacon::decode_exact(&[0xFF, 0x4F, 0x00, 0x01, 0x34]).is_err());
}

use lib::codec::CodecError;
use lib::mac::frame::{
    AddressMode, DisassociationReason, Frame, FrameControl, FrameType, FrameVersion, Header,
    MacAddress, MacCommand,
};
use lib::types::{
    ExtendedAddress, MacCapability, MacStatus, PanId, ShortAddress, CAPABILITY_ROUTER,
};

fn round_trip_header(h: &Header<'static>) -> Header<'static> {
    let mut buf = [0u8; 64];
    let n = h.encode_to_slice(&mut buf).unwrap();
    assert_eq!(n, h.encoded_len());
    let decoded = Header::decode_exact(&buf[..n]).unwrap();
    Header {
        frame_control: decoded.frame_control,
        sequence: decoded.sequence,
        dst_pan: decoded.dst_pan,
        dst: decoded.dst,
        src_pan: decoded.src_pan,
        src: decoded.src,
        header_ies: &[],
    }
}

#[test]
fn intra_pan_data_header_compresses_source_pan() {
    let h = Header::new(
        FrameType::Data,
        0x42,
        PanId(0x1234),
        MacAddress::Short(ShortAddress(0x0001)),
        PanId(0x1234),
        MacAddress::Short(ShortAddress(0x0000)),
    );
    assert!(h.frame_control.pan_id_compression());
    assert_eq!(h.src_pan, None);
    assert_eq!(h.encoded_len(), 2 + 1 + 2 + 2 + 2);
    let d = round_trip_header(&h);
    assert_eq!(d, h);
    assert_eq!(d.effective_src_pan(), Some(PanId(0x1234)));
    let mut buf = [0u8; 16];
    let n = h.encode_to_slice(&mut buf).unwrap();
    assert_eq!(&buf[..n], &[0x41, 0x88, 0x42, 0x34, 0x12, 0x01, 0x00, 0x00, 0x00]);
}

#[test]
fn inter_pan_and_extended_addresses() {
    let h = Header::new(
        FrameType::Command,
        7,
        PanId(0xAAAA),
        MacAddress::Short(ShortAddress(0xFFFF)),
        PanId(0xFFFF),
        MacAddress::Extended(ExtendedAddress(0x0102_0304_0506_0708)),
    );
    assert!(!h.frame_control.pan_id_compression());
    assert_eq!(h.encoded_len(), 2 + 1 + 2 + 2 + 2 + 8);
    assert_eq!(round_trip_header(&h), h);
    let h2 = Header::new(
        FrameType::Data,
        1,
        PanId(1),
        MacAddress::Absent,
        PanId(2),
        MacAddress::Short(ShortAddress(5)),
    );
    assert_eq!(h2.dst_pan, None);
    assert_eq!(h2.src_pan, Some(PanId(2)));
    assert_eq!(round_trip_header(&h2), h2);
}

#[test]
fn ack_frame_round_trip() {
    let h = Header::ack(9, true);
    let mut buf = [0u8; 8];
    let n = h.encode_to_slice(&mut buf).unwrap();
    assert_eq!(&buf[..n], &[0x12, 0x00, 0x09]);
    let d = Header::decode_exact(&buf[..n]).unwrap();
    assert_eq!(d.frame_control.frame_type(), FrameType::Ack);
    assert!(d.frame_control.frame_pending());
    assert_eq!(d.sequence, Some(9));
}

#[test]
fn rejects_reserved_modes_and_security() {
    assert!(Header::decode_exact(&[0x01, 0x04, 0x00]).is_err());
    assert!(matches!(
        Header::decode_exact(&[0x09, 0x00, 0x00]),
        Err(CodecError::Unsupported { .. })
    ));
    assert!(Header::decode_exact(&[0x01, 0x30, 0x00]).is_err());
    assert!(Header::decode_exact(&[0x41, 0x88, 0x42, 0x34]).is_err());
}

#[test]
fn v2015_header_with_ies_and_seq_suppression() {
    let fc = FrameControl::new(FrameType::Data, FrameVersion::V2015)
        .with_dst_mode(AddressMode::Short)
        .with_seq_suppression(true)
        .with_ie_present(true);
    let ie1 = 1u16 | (0x2Au16 << 7);
    let ht1 = 0x7Eu16 << 7;
    let mut bytes: Vec<u8> = Vec::new();
    bytes.extend_from_slice(&fc.0.to_le_bytes());
    bytes.extend_from_slice(&0xBEEFu16.to_le_bytes());
    bytes.extend_from_slice(&0x0001u16.to_le_bytes());
    bytes.extend_from_slice(&ie1.to_le_bytes());
    bytes.push(0x55);
    bytes.extend_from_slice(&ht1.to_le_bytes());
    bytes.extend_from_slice(&[0xDE, 0xAD]);
    let n = bytes.len();
    let f = Frame::decode_exact(&bytes[..n]).unwrap();
    assert_eq!(f.header.sequence, None);
    assert_eq!(f.header.dst_pan, Some(PanId(0xBEEF)));
    assert_eq!(f.header.dst, MacAddress::Short(ShortAddress(1)));
    assert_eq!(f.header.header_ies.len(), 5);
    assert_eq!(f.payload, &[0xDE, 0xAD]);
    assert!(Frame::decode_exact(&bytes[..n - 4]).is_err());
}

#[test]
fn mac_commands_round_trip() {
    let cmds = [
        MacCommand::AssociationRequest { capability: MacCapability(CAPABILITY_ROUTER) },
        MacCommand::AssociationResponse {
            short_address: ShortAddress(0x1234),
            status: MacStatus::Success,
        },
        MacCommand::DisassociationNotification { reason: DisassociationReason::DeviceWishesToLeave },
        MacCommand::DataRequest,
        MacCommand::BeaconRequest,
        MacCommand::OrphanNotification,
        MacCommand::PanIdConflictNotification,
        MacCommand::CoordinatorRealignment {
            pan_id: PanId(1),
            coordinator_short: ShortAddress(0),
            channel: 15,
            short_address: ShortAddress(0xFFFE),
            channel_page: Some(0),
        },
        MacCommand::Other { id: 0x20, payload: &[1, 2] },
    ];
    for c in cmds {
        let mut buf = [0u8; 32];
        let n = c.encode_to_slice(&mut buf).unwrap();
        assert_eq!(n, c.encoded_len());
        assert_eq!(MacCommand::decode_exact(&buf[..n]).unwrap(), c);
    }
    assert_eq!(
        MacCommand::decode_exact(&[0x01]).unwrap_err(),
        CodecError::Truncated { needed: 1, available: 0 }
    );
    assert!(MacCommand::decode_exact(&[]).is_err());
}
