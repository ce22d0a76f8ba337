use lib::nwk::beacon::BeaconPayload;
use lib::types::ExtendedAddress;

#[test]
fn beacon_payload_round_trip_and_bit_layout() {
    let appendix = [70, 1, 0x21, 0x00];
    let b = BeaconPayload::new(ExtendedAddress(0x0011_2233_4455_6677), true, true, 9, &appendix);
    let mut buf = [0u8; 32];
    let n = b.encode_to_slice(&mut buf).unwrap();
    assert_eq!(n, 19);
    assert_eq!(&buf[..3], &[0x00, 0x22, 0x84]);
    assert_eq!(&buf[11..14], &[0xFF, 0xFF, 0xFF]);
    assert_eq!(buf[14], 9);
    let d = BeaconPayload::decode_exact(&buf[..n]).unwrap();
    assert_eq!(d, b);
    assert!(d.is_zigbee_pro());
    assert!(d.has_appendix());
    assert!(d.appendix_tlvs().unwrap().find(70).is_some());
    // Legacy beacon without appendix.
    let d2 = BeaconPayload::decode_exact(&buf[..15]).unwrap();
    assert!(!d2.has_appendix());
    // Non-PRO beacon is not joinable.
    let mut other = buf;
    other[1] = 0x21;
    assert!(!BeaconPayload::decode_exact(&other[..15]).unwrap().is_zigbee_pro());
    // Malformed appendix is ignored rather than rejected.
    let mut bad = buf;
    bad[16] = 9;
    let d3 = BeaconPayload::decode_exact(&bad[..n]).unwrap();
    assert!(d3.appendix_tlvs().is_none());
    assert!(BeaconPayload::decode_exact(&buf[..14]).is_err());
}

#[test]
fn appendix_lookup_by_tag() {
    let appendix = [1, 0, 0xAA, 2, 1, 0xBB, 0xCC];
    let b = BeaconPayload::new(ExtendedAddress(1), false, false, 0, &appendix);
    let t = b.appendix_tlvs().unwrap();
    assert_eq!(t.find(2).unwrap(), &[0xBB, 0xCC]);
    assert_eq!(t.find(1).unwrap(), &[0xAA]);
    assert!(t.find(3).is_none());
    let mut v = Vec::new();
    b.encode(&mut v);
    assert_eq!(v.len(), b.encoded_len());
}
