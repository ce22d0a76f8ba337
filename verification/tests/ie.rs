use lib::mac::frame::SuperframeSpec;
use lib::mac::ie::{
    mlme_short_ies, payload_ies, split_payload_ies, zigbee_ies, write_zigbee_ie, EbFilter, EnhancedBeacon,
    EnhancedBeaconRequest, ZigbeeIe, HEADER_TERMINATION_1,
};
use lib::codec::{CodecError, Field};
use lib::types::{ExtendedAddress, ShortAddress};

/// The payload of Figure D-1 after the MAC header and HT1.
const FIGURE_D1: [u8; 16] = [
    0x03, 0x88, // MLME nested, length 3
    0x01, 0x1E, // EB Filter, length 1
    0x01, // Permit joining on
    0x06, 0x90, // Vendor specific, length 6
    0x1B, 0x19, 0x4A, // Zigbee OUI
    0x41, 0x00, // TX Power, length 1
    0x1B, // 27 dBm
    0x00, 0xF8, // Payload termination
    0x07, // Beacon Request
];

#[test]
fn enhanced_beacon_request_of_figure_d1() {
    let ebr = EnhancedBeaconRequest::parse(&FIGURE_D1).unwrap();
    assert_eq!(ebr.filter, Some(EbFilter::joining()));
    assert_eq!(ebr.tx_power, Some(27));
    assert_eq!(ebr.rejoin, None);
    let mut out = Vec::new();
    EnhancedBeaconRequest::joining(Some(27)).write(&mut out).unwrap();
    let n = out.len();
    assert_eq!(&out[..n], &FIGURE_D1);
    assert_eq!(EnhancedBeaconRequest::joining(Some(27)).encoded_len(), n);
    assert_eq!(HEADER_TERMINATION_1, [0x00, 0x3F]);
}

#[test]
fn rejoin_request_round_trips_and_unknown_ies_are_skipped() {
    let epid = ExtendedAddress(0x0011_2233_4455_6677);
    let req = EnhancedBeaconRequest::rejoining(epid, ShortAddress(0x1234), Some(8));
    let mut buf = Vec::new();
    req.write(&mut buf).unwrap();
    let n = buf.len();
    assert_eq!(EnhancedBeaconRequest::parse(&buf[..n]).unwrap(), req);
    assert_eq!(req.encoded_len(), n);
    // Rejoin IE: length 10, sub-ID 0 → 0x000A; after the OUI.
    assert_eq!(&buf[5..7], &[0x0A, 0x00]);
    // An unknown vendor IE and an unknown MLME IE before it are
    // ignored; a link quality filter is read.
    let with_unknown = [
        0x02, 0x90, 0xAA, 0xBB, // other vendor
        0x04, 0x88, 0x02, 0x1E, 0x03, 0x40, // filter: permit + LQ 0x40
        0x00, 0xF8, 0x07,
    ];
    let ebr = EnhancedBeaconRequest::parse(&with_unknown).unwrap();
    assert_eq!(
        ebr.filter,
        Some(EbFilter { permit_joining_on: true, link_quality: Some(0x40), percent: None })
    );
    // Not a beacon request after the termination.
    assert!(EnhancedBeaconRequest::parse(&[0x00, 0xF8, 0x04]).is_err());
    // Truncated IE.
    assert!(EnhancedBeaconRequest::parse(&[0x06, 0x90, 0x1B]).is_err());
}

#[test]
fn enhanced_beacon_round_trips() {
    let payload = [0x00, 0x22, 0x84, 1, 2, 3, 4, 5, 6, 7, 8, 0xFF, 0xFF, 0xFF, 0x00];
    let eb = EnhancedBeacon {
        beacon_payload: &payload,
        superframe: SuperframeSpec::non_beacon(true, true),
        sender_short: ShortAddress(0x0000),
        tx_power: Some(-3),
    };
    let mut buf = Vec::new();
    eb.write(&mut buf).unwrap();
    let n = buf.len();
    // Vendor IE length: OUI 3 + (2 + 19) + (2 + 1) = 27.
    assert_eq!(&buf[..2], &(0x9000u16 | 0x1B).to_le_bytes());
    let parsed = EnhancedBeacon::parse(&buf[..n]).unwrap();
    assert_eq!(parsed, eb);
    assert_eq!(eb.encoded_len(), n);
    assert!(parsed.superframe.association_permit);
    assert!(EnhancedBeacon::parse(&[0x00, 0xF8]).is_err());
}

#[test]
fn split_reports_truncation_and_bad_type() {
    assert_eq!(
        split_payload_ies(&[0x05, 0x90, 1]),
        Err(CodecError::Truncated { needed: 5, available: 1 })
    );
    assert_eq!(
        split_payload_ies(&[0x00, 0x10]),
        Err(CodecError::InvalidField { field: Field::PayloadIeType, value: 0 })
    );
    assert_eq!(split_payload_ies(&[0x01]), Err(CodecError::Truncated { needed: 2, available: 1 }));
    let (ies, rest) = split_payload_ies(&[0x01, 0x88, 9, 0x00, 0xF8, 7, 8]).unwrap();
    assert_eq!(ies, &[0x01, 0x88, 9]);
    assert_eq!(rest, &[7, 8]);
    let all = [0x01, 0x88, 9];
    let (ies, rest) = split_payload_ies(&all).unwrap();
    assert_eq!(ies.len(), 3);
    assert!(rest.is_empty());
}

#[test]
fn payload_ies_cut_overlong_content() {
    let list = [0x01, 0x88, 9, 0x05, 0x90, 1, 2];
    let v = payload_ies(&list);
    assert_eq!(v.len(), 2);
    assert_eq!(v[0].group, 1);
    assert_eq!(v[0].content, &[9]);
    assert_eq!(v[1].group, 2);
    assert_eq!(v[1].content, &[1, 2]);
}

#[test]
fn mlme_long_sub_ies_are_skipped() {
    let content = [0x01, 0x80, 0xAA, 0x01, 0x1E, 0x05];
    let subs = mlme_short_ies(&content);
    assert_eq!(subs.len(), 2);
    assert_eq!(subs[0].0, 0xFF);
    assert!(subs[0].1.is_empty());
    assert_eq!(subs[1].0, 0x1E);
    assert_eq!(subs[1].1, &[0x05]);
}

#[test]
fn eb_filter_lengths_and_bad_vendor() {
    let f = EbFilter { permit_joining_on: false, link_quality: Some(1), percent: Some(50) };
    assert_eq!(f.encoded_len(), 3);
    let mut out = Vec::new();
    f.write(&mut out);
    assert_eq!(out, vec![0x06, 1, 50]);
    assert_eq!(EbFilter::parse(&out).unwrap(), f);
    assert!(EbFilter::parse(&[0x06, 1]).is_err());
    assert!(zigbee_ies(&[0x00, 0x11, 0x22]).is_none());
}

#[test]
fn oversized_sub_ie_is_unrepresentable() {
    let big = [0u8; 64];
    let ies = [ZigbeeIe::Unknown { sub_id: 5, content: &big }];
    let mut out = Vec::new();
    assert_eq!(
        write_zigbee_ie(&mut out, &ies),
        Err(CodecError::Unrepresentable { field: Field::ZigbeeSubIeLength })
    );
    assert!(out.is_empty());
}
