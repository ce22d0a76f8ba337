use lib::nwk::command::{
    CommissioningRequest, CommissioningResponse, CommissioningType, EndDeviceTimeoutRequest,
    EndDeviceTimeoutResponse, Leave, LinkPowerDelta, LinkPowerDeltaType, LinkStatus, LinkStatusEntry,
    ManyToOne, NetworkReport, NetworkStatus, NetworkStatusCode, NetworkUpdate, NwkCommand, NwkCommandId,
    ParentInformation, RejoinRequest, RejoinResponse, RouteRecord, RouteReply, RouteRequest, TimeoutIndex,
    TimeoutResponseStatus,
};
use lib::codec::CodecError;
use lib::types::{
    ExtendedAddress, MacCapability, MacStatus, PanId, ShortAddress, BROADCAST_ROUTERS_RAW, CAPABILITY_ROUTER,
    CAPABILITY_SLEEPY_END_DEVICE,
};

fn round_trip(c: NwkCommand<'_>) {
    let mut buf = [0u8; 96];
    let n = c.encode_to_slice(&mut buf).unwrap();
    assert_eq!(n, c.encoded_len(), "{c:?}");
    let d = NwkCommand::decode_exact(&buf[..n]).unwrap();
    assert_eq!(d, c);
    for len in 0..n {
        let _ = NwkCommand::decode_exact(&buf[..len]);
    }
}

#[test]
fn route_request_and_reply() {
    round_trip(NwkCommand::RouteRequest(RouteRequest {
        many_to_one: ManyToOne::No,
        id: 9,
        dst: ShortAddress(0x1234),
        path_cost: 3,
        dst_ieee: Some(ExtendedAddress(0xAABB)),
        tlvs: &[],
    }));
    round_trip(NwkCommand::RouteRequest(RouteRequest {
        many_to_one: ManyToOne::WithRouteCache,
        id: 1,
        dst: ShortAddress(BROADCAST_ROUTERS_RAW),
        path_cost: 0,
        dst_ieee: None,
        tlvs: &[64, 1, 0x34, 0x12],
    }));
    let mut buf = [0u8; 16];
    NwkCommand::RouteRequest(RouteRequest {
        many_to_one: ManyToOne::NoRouteCache,
        id: 2,
        dst: ShortAddress(0xFFFC),
        path_cost: 0,
        dst_ieee: None,
        tlvs: &[],
    })
    .encode_to_slice(&mut buf)
    .unwrap();
    assert_eq!(&buf[..6], &[0x01, 0x10, 0x02, 0xFC, 0xFF, 0x00]);
    round_trip(NwkCommand::RouteReply(RouteReply {
        id: 9,
        originator: ShortAddress(1),
        responder: ShortAddress(2),
        path_cost: 4,
        originator_ieee: Some(ExtendedAddress(1)),
        responder_ieee: Some(ExtendedAddress(2)),
        tlvs: &[],
    }));
}

#[test]
fn status_leave_rejoin_record() {
    round_trip(NwkCommand::NetworkStatus(NetworkStatus {
        status: NetworkStatusCode::LinkFailure,
        dst: ShortAddress(0x0042),
        tlvs: &[],
    }));
    assert!(NetworkStatusCode::LegacyNoRoute.is_link_failure());
    assert!(!NetworkStatusCode::AddressConflict.is_link_failure());
    round_trip(NwkCommand::Leave(Leave { rejoin: true, request: true, remove_children: false }));
    let mut buf = [0u8; 4];
    NwkCommand::Leave(Leave { rejoin: true, request: false, remove_children: true })
        .encode_to_slice(&mut buf)
        .unwrap();
    assert_eq!(&buf[..2], &[0x04, 0xA0]);
    round_trip(NwkCommand::RejoinRequest(RejoinRequest { capability: MacCapability(CAPABILITY_SLEEPY_END_DEVICE) }));
    round_trip(NwkCommand::RejoinResponse(RejoinResponse {
        address: ShortAddress(0x7788),
        status: MacStatus::Success,
    }));
    round_trip(NwkCommand::RouteRecord(RouteRecord::from_raw(&[1, 0, 2, 0])));
    let rr = RouteRecord::from_raw(&[1, 0, 2, 0]);
    assert_eq!(rr.relays().len(), 2);
    assert!(NwkCommand::decode_exact(&[0x05, 3, 1, 0]).is_err());
}

#[test]
fn link_status_entries() {
    let a = LinkStatus::encode_entry(&LinkStatusEntry {
        address: ShortAddress(0x0001),
        incoming_cost: 1,
        outgoing_cost: 3,
    });
    let b = LinkStatus::encode_entry(&LinkStatusEntry {
        address: ShortAddress(0x0002),
        incoming_cost: 7,
        outgoing_cost: 0,
    });
    let raw = [a[0], a[1], a[2], b[0], b[1], b[2]];
    let ls = LinkStatus::from_raw(true, true, &raw);
    round_trip(NwkCommand::LinkStatus(ls));
    let mut buf = [0u8; 16];
    let n = NwkCommand::LinkStatus(ls).encode_to_slice(&mut buf).unwrap();
    assert_eq!(buf[1], 0x62);
    let d = NwkCommand::decode_exact(&buf[..n]).unwrap();
    let NwkCommand::LinkStatus(d) = d else {
        panic!()
    };
    let e = d.entries();
    assert_eq!(e[0].incoming_cost, 1);
    assert_eq!(e[0].outgoing_cost, 3);
    assert_eq!(e[1].address, ShortAddress(2));
    assert_eq!(e[1].incoming_cost, 7);
}

#[test]
fn report_update_and_timeouts() {
    round_trip(NwkCommand::NetworkReport(NetworkReport {
        report_id: 0,
        epid: ExtendedAddress(0x1234),
        info: &[0x01, 0x00, 0x02, 0x00],
    }));
    let nr = NetworkReport { report_id: 0, epid: ExtendedAddress(0), info: &[0x01, 0x00, 0x02, 0x00] };
    assert_eq!(nr.pan_ids().len(), 2);
    round_trip(NwkCommand::NetworkUpdate(NetworkUpdate {
        update_id: 0,
        epid: ExtendedAddress(0x1234),
        nwk_update_id: 5,
        new_pan_id: PanId(0xBEEF),
    }));
    round_trip(NwkCommand::EndDeviceTimeoutRequest(EndDeviceTimeoutRequest {
        timeout: TimeoutIndex(8),
        configuration: 0,
    }));
    round_trip(NwkCommand::EndDeviceTimeoutResponse(EndDeviceTimeoutResponse {
        status: TimeoutResponseStatus::Success,
        parent_info: ParentInformation(0x03),
    }));
    assert_eq!(TimeoutIndex(0).seconds(), Some(10));
    assert_eq!(TimeoutIndex(1).seconds(), Some(120));
    assert_eq!(TimeoutIndex(8).seconds(), Some(256 * 60));
    assert_eq!(TimeoutIndex(14).seconds(), Some(16384 * 60));
    assert_eq!(TimeoutIndex(15).seconds(), None);
    assert!(ParentInformation(0x3).mac_data_poll_keepalive());
}

#[test]
fn power_delta_and_commissioning() {
    round_trip(NwkCommand::LinkPowerDelta(LinkPowerDelta::from_raw(
        LinkPowerDeltaType::Notification,
        &[0x01, 0x00, 0xFE],
    )));
    let lpd = LinkPowerDelta::from_raw(LinkPowerDeltaType::Request, &[0x01, 0x00, 0xFE]);
    assert_eq!(lpd.entries().first().copied(), Some((ShortAddress(1), -2)));
    round_trip(NwkCommand::CommissioningRequest(CommissioningRequest {
        kind: CommissioningType::InitialJoin,
        capability: MacCapability(CAPABILITY_ROUTER),
        tlvs: &[72, 6, 71, 4, 0, 0, 0, 0, 0],
    }));
    let cr = CommissioningRequest {
        kind: CommissioningType::Rejoin,
        capability: MacCapability(CAPABILITY_ROUTER),
        tlvs: &[72, 6, 71, 4, 0, 0, 0, 0, 0],
    };
    assert!(cr.tlv_set().is_ok());
    round_trip(NwkCommand::CommissioningResponse(CommissioningResponse {
        address: ShortAddress(0x1111),
        status: MacStatus::from_raw(0xF0),
        tlvs: &[],
    }));
    round_trip(NwkCommand::Unknown { id: 0x7F, payload: &[1, 2, 3] });
    assert_eq!(NwkCommandId::from_raw(0x7F), NwkCommandId::Unknown(0x7F));
    assert!(NwkCommandId::RouteRequest.requires_security());
    assert!(!NwkCommandId::RejoinRequest.requires_security());
}

#[test]
fn trailing_octets_after_fixed_body_are_rejected() {
    assert_eq!(
        NwkCommand::decode_exact(&[0x04, 0x20, 0x00]),
        Err(CodecError::TrailingBytes { count: 1 })
    );
    let (c, n) = NwkCommand::decode(&[0x04, 0x20, 0x00]).unwrap();
    assert_eq!(n, 2);
    assert_eq!(c.id(), NwkCommandId::Leave);
    assert_eq!(NwkCommand::decode_exact(&[]), Err(CodecError::Truncated { needed: 1, available: 0 }));
}

#[test]
fn only_three_commands_may_go_unsecured() {
    assert!(!NwkCommandId::RouteRecord.requires_security());
    assert!(!NwkCommandId::CommissioningRequest.requires_security());
    assert!(NwkCommandId::RejoinResponse.requires_security());
    assert!(NwkCommandId::CommissioningResponse.requires_security());
    assert!(NwkCommandId::Unknown(0x40).requires_security());
}
