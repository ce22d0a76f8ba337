use lib::nwk::address_map::AddressMap;
use lib::nwk::discovery::DiscoveryTable;
use lib::nwk::joining_list::JoiningList;
use lib::nwk::layer::{NwkStats, TxId};
use lib::nwk::neighbor::{NeighborEntry, NeighborTable, Relationship};
use lib::nwk::nib::Nib;
use lib::nwk::relay::{BroadcastState, OriginateOutcome};
use lib::nwk::rx::{RxOutcome, SecurityFailure, Unsecured};
use lib::nwk::scan::{ScanContext, SurveyCounts};
use lib::nwk::state::Nwk;
use lib::nwk::tx::{NwkError, RouteState, RoutingInfo, TxPlan};
use lib::types::{ExtendedAddress, Instant, LogicalDeviceType, ShortAddress};

fn router() -> Nwk<4, 4, 6, 4, 2> {
    let mut nib = Nib::new(LogicalDeviceType::Router, ExtendedAddress(0xAA));
    nib.network_address = ShortAddress(0x0001);
    nib.router_started = true;
    nib.joined = true;
    nib.authenticated = true;
    let mut t = NeighborTable::<4>::new();
    let mut r = NeighborEntry::new(
        ExtendedAddress(2),
        ShortAddress(0x0002),
        LogicalDeviceType::Router,
        true,
        Relationship::Sibling,
        200,
    );
    r.outgoing_cost = 1;
    t.insert(r, 3).unwrap();
    let sleepy = NeighborEntry::new(
        ExtendedAddress(3),
        ShortAddress(0x0003),
        LogicalDeviceType::EndDevice,
        false,
        Relationship::Child,
        200,
    );
    t.insert(sleepy, 3).unwrap();
    Nwk {
        nib,
        neighbors: t,
        broadcasts: BroadcastState::new(),
        scanning: ScanContext {
            scan: None,
            survey: SurveyCounts { total: 0, other_networks: 0, on_network: 0, potential_parents: 0 },
            discovery: DiscoveryTable::new(),
            formation: None,
        },
        join: None,
        passive_ack: true,
        operating_since: None,
        address_map: AddressMap::new(),
        joining_list: JoiningList::new(),
        distributed_network: false,
        now: Instant(0),
        permit_until: None,
        link_status_due: None,
        child_age_last: Instant(0),
        keepalive_due: None,
        timeout_request_deadline: None,
        security_enabled: true,
        stats: NwkStats::default(),
        next_tx_id: 1,
    }
}

fn no_route() -> RoutingInfo {
    RoutingInfo { route: RouteState::Unusable, route_record_required: false, source_relays: Vec::new() }
}

// A secured data frame from 0x0002 to `dst`, radius 5, sequence 42, with
// two payload octets.
fn secured_frame(dst: u16) -> Vec<u8> {
    vec![0x08, 0x02, dst as u8, (dst >> 8) as u8, 0x02, 0x00, 5, 42, 0xDE, 0xAD]
}

fn unsecured_by_neighbor() -> Option<Result<Unsecured, SecurityFailure>> {
    Some(Ok(Unsecured { sender: ExtendedAddress(2), payload_start: 8, payload_end: 10 }))
}

#[test]
fn malformed_frames_are_counted() {
    let mut n = router();
    let d = n.on_mac_data(&[0x08], None, ShortAddress(0x0002), 200, 0);
    assert_eq!(d.outcome, RxOutcome::Consumed);
    assert_eq!(n.stats.malformed, 1);
    // Protocol version 3.
    let d = n.on_mac_data(&[0x0C, 0x00, 0x01, 0x00, 0x02, 0x00, 5, 1], None, ShortAddress(0x0002), 200, 0);
    assert_eq!(d.outcome, RxOutcome::Consumed);
    assert_eq!(n.stats.malformed, 2);
}

#[test]
fn secured_data_for_this_device_is_delivered() {
    let mut n = router();
    let d = n.on_mac_data(&secured_frame(0x0001), unsecured_by_neighbor(), ShortAddress(0x0002), 200, 0);
    assert!(matches!(
        d.outcome,
        RxOutcome::Data {
            src: ShortAddress(0x0002),
            dst: ShortAddress(0x0001),
            secured: true,
            secured_by: Some(ExtendedAddress(2)),
            payload_start: 8,
            payload_end: 10,
            ..
        }
    ));
    assert!(d.relay_frame.is_empty());
}

#[test]
fn replays_and_security_failures_are_counted() {
    let mut n = router();
    let d = n.on_mac_data(&secured_frame(0x0001), Some(Err(SecurityFailure::BadFrameCounter)), ShortAddress(0x0002), 200, 0);
    assert_eq!(d.outcome, RxOutcome::Consumed);
    assert_eq!(n.stats.replays, 1);
    // An unsecured data frame while security is in use.
    let f = vec![0x08, 0x00, 0x01, 0x00, 0x02, 0x00, 5, 43, 0xDE, 0xAD];
    let d = n.on_mac_data(&f, None, ShortAddress(0x0002), 200, 0);
    assert_eq!(d.outcome, RxOutcome::Consumed);
    assert_eq!(n.stats.security_failures, 1);
}

#[test]
fn unicast_for_another_device_is_relayed_in_plaintext() {
    let mut n = router();
    let d = n.on_mac_data(&secured_frame(0x0005), unsecured_by_neighbor(), ShortAddress(0x0002), 200, 0);
    assert_eq!(d.outcome, RxOutcome::RelayUnicast { secured: true });
    assert_eq!(d.relay_frame, vec![0x08, 0x00, 0x05, 0x00, 0x02, 0x00, 5, 42, 0xDE, 0xAD]);
}

#[test]
fn data_requests_are_checked() {
    let mut n = router();
    n.nib.joined = false;
    assert_eq!(n.data_request(ShortAddress(0x0002), &[1], None, false, true, false, &no_route()).err(), Some(NwkError::NotJoined));
    let mut n = router();
    for dst in [0xFFFE, 0xFFF8, 0xFFFB] {
        assert_eq!(
            n.data_request(ShortAddress(dst), &[1], None, false, true, false, &no_route()).err(),
            Some(NwkError::InvalidParameter)
        );
    }
    assert_eq!(
        n.data_request_aliased(ShortAddress(0x0002), &[1], None, false, true, Some((ShortAddress(0xFFFF), 1)), false, &no_route())
            .err(),
        Some(NwkError::InvalidParameter)
    );
    assert_eq!(n.nib.sequence_number, 0);
    let big = vec![0u8; 200];
    assert_eq!(n.data_request(ShortAddress(0x0002), &big, None, false, true, false, &no_route()).err(), Some(NwkError::FrameTooLong));
}

#[test]
fn data_to_a_neighbor_goes_directly() {
    let mut n = router();
    let t = n.data_request(ShortAddress(0x0002), &[0xAB], None, false, true, false, &no_route()).unwrap();
    assert_eq!(t.id, TxId(1));
    assert_eq!(t.npdu, vec![0x08, 0x02, 0x02, 0x00, 0x01, 0x00, 30, 0, 0xAB]);
    assert_eq!(t.header_len, 8);
    assert!(t.secure);
    assert_eq!(t.plan, TxPlan::Unicast { next_hop: ShortAddress(0x0002), indirect: false, route_record_first: false });
    assert_eq!(n.nib.sequence_number, 1);
    assert_eq!(n.next_tx_id, 2);
    // A sleepy child gets it indirectly.
    let t = n.data_request(ShortAddress(0x0003), &[0xAB], Some(0), false, false, false, &no_route()).unwrap();
    assert_eq!(t.npdu, vec![0x08, 0x00, 0x03, 0x00, 0x01, 0x00, 1, 1, 0xAB]);
    assert_eq!(t.plan, TxPlan::Unicast { next_hop: ShortAddress(0x0003), indirect: true, route_record_first: false });
}

#[test]
fn data_without_a_route() {
    let mut n = router();
    assert_eq!(n.data_request(ShortAddress(0x0777), &[1], None, false, true, false, &no_route()).err(), Some(NwkError::RouteError));
    assert_eq!(n.stats.no_route, 1);
    let t = n.data_request(ShortAddress(0x0777), &[1], None, true, true, false, &no_route()).unwrap();
    assert_eq!(t.plan, TxPlan::AwaitRoute);
    assert_eq!(t.npdu[0], 0x48);
    let via = RoutingInfo { route: RouteState::Active(ShortAddress(0x0002)), route_record_required: true, source_relays: Vec::new() };
    let t = n.data_request(ShortAddress(0x0777), &[1], None, false, true, false, &via).unwrap();
    assert_eq!(t.plan, TxPlan::Unicast { next_hop: ShortAddress(0x0002), indirect: false, route_record_first: true });
    assert_eq!(n.neighbors.by_short(ShortAddress(0x0002)).unwrap().router_outbound_activity, 1);
}

#[test]
fn concentrator_sends_source_routed() {
    let mut n = router();
    n.nib.is_concentrator = true;
    let sr = RoutingInfo {
        route: RouteState::Unusable,
        route_record_required: false,
        source_relays: vec![ShortAddress(0x0010), ShortAddress(0x0020)],
    };
    let t = n.data_request(ShortAddress(0x0777), &[7], Some(4), false, true, false, &sr).unwrap();
    assert_eq!(t.plan, TxPlan::SourceRouted { first_hop: ShortAddress(0x0020) });
    assert_eq!(t.header_len, 14);
    assert_eq!(t.npdu, vec![0x08, 0x06, 0x77, 0x07, 0x01, 0x00, 4, 0, 2, 1, 0x10, 0x00, 0x20, 0x00, 7]);
}

#[test]
fn broadcast_data_is_originated() {
    let mut n = router();
    let t = n.data_request(ShortAddress(0xFFFC), &[9], None, true, true, false, &no_route()).unwrap();
    assert_eq!(t.plan, TxPlan::Broadcast(OriginateOutcome::Broadcast));
    assert_eq!(t.npdu, vec![0x08, 0x02, 0xFC, 0xFF, 0x01, 0x00, 30, 0, 9]);
    assert_eq!(n.broadcasts.btt.len(), 1);
}

fn parent() -> lib::nwk::join::ParentSnapshot {
    lib::nwk::join::ParentSnapshot {
        short: ShortAddress(0x0000),
        extended: Some(ExtendedAddress(0xC0)),
        pan_id: lib::types::PanId(0x1234),
        extended_pan_id: ExtendedAddress(0x55),
        page: lib::types::ChannelPage(0),
        channel: lib::types::Channel(15),
        r23: false,
        update_id: 0,
        lqa: 200,
    }
}

fn join_params(rejoin: bool) -> lib::nwk::layer::JoinParams {
    lib::nwk::layer::JoinParams {
        extended_pan_id: None,
        rejoin,
        as_router: false,
        secure: false,
        capability: lib::types::MacCapability(0x80),
        require_permit: true,
    }
}

#[test]
fn failed_initial_join_forgets_the_network() {
    let mut n = router();
    n.join = Some(lib::nwk::join::JoinState::new(join_params(false)));
    let c = n.finish_join(0xC3);
    assert!(n.join.is_none());
    assert_eq!(n.nib.pan_id, lib::types::PanId(0xFFFF));
    assert_eq!(c.network_address, ShortAddress(0xFFFE));
    assert_eq!(c.status, 0xC3);
    assert!(!c.rejoin && !c.secured);
    let mut n = router();
    n.join = Some(lib::nwk::join::JoinState::new(join_params(true)));
    let c = n.finish_join(0xC3);
    assert!(c.rejoin);
    assert_eq!(c.network_address, ShortAddress(0x0001));
}

#[test]
fn rejoin_request_frame() {
    let mut n = router();
    n.join = Some(lib::nwk::join::JoinState::new(join_params(true)));
    let f = n.send_rejoin_request(parent(), false, lib::types::MacCapability(0x80), &[]).unwrap();
    let mut want = vec![0x09, 0x18, 0x00, 0x00, 0x01, 0x00, 1, 0];
    want.extend_from_slice(&0xC0u64.to_le_bytes());
    want.extend_from_slice(&0xAAu64.to_le_bytes());
    want.extend_from_slice(&[0x06, 0x80]);
    assert_eq!(f.npdu, want);
    assert_eq!(f.header_len, 24);
    assert_eq!(f.short, ShortAddress(0x0001));
    assert_eq!(f.pan_id, lib::types::PanId(0x1234));
    assert_eq!(n.nib.pan_id, lib::types::PanId(0x1234));
    assert_eq!(n.join.as_ref().unwrap().phase, lib::nwk::join::JoinPhase::RequestSent);
    // Without an address of its own the device draws one.
    let mut n = router();
    n.nib.network_address = ShortAddress(0xFFFE);
    let f = n.send_rejoin_request(parent(), true, lib::types::MacCapability(0x80), &[0x0000, 0x2345]).unwrap();
    assert_eq!(f.short, ShortAddress(0x2345));
    assert!(f.secure);
    assert_eq!(n.nib.network_address, ShortAddress(0x2345));
}

#[test]
fn permit_joining_requests() {
    let mut n = router();
    n.now = Instant(1000);
    assert_eq!(n.permit_joining(10), Ok(()));
    assert_eq!(n.permit_until, Some(Instant(11000)));
    assert!(n.permit_joining_active() && n.is_permitting_joins());
    assert_eq!(n.permit_joining(255), Ok(()));
    assert_eq!(n.permit_until, Some(Instant(u64::MAX)));
    assert_eq!(n.permit_joining(0), Ok(()));
    assert!(!n.permit_joining_active());
    assert!(n.is_operational() && !n.is_joining());
    assert_eq!(n.now(), Instant(1000));
    n.nib.device_type = LogicalDeviceType::EndDevice;
    assert_eq!(n.permit_joining(10), Err(NwkError::InvalidRequest));
}
