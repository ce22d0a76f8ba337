use lib::mac::frame::MacAddress;
use lib::nwk::beacon::BeaconPayload;
use lib::nwk::discovery::DiscoveryTable;
use lib::nwk::formation::{finish_formation, FormationOutcome, FormationState};
use lib::nwk::join::{JoinState, ParentStep};
use lib::nwk::layer::JoinParams;
use lib::nwk::neighbor::{NeighborEntry, NeighborTable, Relationship};
use lib::nwk::nib::Nib;
use lib::nwk::relay::{relay_copy, sleepy_copies, BroadcastDecision, BroadcastState, OriginateOutcome, ServiceStep};
use lib::nwk::scan::{BeaconInfo, ScanContext, ScanPurpose, ScanState, SurveyCounts};
use lib::nwk::state::Nwk;
use lib::nwk::address_map::AddressMap;
use lib::nwk::joining_list::{JoiningList, JoiningPolicy};
use lib::nwk::attach::{AttachDecision, AttachStatus};
use lib::nwk::layer::{JoinMethod, NwkStats};
use lib::nwk::timers::NwkTimerOutput;
use lib::nwk::join::JoinPhase;
use lib::nwk::command::TimeoutIndex;
use lib::types::{
    Channel, ChannelMask, ChannelPage, Duration, ExtendedAddress, Instant, LogicalDeviceType, MacCapability, PanId,
    ShortAddress,
};

fn router_nib() -> Nib {
    let mut nib = Nib::new(LogicalDeviceType::Router, ExtendedAddress(0xAA));
    nib.network_address = ShortAddress(0x0001);
    nib.router_started = true;
    nib.joined = true;
    nib
}

fn neighbors() -> NeighborTable<4> {
    let mut t = NeighborTable::<4>::new();
    let mut r = NeighborEntry::new(
        ExtendedAddress(2),
        ShortAddress(0x0002),
        LogicalDeviceType::Router,
        true,
        Relationship::Sibling,
        200,
    );
    r.outgoing_cost = 1;
    t.insert(r, 3).unwrap();
    let sleepy = NeighborEntry::new(
        ExtendedAddress(3),
        ShortAddress(0x0003),
        LogicalDeviceType::EndDevice,
        false,
        Relationship::Child,
        200,
    );
    t.insert(sleepy, 3).unwrap();
    t
}

// Header of 8 octets (frame control, destination, source, radius,
// sequence) followed by two payload octets.
fn frame() -> Vec<u8> {
    vec![0x08, 0x22, 0xFF, 0xFF, 0x09, 0x00, 5, 42, 0xDE, 0xAD]
}

#[test]
fn relay_copy_lowers_radius_and_clears_security() {
    let f = frame();
    let c = relay_copy(&f, 8, 8, 10, 5).unwrap();
    assert_eq!(c, vec![0x08, 0x00, 0xFF, 0xFF, 0x09, 0x00, 4, 42, 0xDE, 0xAD]);
    // A payload range outside the frame is left out.
    assert_eq!(relay_copy(&f, 8, 9, 20, 5).unwrap().len(), 8);
    let big = vec![0u8; 200];
    assert!(relay_copy(&big, 100, 100, 200, 5).is_none());
}

#[test]
fn router_delivers_and_relays_a_broadcast_once() {
    let nib = router_nib();
    let nb = neighbors();
    let mut s: BroadcastState<4> = BroadcastState::new();
    let f = frame();
    let d = s.on_broadcast_received(
        &nib, &nb, true, None, Instant(1000), ShortAddress(0x0009), 42, ShortAddress(0xFFFF), 5,
        ShortAddress(0x0002), &f, 8, 8, 10, true, 10,
    );
    assert_eq!(d, BroadcastDecision::DeliverAndRelay);
    assert_eq!(s.relayed, 1);
    let rec = &s.btt.records()[0];
    assert_eq!(rec.next_tx, Some(Instant(1010)));
    assert!(rec.relay_pending);
    // The neighbor that relayed it to us is not waited for.
    assert!(rec.awaiting.is_empty());
    assert_eq!(s.bufs.len(), 1);
    assert!(s.bufs[0].plaintext.is_some());
    let again = s.on_broadcast_received(
        &nib, &nb, true, None, Instant(1005), ShortAddress(0x0009), 42, ShortAddress(0xFFFF), 5,
        ShortAddress(0x0003), &f, 8, 8, 10, true, 0,
    );
    assert_eq!(again, BroadcastDecision::Drop);
    assert_eq!(s.relayed, 1);
}

#[test]
fn broadcast_groups_and_end_devices() {
    let mut ed = Nib::new(LogicalDeviceType::EndDevice, ExtendedAddress(0xBB));
    ed.network_address = ShortAddress(0x0100);
    ed.rx_on_when_idle = false;
    let nb = NeighborTable::<4>::new();
    let mut s: BroadcastState<4> = BroadcastState::new();
    let f = frame();
    // Routers-only broadcast: not for an end device.
    let d = s.on_broadcast_received(
        &ed, &nb, true, None, Instant(0), ShortAddress(0x0009), 1, ShortAddress(0xFFFC), 5,
        ShortAddress(0x0002), &f, 8, 8, 10, false, 0,
    );
    assert_eq!(d, BroadcastDecision::Drop);
    // To everybody: delivered, and no record is kept.
    let d = s.on_broadcast_received(
        &ed, &nb, true, None, Instant(0), ShortAddress(0x0009), 1, ShortAddress(0xFFFF), 5,
        ShortAddress(0x0002), &f, 8, 8, 10, false, 0,
    );
    assert_eq!(d, BroadcastDecision::Deliver);
    assert!(s.btt.is_empty());
}

#[test]
fn own_address_from_elsewhere_is_a_conflict() {
    let nib = router_nib();
    let nb = neighbors();
    let mut s: BroadcastState<4> = BroadcastState::new();
    let f = frame();
    let d = s.on_broadcast_received(
        &nib, &nb, true, Some(Instant(0)), Instant(20_000), ShortAddress(0x0001), 7, ShortAddress(0xFFFF), 5,
        ShortAddress(0x0002), &f, 8, 8, 10, true, 0,
    );
    assert_eq!(d, BroadcastDecision::AddressConflict);
    // Too soon after starting: dropped.
    let d = s.on_broadcast_received(
        &nib, &nb, true, Some(Instant(15_000)), Instant(20_000), ShortAddress(0x0001), 7, ShortAddress(0xFFFF), 5,
        ShortAddress(0x0002), &f, 8, 8, 10, true, 0,
    );
    assert_eq!(d, BroadcastDecision::Drop);
}

#[test]
fn relay_is_secured_sent_and_retried_until_acknowledged() {
    let nib = router_nib();
    let nb = neighbors();
    let mut s: BroadcastState<4> = BroadcastState::new();
    let f = frame();
    s.on_broadcast_received(
        &nib, &nb, true, None, Instant(1000), ShortAddress(0x0009), 42, ShortAddress(0xFFFF), 5,
        ShortAddress(0x0004), &f, 8, 8, 10, true, 10,
    );
    assert!(s.due_broadcasts(Instant(1009)).is_empty());
    assert_eq!(s.due_broadcasts(Instant(1010)), vec![(ShortAddress(0x0009), 42)]);
    assert_eq!(s.service_step(ShortAddress(0x0009), 42, 2), ServiceStep::Secure { first: true });
    assert!(s.broadcast_secured(ShortAddress(0x0009), 42, vec![1, 2, 3]));
    s.broadcast_transmitted(ShortAddress(0x0009), 42, vec![1, 2, 3], 2, Duration(500), Instant(1010));
    assert_eq!(s.btt.records()[0].next_tx, Some(Instant(1510)));
    // Neighbor 2 has not relayed yet: a retransmission counts as a retry.
    assert_eq!(s.service_step(ShortAddress(0x0009), 42, 2), ServiceStep::Send { first: false });
    assert_eq!(s.btt.records()[0].retries, 1);
    // Once every neighbor relayed it, it is done.
    s.on_broadcast_received(
        &nib, &nb, true, None, Instant(1600), ShortAddress(0x0009), 42, ShortAddress(0xFFFF), 4,
        ShortAddress(0x0002), &f, 8, 8, 10, true, 0,
    );
    assert_eq!(s.service_step(ShortAddress(0x0009), 42, 2), ServiceStep::Done);
    assert!(s.bufs.is_empty());
    assert_eq!(s.btt.records()[0].next_tx, None);
    s.expire(Instant(20_000));
    assert!(s.btt.is_empty());
    assert_eq!(s.service_step(ShortAddress(0x0009), 42, 2), ServiceStep::Missing);
}

#[test]
fn counter_wait_retries_shortly_and_failure_drops() {
    let nib = router_nib();
    let nb = neighbors();
    let mut s: BroadcastState<4> = BroadcastState::new();
    let f = frame();
    s.on_broadcast_received(
        &nib, &nb, true, None, Instant(0), ShortAddress(0x0009), 1, ShortAddress(0xFFFF), 5,
        ShortAddress(0x0004), &f, 8, 8, 10, true, 0,
    );
    assert_eq!(s.service_step(ShortAddress(0x0009), 1, 2), ServiceStep::Secure { first: true });
    s.broadcast_counter_pending(ShortAddress(0x0009), 1, Instant(0));
    assert_eq!(s.btt.records()[0].next_tx, Some(Instant(2)));
    assert!(s.btt.records()[0].relay_pending);
    s.broadcast_secure_failed(ShortAddress(0x0009), 1);
    assert!(s.bufs.is_empty());
    assert_eq!(s.service_step(ShortAddress(0x0009), 1, 2), ServiceStep::NoFrame);
    assert_eq!(s.btt.records()[0].next_tx, None);
}

#[test]
fn originating_a_broadcast() {
    let nib = router_nib();
    let nb = neighbors();
    let mut s: BroadcastState<1> = BroadcastState::new();
    let f = frame();
    assert_eq!(s.originate(&nib, &nb, true, Instant(0), false, f.clone(), 8, true), OriginateOutcome::Broadcast);
    let rec = &s.btt.records()[0];
    assert_eq!((rec.source, rec.sequence), (ShortAddress(0x0001), 42));
    assert_eq!(rec.awaiting, vec![ShortAddress(0x0002)]);
    // The table is full and nothing has expired.
    assert_eq!(s.originate(&nib, &nb, true, Instant(1), true, f.clone(), 8, true), OriginateOutcome::Busy);
    let mut s2: BroadcastState<1> = BroadcastState::new();
    assert_eq!(s2.originate(&nib, &nb, true, Instant(0), true, f.clone(), 8, true), OriginateOutcome::Parked);
    assert_eq!(s2.bufs.len(), 1);
    let ed = Nib::new(LogicalDeviceType::EndDevice, ExtendedAddress(0xBB));
    assert_eq!(s2.originate(&ed, &nb, true, Instant(0), false, f.clone(), 8, true), OriginateOutcome::ToParent);
    assert_eq!(s2.originate(&ed, &nb, true, Instant(0), true, f, 8, true), OriginateOutcome::Busy);
}

#[test]
fn sleepy_children_get_copies_of_first_transmissions_to_all() {
    let nb = neighbors();
    assert_eq!(sleepy_copies(&nb, ShortAddress(0x0009), ShortAddress(0xFFFF), true), vec![ShortAddress(0x0003)]);
    assert!(sleepy_copies(&nb, ShortAddress(0x0009), ShortAddress(0xFFFF), false).is_empty());
    assert!(sleepy_copies(&nb, ShortAddress(0x0009), ShortAddress(0xFFFD), true).is_empty());
    assert!(sleepy_copies(&nb, ShortAddress(0x0003), ShortAddress(0xFFFF), true).is_empty());
}

#[test]
fn formation_picks_the_quietest_channel_and_a_free_pan() {
    let mask = ChannelMask((1 << 11) | (1 << 15) | (1 << 20));
    let mut f = FormationState::new(mask, false, None, None);
    f.record_network(Channel(11), PanId(0x1234));
    f.record_network(Channel(15), PanId(0x2222));
    f.energy[15] = 40;
    f.energy[20] = 90;
    f.record_network(Channel(20), PanId(0x3333));
    // 15 and 20 each have one network; 15 is quieter.
    f.record_network(Channel(11), PanId(0x1234));
    assert_eq!(f.best_channel(), Some(Channel(15)));
    assert_eq!(f.seen_pan_ids.len(), 3);
    let mut nib = Nib::new(LogicalDeviceType::Coordinator, ExtendedAddress(0xC0FFEE));
    let o = finish_formation(&mut nib, &f, &[0xFFFF, 0x1234, 0x0042], &[], 7);
    assert_eq!(
        o,
        FormationOutcome::Started {
            pan_id: PanId(0x0042),
            channel: Channel(15),
            short: ShortAddress(0x0000),
            coordinator: true,
        }
    );
    assert!(nib.joined && nib.authenticated && nib.router_started);
    assert_eq!(nib.extended_pan_id, ExtendedAddress(0xC0FFEE));
    assert_eq!(nib.pan_id, PanId(0x0042));
}

#[test]
fn distributed_formation_and_failures() {
    let mask = ChannelMask(1 << 25);
    let f = FormationState::new(mask, true, None, None);
    let mut nib = Nib::new(LogicalDeviceType::Router, ExtendedAddress(0xAB));
    let o = finish_formation(&mut nib, &f, &[0x0100], &[0x0000, 0xFFF9, 0x0777], 0x10);
    assert_eq!(
        o,
        FormationOutcome::Started {
            pan_id: PanId(0x0100),
            channel: Channel(25),
            short: ShortAddress(0x0777),
            coordinator: false,
        }
    );
    assert_eq!(nib.extended_pan_id, ExtendedAddress(0x11));
    let mut nib2 = Nib::new(LogicalDeviceType::Router, ExtendedAddress(0xAB));
    assert_eq!(finish_formation(&mut nib2, &f, &[0x4000, 0xFFFF], &[], 0), FormationOutcome::StartupFailure);
    assert!(!nib2.joined);
    let none = FormationState::new(ChannelMask(0), false, Some(PanId(1)), None);
    assert_eq!(finish_formation(&mut nib2, &none, &[], &[], 0), FormationOutcome::StartupFailure);
}

fn beacon_info(pan: u16, short: u16, permit: bool) -> BeaconInfo {
    BeaconInfo {
        src_pan: PanId(pan),
        src: MacAddress::Short(ShortAddress(short)),
        permit,
        pan_coordinator: false,
        channel: Channel(15),
        page: ChannelPage(0),
        lqi: 200,
    }
}

#[test]
fn discovery_beacons_are_surveyed_and_collected() {
    let nib = Nib::new(LogicalDeviceType::Router, ExtendedAddress(0xAB));
    let mut ctx: ScanContext<6> = ScanContext {
        scan: Some(ScanState { purpose: ScanPurpose::Discovery, channels: ChannelMask(1 << 15), duration: 3, only_permit_join: true }),
        survey: SurveyCounts { total: 0, other_networks: 0, on_network: 0, potential_parents: 0 },
        discovery: DiscoveryTable::new(),
        formation: None,
    };
    let p = BeaconPayload::new(ExtendedAddress(0x55), true, true, 3, &[]);
    assert_eq!(ctx.on_mac_beacon(&nib, &beacon_info(0x1A2B, 0x0005, true), Some(p), None), None);
    assert_eq!(ctx.discovery.len(), 1);
    assert_eq!(ctx.discovery.entries()[0].short, ShortAddress(0x0005));
    assert_eq!(ctx.discovery.entries()[0].update_id, 3);
    // Not permitting joins: surveyed, not collected.
    let p = BeaconPayload::new(ExtendedAddress(0x56), true, true, 3, &[]);
    ctx.on_mac_beacon(&nib, &beacon_info(0x1A2C, 0x0006, false), Some(p), None);
    assert_eq!(ctx.discovery.len(), 1);
    ctx.on_mac_beacon(&nib, &beacon_info(0x1A2C, 0x0006, true), None, None);
    assert_eq!(ctx.survey, SurveyCounts { total: 3, other_networks: 3, on_network: 0, potential_parents: 0 });
}

#[test]
fn pan_id_conflicts_are_detected() {
    let mut nib = router_nib();
    nib.pan_id = PanId(0x1A2B);
    nib.extended_pan_id = ExtendedAddress(0x77);
    let mut ctx: ScanContext<6> = ScanContext {
        scan: None,
        survey: SurveyCounts { total: 0, other_networks: 0, on_network: 0, potential_parents: 0 },
        discovery: DiscoveryTable::new(),
        formation: None,
    };
    let p = BeaconPayload::new(ExtendedAddress(0x55), true, true, 0, &[]);
    assert_eq!(ctx.on_mac_beacon(&nib, &beacon_info(0x1A2B, 5, true), Some(p), None), Some(PanId(0x1A2B)));
    let same = BeaconPayload::new(ExtendedAddress(0x77), true, true, 0, &[]);
    assert_eq!(ctx.on_mac_beacon(&nib, &beacon_info(0x1A2B, 5, true), Some(same), None), None);
    // During a formation's active scan, beacons are counted per channel.
    ctx.scan = Some(ScanState { purpose: ScanPurpose::FormationActive, channels: ChannelMask(1 << 15), duration: 3, only_permit_join: false });
    ctx.formation = Some(FormationState::new(ChannelMask(1 << 15), false, None, None));
    let p = BeaconPayload::new(ExtendedAddress(0x55), true, true, 0, &[]);
    assert_eq!(ctx.on_mac_beacon(&nib, &beacon_info(0x0101, 5, true), Some(p), None), None);
    let f = ctx.formation.as_ref().unwrap();
    assert_eq!(f.networks_per_channel[15], 1);
    assert_eq!(f.seen_pan_ids, vec![PanId(0x0101)]);
}

fn join_params(rejoin: bool) -> JoinParams {
    JoinParams {
        extended_pan_id: None,
        rejoin,
        as_router: false,
        secure: false,
        capability: MacCapability(0x80),
        require_permit: true,
    }
}

fn discovery_with(lqas: &[u8]) -> DiscoveryTable<6> {
    let nib = Nib::new(LogicalDeviceType::EndDevice, ExtendedAddress(0xAB));
    let mut ctx: ScanContext<6> = ScanContext {
        scan: Some(ScanState { purpose: ScanPurpose::Discovery, channels: ChannelMask(1 << 15), duration: 3, only_permit_join: false }),
        survey: SurveyCounts { total: 0, other_networks: 0, on_network: 0, potential_parents: 0 },
        discovery: DiscoveryTable::new(),
        formation: None,
    };
    for (i, lqa) in lqas.iter().enumerate() {
        let mut info = beacon_info(0x1A2B, 0x10 + i as u16, true);
        info.lqi = *lqa;
        let p = BeaconPayload::new(ExtendedAddress(0x55), true, true, 0, &[]);
        ctx.on_mac_beacon(&nib, &info, Some(p), None);
    }
    ctx.discovery
}

#[test]
fn parents_with_good_links_are_tried_first() {
    let mut nib = Nib::new(LogicalDeviceType::EndDevice, ExtendedAddress(0xAB));
    let mut disc = discovery_with(&[40, 200]);
    let mut j = JoinState::new(join_params(false));
    match j.try_next_parent(&mut nib, &mut disc) {
        ParentStep::Associate(p) => assert_eq!(p.short, ShortAddress(0x11)),
        other => panic!("{:?}", other),
    }
    assert_eq!(nib.pan_id, PanId(0x1A2B));
    assert_eq!(nib.channel, Channel(15));
    assert_eq!(disc.entries()[1].attempts, 1);
    // Second pass: the marginal link.
    match j.try_next_parent(&mut nib, &mut disc) {
        ParentStep::Associate(p) => assert_eq!(p.short, ShortAddress(0x10)),
        other => panic!("{:?}", other),
    }
    assert_eq!(j.pass, 1);
    assert_eq!(j.try_next_parent(&mut nib, &mut disc), ParentStep::NotPermitted);
}

#[test]
fn join_fails_without_networks_and_rejoins_by_request() {
    let mut nib = Nib::new(LogicalDeviceType::EndDevice, ExtendedAddress(0xAB));
    let mut empty: DiscoveryTable<6> = DiscoveryTable::new();
    let mut j = JoinState::new(join_params(false));
    assert_eq!(j.try_next_parent(&mut nib, &mut empty), ParentStep::NoNetworks);
    let mut disc = discovery_with(&[200]);
    let mut r = JoinState::new(join_params(true));
    match r.try_next_parent(&mut nib, &mut disc) {
        ParentStep::Rejoin(p) => assert_eq!(p.short, ShortAddress(0x10)),
        other => panic!("{:?}", other),
    }
    // Attempts used up.
    r.attempts = 3;
    assert_eq!(r.try_next_parent(&mut nib, &mut disc), ParentStep::NoNetworks);
}

#[test]
fn destination_of_a_frame() {
    assert_eq!(lib::nwk::relay::broadcast_destination(&[0x08, 0x00, 0xFD, 0xFF]), ShortAddress(0xFFFD));
    assert_eq!(lib::nwk::relay::broadcast_destination(&[0x08, 0x00, 0x34]), ShortAddress(0xFF34));
}

fn nwk_state() -> Nwk<4, 4, 6, 4, 2> {
    Nwk {
        nib: Nib::new(LogicalDeviceType::Coordinator, ExtendedAddress(0xC0)),
        neighbors: NeighborTable::new(),
        broadcasts: BroadcastState::new(),
        scanning: ScanContext {
            scan: None,
            survey: SurveyCounts { total: 0, other_networks: 0, on_network: 0, potential_parents: 0 },
            discovery: DiscoveryTable::new(),
            formation: None,
        },
        join: None,
        passive_ack: true,
        operating_since: None,
        address_map: AddressMap::new(),
        joining_list: JoiningList::new(),
        distributed_network: false,
        now: Instant(0),
        permit_until: None,
        link_status_due: None,
        child_age_last: Instant(0),
        keepalive_due: None,
        timeout_request_deadline: None,
        security_enabled: true,
        stats: NwkStats::default(),
        next_tx_id: 1,
    }
}

#[test]
fn layer_state_forms_a_network_and_then_relays() {
    let mut n = nwk_state();
    assert_eq!(n.finish_formation(Instant(5), &[0x0100], &[], 0), None);
    n.scanning.formation = Some(FormationState::new(ChannelMask(1 << 20), false, None, None));
    let o = n.finish_formation(Instant(5), &[0x0100], &[], 0);
    assert!(matches!(o, Some(FormationOutcome::Started { channel: Channel(20), .. })));
    assert!(n.scanning.formation.is_none());
    assert_eq!(n.operating_since, Some(Instant(5)));
    assert_eq!(n.nib.network_address, ShortAddress(0x0000));
    let f = frame();
    let d = n.on_broadcast_received(Instant(10), ShortAddress(0x0009), 1, ShortAddress(0xFFFF), 5, ShortAddress(0x0009), &f, 8, 8, 10, true, 3);
    assert_eq!(d, BroadcastDecision::DeliverAndRelay);
    assert_eq!(n.originate_broadcast(Instant(11), false, f, 8, true), OriginateOutcome::Broadcast);
    assert_eq!(n.broadcasts.btt.len(), 2);
}

#[test]
fn layer_state_joins_through_discovery() {
    let mut n = nwk_state();
    n.nib = Nib::new(LogicalDeviceType::EndDevice, ExtendedAddress(0xAB));
    assert_eq!(n.try_next_parent(), None);
    n.scanning.scan = Some(ScanState { purpose: ScanPurpose::Discovery, channels: ChannelMask(1 << 15), duration: 3, only_permit_join: true });
    let p = BeaconPayload::new(ExtendedAddress(0x55), true, true, 0, &[]);
    assert_eq!(n.on_mac_beacon(&beacon_info(0x1A2B, 0x0021, true), Some(p), None), None);
    n.join = Some(JoinState::new(join_params(false)));
    match n.try_next_parent() {
        Some(ParentStep::Associate(s)) => assert_eq!(s.short, ShortAddress(0x0021)),
        other => panic!("{:?}", other),
    }
    assert_eq!(n.nib.pan_id, PanId(0x1A2B));
}

fn router_state() -> Nwk<4, 4, 6, 4, 2> {
    let mut n = nwk_state();
    n.nib = router_nib();
    n
}

#[test]
fn rejoin_of_a_new_child_is_accepted_and_recorded() {
    let mut n = router_state();
    let d = n.on_attach_request(true, ShortAddress(0x2000), ExtendedAddress(0x77), MacCapability(0x80), false, true, None, 150, &[]);
    assert_eq!(
        d,
        AttachDecision::Respond {
            status: AttachStatus::Success,
            address: ShortAddress(0x2000),
            method: Some(JoinMethod::RejoinSecured),
            commissioning: false,
        }
    );
    let e = n.neighbors.by_extended(ExtendedAddress(0x77)).unwrap();
    assert_eq!(e.relationship, Relationship::Child);
    assert_eq!(e.outgoing_cost, 1);
    assert_eq!(n.address_map.short_for(ExtendedAddress(0x77)), Some(ShortAddress(0x2000)));
    // An unsecured request that would move the child is refused.
    let d = n.on_attach_request(true, ShortAddress(0x2001), ExtendedAddress(0x77), MacCapability(0x80), false, false, None, 150, &[]);
    assert!(matches!(d, AttachDecision::Respond { status: AttachStatus::PanAccessDenied, .. }));
}

#[test]
fn attach_address_conflicts_and_policy() {
    let mut n = router_state();
    // The requested address is the parent's own: a fresh one is drawn.
    let d = n.on_attach_request(true, ShortAddress(0x0001), ExtendedAddress(0x78), MacCapability(0x80), false, false, None, 150, &[0x0000, 0x0001, 0x0456]);
    assert!(matches!(d, AttachDecision::Respond { status: AttachStatus::Success, address: ShortAddress(0x0456), method: Some(JoinMethod::RejoinUnsecured), .. }));
    assert_eq!(n.neighbors.by_extended(ExtendedAddress(0x78)).unwrap().security_timer_secs, 10);
    // Commissioning: the joiner is asked to retry with the fresh address.
    n.permit_until = Some(Instant(100));
    let d = n.on_attach_request(true, ShortAddress(0x0456), ExtendedAddress(0x79), MacCapability(0x80), true, false, Some(true), 150, &[0x0457]);
    assert_eq!(d, AttachDecision::Respond { status: AttachStatus::AddressConflict, address: ShortAddress(0x0457), method: None, commissioning: true });
    // Joining not permitted: denied; a secured initial join is ignored.
    n.permit_until = None;
    let d = n.on_attach_request(true, ShortAddress(0x0500), ExtendedAddress(0x7A), MacCapability(0x80), true, false, Some(true), 150, &[]);
    assert!(matches!(d, AttachDecision::Respond { status: AttachStatus::PanAccessDenied, .. }));
    assert_eq!(n.on_attach_request(true, ShortAddress(0x0500), ExtendedAddress(0x7A), MacCapability(0x80), true, true, Some(true), 150, &[]), AttachDecision::Ignore);
    // The IEEE joining list gates initial joins too.
    n.permit_until = Some(Instant(100));
    n.joining_list.set_policy(JoiningPolicy::NoJoin);
    let d = n.on_attach_request(true, ShortAddress(0x0500), ExtendedAddress(0x7A), MacCapability(0x80), true, false, Some(true), 150, &[]);
    assert!(matches!(d, AttachDecision::Respond { status: AttachStatus::PanAccessDenied, .. }));
    // Routers are not allowed on the interface in use.
    let d = n.on_attach_request(false, ShortAddress(0x0600), ExtendedAddress(0x7B), MacCapability(0x8E), false, true, None, 150, &[]);
    assert!(matches!(d, AttachDecision::Respond { status: AttachStatus::PanAtCapacity, .. }));
    // Distributed networks refuse unsecured rejoins.
    n.distributed_network = true;
    let d = n.on_attach_request(true, ShortAddress(0x0600), ExtendedAddress(0x7B), MacCapability(0x80), false, false, None, 150, &[]);
    assert!(matches!(d, AttachDecision::Respond { status: AttachStatus::PanAccessDenied, .. }));
}

#[test]
fn timers_end_permit_joining_and_send_link_status() {
    let mut n = router_state();
    n.permit_until = Some(Instant(1000));
    n.link_status_due = Some(Instant(1500));
    assert_eq!(n.poll_timers(Instant(500), 0), vec![]);
    assert_eq!(n.poll_timers(Instant(1000), 7), vec![NwkTimerOutput::PermitJoiningEnded]);
    assert_eq!(n.permit_until, None);
    assert_eq!(n.poll_timers(Instant(1500), 7), vec![NwkTimerOutput::SendLinkStatus, NwkTimerOutput::UpdateBeaconPayload]);
    assert_eq!(n.link_status_due, Some(Instant(1500 + 15_000 + 7)));
    // Time never runs backwards.
    assert_eq!(n.poll_timers(Instant(10), 0), vec![]);
    assert_eq!(n.now, Instant(1500));
}

#[test]
fn timers_age_children_out() {
    let mut n = router_state();
    let mut unauth = NeighborEntry::new(ExtendedAddress(0x99), ShortAddress(0x0999), LogicalDeviceType::EndDevice, false, Relationship::UnauthenticatedChild, 200);
    unauth.security_timer_secs = 2;
    n.neighbors.insert(unauth, 3).unwrap();
    n.address_map.record(ExtendedAddress(0x99), ShortAddress(0x0999));
    assert_eq!(n.poll_timers(Instant(1500), 0), vec![]);
    assert_eq!(n.neighbors.len(), 1);
    assert_eq!(n.poll_timers(Instant(2500), 0), vec![NwkTimerOutput::ChildRemoved(ExtendedAddress(0x99))]);
    assert!(n.neighbors.is_empty());
    assert!(n.address_map.is_empty());
    assert_eq!(n.child_age_last, Instant(2500));
}

#[test]
fn timers_keep_an_end_device_alive() {
    let mut n = nwk_state();
    n.nib = Nib::new(LogicalDeviceType::EndDevice, ExtendedAddress(0xAB));
    n.nib.authenticated = true;
    n.nib.joined = true;
    n.nib.end_device_timeout = TimeoutIndex(0);
    n.nib.parent_information = lib::nwk::command::ParentInformation(0x01);
    n.keepalive_due = Some(Instant(100));
    assert_eq!(n.poll_timers(Instant(100), 0), vec![NwkTimerOutput::KeepalivePoll]);
    assert_eq!(n.keepalive_due, Some(Instant(100 + 3_000)));
    n.timeout_request_deadline = Some(Instant(200));
    n.nib.parent_information = lib::nwk::command::ParentInformation(0x02);
    assert_eq!(n.poll_timers(Instant(200), 0), vec![NwkTimerOutput::ParentLinkFailure]);
    assert_eq!(n.timeout_request_deadline, None);
}

#[test]
fn join_deadlines_poll_retry_and_give_up() {
    let mut n = nwk_state();
    n.nib = Nib::new(LogicalDeviceType::EndDevice, ExtendedAddress(0xAB));
    let mut j = JoinState::new(join_params(false));
    j.phase = JoinPhase::AwaitingResponse { deadline: Instant(1000), polled: false };
    n.join = Some(j);
    assert_eq!(n.poll_timers(Instant(990), 0), vec![NwkTimerOutput::PollParent]);
    assert_eq!(n.poll_timers(Instant(995), 0), vec![]);
    // No response: with nothing discovered the join fails.
    assert_eq!(n.poll_timers(Instant(1000), 0), vec![NwkTimerOutput::JoinStep(ParentStep::NoNetworks)]);
    assert!(n.join.is_none());
    assert_eq!(n.nib.pan_id, PanId(0xFFFF));
    let mut k = JoinState::new(join_params(false));
    k.phase = JoinPhase::AwaitingKey { deadline: Instant(2000) };
    n.join = Some(k);
    n.nib.joined = true;
    n.nib.pan_id = PanId(0x1234);
    assert_eq!(n.poll_timers(Instant(2000), 0), vec![NwkTimerOutput::AuthenticationTimeout]);
    assert!(n.join.is_none());
    assert!(!n.nib.joined);
    assert_eq!(n.nib.pan_id, PanId(0xFFFF));
}

#[test]
fn failed_join_drops_the_join_and_forgets_the_pan() {
    let mut n = nwk_state();
    n.nib = Nib::new(LogicalDeviceType::EndDevice, ExtendedAddress(0xAB));
    n.nib.pan_id = PanId(0x1A2B);
    n.nib.network_address = ShortAddress(0x0042);
    n.join = Some(JoinState::new(join_params(false)));
    assert_eq!(n.try_next_parent(), Some(ParentStep::NoNetworks));
    assert!(n.join.is_none());
    assert_eq!(n.nib.pan_id, PanId(0xFFFF));
    assert_eq!(n.nib.network_address, ShortAddress(0xFFFE));
    // A failed rejoin keeps them.
    n.nib.pan_id = PanId(0x1A2B);
    n.join = Some(JoinState::new(join_params(true)));
    assert_eq!(n.try_next_parent(), Some(ParentStep::NoNetworks));
    assert_eq!(n.nib.pan_id, PanId(0x1A2B));
}
