use lib::nwk::discovery::{Candidate, DiscoveryTable, RouterInformation};
use lib::types::{Channel, ChannelPage, ExtendedAddress, PanId, ShortAddress};

fn cand(short: u16, lqa: u8, hub: bool, update_id: u8) -> Candidate {
    Candidate {
        extended_pan_id: ExtendedAddress(1),
        pan_id: PanId(1),
        page: ChannelPage(0),
        channel: Channel(11),
        short: ShortAddress(short),
        extended: None,
        lqa,
        update_id,
        router_capacity: true,
        end_device_capacity: true,
        permit_joining: true,
        pan_coordinator: short == 0,
        router_info: Some(RouterInformation(if hub { RouterInformation::HUB_CONNECTIVITY } else { 0 })),
        r23: true,
        appendix: Vec::new(),
        attempts: 0,
    }
}

#[test]
fn ranking_prefers_hub_then_update_id_then_lqa() {
    let mut t = DiscoveryTable::<6>::new();
    t.add(cand(1, 250, false, 0), 0, None);
    t.add(cand(2, 100, true, 0), 0, None);
    t.add(cand(3, 200, false, 1), 0, None);
    let mut out = Vec::<usize>::new();
    t.ranked(Some(ExtendedAddress(1)), false, true, 75, true, 0, None, 3, &mut out);
    let order: Vec<u16> = out.iter().map(|i| t.get(*i).unwrap().short.0).collect();
    assert_eq!(order.as_slice(), &[2, 3, 1]);
    // Marginal pass yields nothing (all good).
    t.ranked(Some(ExtendedAddress(1)), false, true, 75, false, 0, None, 3, &mut out);
    assert!(out.is_empty());
}

#[test]
fn full_table_keeps_best() {
    let mut t = DiscoveryTable::<2>::new();
    t.add(cand(1, 50, false, 0), 0, None);
    t.add(cand(2, 60, false, 0), 0, None);
    t.add(cand(3, 255, false, 0), 0, None);
    assert_eq!(t.len(), 2);
    assert!(t.entries().iter().any(|c| c.short == ShortAddress(3)));
    assert!(!t.entries().iter().any(|c| c.short == ShortAddress(1)));
    // Updating an existing candidate keeps attempts.
    t.get_mut(0).unwrap().attempts = 2;
    let short0 = t.get(0).unwrap().short.0;
    t.add(cand(short0, 10, false, 0), 0, None);
    assert_eq!(t.get(0).unwrap().attempts, 2);
    assert_eq!(t.networks().len(), 1);
}

#[test]
fn filters_capacity_permit_and_attempts() {
    let mut t = DiscoveryTable::<4>::new();
    let mut a = cand(1, 200, false, 0);
    a.permit_joining = false;
    let mut b = cand(2, 200, false, 0);
    b.router_capacity = false;
    let mut c = cand(3, 200, false, 0);
    c.attempts = 3;
    t.add(a, 0, None);
    t.add(b, 0, None);
    t.add(c, 0, None);
    let mut out = Vec::<usize>::new();
    t.ranked(None, true, true, 75, true, 0, None, 3, &mut out);
    assert!(out.is_empty());
    t.ranked(None, false, false, 75, true, 0, None, 3, &mut out);
    let shorts: Vec<u16> = out.iter().map(|i| t.get(*i).unwrap().short.0).collect();
    assert_eq!(shorts.as_slice(), &[1, 2]);
}

#[test]
fn rank_orders_by_key_components() {
    let mut c = cand(5, 10, false, 0);
    let base = c.rank(0, None);
    assert_eq!(base, 10);
    assert_eq!(c.rank(0, Some(ShortAddress(5))), 10 + (1 << 17));
    c.update_id = 3;
    assert_eq!(c.rank(1, None), 10 + (2 << 18));
    assert_eq!(c.rank(200, None), 10 + (59 << 18));
    assert_eq!(c.rank(4, None), 10);
    c.router_info = Some(RouterInformation(RouterInformation::HUB_CONNECTIVITY | RouterInformation::PREFERRED_PARENT));
    assert_eq!(c.rank(3, None), 10 + (1 << 28) + (1 << 27));
}

#[test]
fn networks_lists_first_candidate_per_pan() {
    let mut t = DiscoveryTable::<4>::new();
    let mut a = cand(1, 1, false, 0);
    a.extended_pan_id = ExtendedAddress(7);
    let b = cand(2, 1, false, 0);
    let mut c = cand(3, 1, false, 0);
    c.extended_pan_id = ExtendedAddress(7);
    t.add(a, 0, None);
    t.add(b, 0, None);
    t.add(c, 0, None);
    assert_eq!(t.networks(), vec![0, 1]);
    t.clear();
    assert!(t.is_empty());
}
