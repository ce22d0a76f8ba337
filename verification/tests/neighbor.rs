use lib::nwk::command::TimeoutIndex;
use lib::nwk::neighbor::{link_cost_from_lqa, LqaFilter, NeighborEntry, NeighborTable, Relationship};
use lib::types::{ExtendedAddress, LogicalDeviceType, ShortAddress};

fn entry(n: u64, rel: Relationship, dt: LogicalDeviceType) -> NeighborEntry {
    NeighborEntry::new(ExtendedAddress(n), ShortAddress(n as u16), dt, true, rel, 200)
}

#[test]
fn link_cost_table_3_76() {
    assert_eq!(link_cost_from_lqa(255), 1);
    assert_eq!(link_cost_from_lqa(193), 1);
    assert_eq!(link_cost_from_lqa(192), 2);
    assert_eq!(link_cost_from_lqa(129), 2);
    assert_eq!(link_cost_from_lqa(128), 3);
    assert_eq!(link_cost_from_lqa(97), 3);
    assert_eq!(link_cost_from_lqa(96), 4);
    assert_eq!(link_cost_from_lqa(65), 4);
    assert_eq!(link_cost_from_lqa(64), 5);
    assert_eq!(link_cost_from_lqa(33), 5);
    assert_eq!(link_cost_from_lqa(32), 6);
    assert_eq!(link_cost_from_lqa(17), 6);
    assert_eq!(link_cost_from_lqa(16), 7);
    assert_eq!(link_cost_from_lqa(0), 7);
}

#[test]
fn lqa_median_filter() {
    let mut f = LqaFilter::new(200);
    assert_eq!(f.value(), 200);
    f.push(10);
    assert_eq!(f.value(), 10, "two samples: conservative");
    f.push(180);
    assert_eq!(f.value(), 180, "median of 200, 10, 180");
    f.push(190);
    assert_eq!(f.value(), 180, "median of 190, 10, 180");
    f.push(5);
    assert_eq!(f.value(), 180, "median of 190, 5, 180: a single outlier is ignored");
}

#[test]
fn insert_evicts_only_stale_routers() {
    let mut t = NeighborTable::<2>::new();
    t.insert(entry(1, Relationship::Child, LogicalDeviceType::EndDevice), 3).unwrap();
    t.insert(entry(2, Relationship::Sibling, LogicalDeviceType::Router), 3).unwrap();
    assert!(t.insert(entry(3, Relationship::Sibling, LogicalDeviceType::Router), 3).is_err());
    // Age the sibling beyond the limit.
    for _ in 0..4 {
        t.link_status_tick(3);
    }
    assert_eq!(t.by_extended(ExtendedAddress(2)).unwrap().outgoing_cost, 0);
    t.insert(entry(3, Relationship::Sibling, LogicalDeviceType::Router), 3).unwrap();
    assert!(t.by_extended(ExtendedAddress(2)).is_none());
    assert!(t.by_extended(ExtendedAddress(1)).is_some(), "child never evicted");
    assert_eq!(t.child_count(), 1);
}

#[test]
fn child_aging_and_security_timer() {
    let mut t = NeighborTable::<4>::new();
    let mut child = entry(1, Relationship::Child, LogicalDeviceType::EndDevice);
    child.set_timeout(TimeoutIndex(0));
    t.insert(child, 3).unwrap();
    let mut unauth = entry(2, Relationship::UnauthenticatedChild, LogicalDeviceType::Router);
    unauth.security_timer_secs = 10;
    t.insert(unauth, 3).unwrap();
    let mut expired: Vec<ExtendedAddress> = Vec::new();
    t.age_children::<4>(5, &mut expired);
    assert!(expired.is_empty());
    assert_eq!(t.by_extended(ExtendedAddress(1)).unwrap().timeout_counter_secs, 5);
    t.age_children::<4>(5, &mut expired);
    assert_eq!(expired.len(), 2);
    assert!(t.is_empty());
}

#[test]
fn path_cost_uses_max_of_directions() {
    let mut e = entry(1, Relationship::Sibling, LogicalDeviceType::Router);
    assert_eq!(e.incoming_cost(), 1);
    assert_eq!(e.path_cost(), 7, "unknown outgoing cost");
    e.outgoing_cost = 3;
    assert_eq!(e.path_cost(), 3);
}

#[test]
fn insert_replaces_same_extended_address() {
    let mut t = NeighborTable::<2>::new();
    t.insert(entry(7, Relationship::Sibling, LogicalDeviceType::Router), 3).unwrap();
    let mut e = entry(7, Relationship::Parent, LogicalDeviceType::Coordinator);
    e.short = ShortAddress(0x0000);
    t.insert(e, 3).unwrap();
    assert_eq!(t.len(), 1);
    assert_eq!(t.added, 1);
    assert_eq!(t.parent().unwrap().short, ShortAddress(0));
    assert_eq!(t.by_short(ShortAddress(0)).unwrap().extended, ExtendedAddress(7));
}

#[test]
fn remove_moves_last_entry_into_place() {
    let mut t = NeighborTable::<4>::new();
    for n in 1..=3u64 {
        t.insert(entry(n, Relationship::Sibling, LogicalDeviceType::Router), 3).unwrap();
    }
    let gone = t.remove_extended(ExtendedAddress(1)).unwrap();
    assert_eq!(gone.extended, ExtendedAddress(1));
    assert_eq!(t.entries()[0].extended, ExtendedAddress(3));
    assert_eq!(t.removed, 1);
    assert!(t.remove_short(ShortAddress(9)).is_none());
    assert_eq!(t.removed, 1);
}

#[test]
fn retain_counts_removals_and_filters_keep_order() {
    let mut t = NeighborTable::<4>::new();
    t.insert(entry(1, Relationship::Child, LogicalDeviceType::EndDevice), 3).unwrap();
    t.insert(entry(2, Relationship::Child, LogicalDeviceType::Router), 3).unwrap();
    t.insert(entry(3, Relationship::Sibling, LogicalDeviceType::Router), 3).unwrap();
    assert_eq!(t.router_child_count(), 1);
    assert_eq!(t.end_device_children().len(), 1);
    assert_eq!(t.routers().len(), 2);
    t.retain(|e| e.extended != ExtendedAddress(2));
    assert_eq!(t.len(), 2);
    assert_eq!(t.removed, 1);
    assert_eq!(t.entries()[1].extended, ExtendedAddress(3));
}

#[test]
fn lqa_filter_counts_samples() {
    let mut f = LqaFilter::new(1);
    assert_eq!(f.count(), 1);
    f.push(2);
    f.push(3);
    f.push(4);
    assert_eq!(f.count(), 3);
}

#[test]
fn aging_counts_only_entries_removed_now() {
    let mut t = NeighborTable::<4>::new();
    let mut expired: Vec<ExtendedAddress> = vec![ExtendedAddress(99)];
    t.age_children::<4>(5, &mut expired);
    assert_eq!(t.removed, 0);
    let mut unauth = entry(2, Relationship::UnauthenticatedChild, LogicalDeviceType::Router);
    unauth.security_timer_secs = 3;
    t.insert(unauth, 3).unwrap();
    t.age_children::<4>(5, &mut expired);
    assert_eq!(expired, vec![ExtendedAddress(99), ExtendedAddress(2)]);
    assert_eq!(t.removed, 1);
}

#[test]
fn lqa_filter_first_push_takes_the_lower() {
    let mut f = LqaFilter::new(40);
    f.push(90);
    assert_eq!(f.value(), 40);
    assert_eq!(f.count(), 2);
}
