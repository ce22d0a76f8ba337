use lib::nwk::address_map::{allocate_stochastic, AddressMap, AddressMapUpdate};
use lib::nwk::broadcast::{BroadcastRecord, BroadcastTransactionTable};
use lib::nwk::joining_list::{JoiningList, JoiningPolicy};
use lib::types::{ExtendedAddress, Instant, ShortAddress};

#[test]
fn policy_and_list_gate_joins() {
    let mut j: JoiningList<4> = JoiningList::new();
    let a = ExtendedAddress(1);
    let b = ExtendedAddress(2);
    assert!(j.allows(a));
    j.set_policy(JoiningPolicy::IeeeListJoin);
    assert_eq!(j.update_id, 1);
    assert!(!j.allows(a));
    assert!(j.add(a) && j.add(a));
    assert_eq!(j.update_id, 2);
    assert!(j.allows(a) && !j.allows(b));
    j.set_policy(JoiningPolicy::NoJoin);
    assert!(!j.allows(a));
    // A response replaces from an index and a zero total clears.
    assert!(j.apply(JoiningPolicy::IeeeListJoin, 2, 0, &[b, a]));
    assert_eq!(j.entries(), &[b, a]);
    assert!(!j.apply(JoiningPolicy::IeeeListJoin, 5, 4, &[b]), "gap");
    assert!(j.apply(JoiningPolicy::IeeeListJoin, 0, 0, &[]));
    assert!(j.entries().is_empty());
    assert!(!j.remove(a));
    assert_eq!(JoiningPolicy::from_raw(2), Some(JoiningPolicy::NoJoin));
    assert_eq!(JoiningPolicy::from_raw(3), None);
    assert_eq!(JoiningPolicy::IeeeListJoin.raw(), 1);
}

#[test]
fn joining_list_is_bounded_and_counts_changes() {
    let mut j: JoiningList<1> = JoiningList::new();
    assert!(j.add(ExtendedAddress(5)));
    assert!(!j.add(ExtendedAddress(6)));
    assert_eq!(j.update_id, 1);
    assert!(j.remove(ExtendedAddress(5)));
    assert_eq!(j.update_id, 2);
    j.clear();
    assert_eq!(j.update_id, 2);
}

#[test]
fn record_and_conflict() {
    let mut m = AddressMap::<2>::new();
    assert_eq!(m.record(ExtendedAddress(1), ShortAddress(10)), AddressMapUpdate::Added);
    assert_eq!(m.record(ExtendedAddress(1), ShortAddress(10)), AddressMapUpdate::Unchanged);
    assert_eq!(
        m.record(ExtendedAddress(1), ShortAddress(11)),
        AddressMapUpdate::ShortChanged { old: ShortAddress(10) }
    );
    assert_eq!(
        m.record(ExtendedAddress(2), ShortAddress(11)),
        AddressMapUpdate::Conflict { other: ExtendedAddress(1) }
    );
    assert_eq!(m.short_for(ExtendedAddress(1)), Some(ShortAddress(11)));
    assert_eq!(m.record(ExtendedAddress(2), ShortAddress(12)), AddressMapUpdate::Added);
    assert_eq!(m.record(ExtendedAddress(3), ShortAddress(13)), AddressMapUpdate::Full);
    m.remove_short(ShortAddress(12));
    assert_eq!(m.len(), 1);
    assert!(m.contains_short(ShortAddress(11)));
    assert_eq!(m.extended_for(ShortAddress(11)), Some(ExtendedAddress(1)));
    m.remove_extended(ExtendedAddress(1));
    assert!(m.is_empty());
}

#[test]
fn stochastic_allocation_avoids_used_and_reserved() {
    let used = [ShortAddress(0x1234)];
    let draws = [0x0000, 0xFFFF, 0x1234, 0xFFF8, 0x4321];
    let a = allocate_stochastic(&draws, |s| used.contains(&s)).unwrap();
    assert_eq!(a, ShortAddress(0x4321));
    assert!(allocate_stochastic(&draws, |_| true).is_none());
    let many = [0u16; 100];
    assert!(allocate_stochastic(&many, |_| false).is_none());
}

fn rec(seq: u8, expires: Instant) -> BroadcastRecord {
    BroadcastRecord {
        source: ShortAddress(1),
        sequence: seq,
        expires,
        awaiting: Vec::new(),
        retries: 0,
        next_tx: None,
        relay_pending: false,
    }
}

#[test]
fn duplicate_detection_and_expiry_reuse() {
    let mut t = BroadcastTransactionTable::<1>::new();
    let now = Instant(0);
    let exp = Instant(9_000);
    t.insert(rec(1, exp), now).unwrap();
    assert!(t.get(ShortAddress(1), 1).is_some());
    assert!(t.insert(rec(2, exp), now).is_none(), "full, nothing expired");
    assert!(t.insert(rec(2, exp), exp).is_some(), "expired record reused");
    assert!(t.get(ShortAddress(1), 1).is_none());
    t.expire(Instant(18_000));
    assert!(t.is_empty());
}

#[test]
fn passive_ack_tracking() {
    let mut r = rec(1, Instant(0));
    r.awaiting.push(ShortAddress(2));
    r.awaiting.push(ShortAddress(3));
    assert!(!r.fully_acknowledged());
    r.passive_ack(ShortAddress(2));
    r.passive_ack(ShortAddress(9));
    assert!(!r.fully_acknowledged());
    r.passive_ack(ShortAddress(3));
    assert!(r.fully_acknowledged());
}

#[test]
fn next_deadline_is_earliest_time() {
    let mut t = BroadcastTransactionTable::<4>::new();
    assert_eq!(t.next_deadline(), None);
    let mut a = rec(1, Instant(500));
    a.next_tx = Some(Instant(100));
    t.insert(a, Instant(0)).unwrap();
    t.insert(rec(2, Instant(50)), Instant(0)).unwrap();
    assert_eq!(t.next_deadline(), Some(Instant(50)));
    t.get_mut(ShortAddress(1), 2).unwrap().expires = Instant(700);
    assert_eq!(t.next_deadline(), Some(Instant(100)));
    assert_eq!(t.len(), 2);
    t.clear();
    assert!(t.is_empty());
}

#[test]
fn partial_apply_still_bumps_update_id() {
    let mut j: JoiningList<1> = JoiningList::new();
    let a = ExtendedAddress(1);
    let b = ExtendedAddress(2);
    // The first entry is stored, the second does not fit: the list
    // changed, so the update id moves even though the result is false.
    assert!(!j.apply(JoiningPolicy::AllJoin, 2, 0, &[a, b]));
    assert_eq!(j.entries(), &[a]);
    assert_eq!(j.update_id, 1);
    // Nothing stored, nothing changed.
    assert!(!j.apply(JoiningPolicy::AllJoin, 2, 3, &[b]));
    assert_eq!(j.update_id, 1);
}
