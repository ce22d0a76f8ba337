use lib::mac::frame::MacAddress;
use lib::mac::power::{PowerControlTable, PowerEntry, PowerLimits, PowerTableError};
use lib::types::{ExtendedAddress, Instant, ShortAddress};

const A: ShortAddress = ShortAddress(0x1234);
const A_IEEE: ExtendedAddress = ExtendedAddress(0x1122_3344_5566_7788);

#[test]
fn adjusts_from_maximum_and_clamps() {
    let mut t: PowerControlTable<4> = PowerControlTable::default();
    assert_eq!(t.tx_power_for(&MacAddress::Short(A)), None);
    let p = t.adjust(A, A_IEEE, -5, -40, Instant(0)).unwrap();
    assert_eq!(p, 3);
    assert_eq!(t.tx_power_for(&MacAddress::Short(A)), Some(3));
    assert_eq!(t.tx_power_for(&MacAddress::Extended(A_IEEE)), Some(3));
    assert_eq!(t.get(Some(A), None).unwrap().last_rssi_dbm, -40);
    assert!(t.get(Some(A), None).unwrap().nwk_negotiated);
    // Cumulative, then clamped at the limits.
    assert_eq!(t.adjust(A, A_IEEE, -30, -30, Instant(0)).unwrap(), -20);
    assert_eq!(t.adjust(A, A_IEEE, 100, -90, Instant(0)).unwrap(), 8);
    assert_eq!(t.tx_power_for(&MacAddress::Short(ShortAddress(0xFFFF))), None);
    assert!(t.remove(Some(A), None));
    assert!(t.is_empty());
}

#[test]
fn unnegotiated_entries_expire_and_are_evicted_first() {
    let mut t: PowerControlTable<2> = PowerControlTable::default();
    t.set(PowerEntry {
        short: A,
        extended: A_IEEE,
        tx_power_dbm: 0,
        last_rssi_dbm: -50,
        nwk_negotiated: false,
        created: Instant(0),
    })
    .unwrap();
    t.set(PowerEntry {
        short: ShortAddress(0x0001),
        extended: ExtendedAddress(0),
        tx_power_dbm: 2,
        last_rssi_dbm: -50,
        nwk_negotiated: true,
        created: Instant(0),
    })
    .unwrap();
    // Full: the un-negotiated entry makes room.
    t.set(PowerEntry {
        short: ShortAddress(0x0002),
        extended: ExtendedAddress(0),
        tx_power_dbm: 1,
        last_rssi_dbm: -50,
        nwk_negotiated: true,
        created: Instant(0),
    })
    .unwrap();
    assert!(t.get(Some(A), None).is_none());
    assert_eq!(t.len(), 2);
    // Nothing evictable: full.
    assert_eq!(
        t.set(PowerEntry {
            short: ShortAddress(0x0003),
            extended: ExtendedAddress(0),
            tx_power_dbm: 1,
            last_rssi_dbm: -50,
            nwk_negotiated: false,
            created: Instant(0),
        }),
        Err(PowerTableError::Full)
    );
    // Expiry drops only un-negotiated entries past the lifetime.
    let mut t: PowerControlTable<2> = PowerControlTable::default();
    t.set(PowerEntry {
        short: A,
        extended: A_IEEE,
        tx_power_dbm: 0,
        last_rssi_dbm: -50,
        nwk_negotiated: false,
        created: Instant(0),
    })
    .unwrap();
    t.expire(Instant(9_999));
    assert_eq!(t.len(), 1);
    t.mark_negotiated(None, Some(A_IEEE));
    t.expire(Instant(50_000));
    assert_eq!(t.len(), 1);
    t.reset();
    assert!(t.is_empty());
}

#[test]
fn clamp_and_default_limits() {
    let l = PowerLimits::default();
    assert_eq!(l.clamp(-100), -20);
    assert_eq!(l.clamp(100), 8);
    assert_eq!(l.clamp(0), 0);
}

#[test]
fn replacement_keeps_known_ieee_address() {
    let mut t: PowerControlTable<4> = PowerControlTable::new(PowerLimits { min_dbm: -10, max_dbm: 5 });
    t.set(PowerEntry {
        short: A,
        extended: A_IEEE,
        tx_power_dbm: 20,
        last_rssi_dbm: 0,
        nwk_negotiated: true,
        created: Instant(1),
    })
    .unwrap();
    assert_eq!(t.entries()[0].tx_power_dbm, 5);
    t.set(PowerEntry {
        short: A,
        extended: ExtendedAddress(0),
        tx_power_dbm: -3,
        last_rssi_dbm: 0,
        nwk_negotiated: true,
        created: Instant(1),
    })
    .unwrap();
    assert_eq!(t.len(), 1);
    assert_eq!(t.entries()[0].extended, A_IEEE);
    assert_eq!(t.entries()[0].tx_power_dbm, -3);
}

#[test]
fn adjust_evicts_unnegotiated_link_when_full() {
    let mut t: PowerControlTable<1> = PowerControlTable::default();
    t.set(PowerEntry {
        short: ShortAddress(0x0001),
        extended: ExtendedAddress(0),
        tx_power_dbm: 0,
        last_rssi_dbm: -50,
        nwk_negotiated: false,
        created: Instant(0),
    })
    .unwrap();
    assert_eq!(t.adjust(A, A_IEEE, -2, -60, Instant(5)).unwrap(), 6);
    assert_eq!(t.tx_power_for(&MacAddress::Short(A)), Some(6));
    assert_eq!(t.len(), 1);
    // Now full of negotiated links: a new one is refused.
    assert_eq!(t.adjust(ShortAddress(0x0002), ExtendedAddress(0), -2, -60, Instant(5)), Err(PowerTableError::Full));
}
