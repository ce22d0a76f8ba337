use lib::nwk::interface::{
    DutyCycleThresholds, InterfaceCounters, InterfaceError, MacInterfaceEntry, MacInterfaceTable, SetInterface,
};
use lib::types::{Channel, ChannelMask, ChannelPage, ALL_2_4GHZ_RAW, BDB_PRIMARY_RAW};

fn ch(n: u8) -> Channel {
    Channel::new_2_4ghz(n).unwrap()
}

#[test]
fn set_and_get_interface_follow_3_2_2_34() {
    let mut t: MacInterfaceTable<4> = MacInterfaceTable::single(ChannelMask(ALL_2_4GHZ_RAW));
    assert_eq!(t.enabled().len(), 1);
    // Unknown index.
    let mut req = SetInterface {
        index: 5,
        state: true,
        channel_to_use: Some((ChannelPage(0), ch(15))),
        supported_channels: None,
        routers_allowed: true,
        duty_cycle: DutyCycleThresholds { warning: 10, critical: 20, regulated: 30 },
        link_cost_scalar: 2,
    };
    assert_eq!(t.set_interface(&req), Err(InterfaceError::UnknownInterface));
    // The only interface cannot be disabled.
    req.index = 0;
    req.state = false;
    assert_eq!(t.set_interface(&req), Err(InterfaceError::LastInterface));
    // An unsupported channel is refused; a supported one is taken.
    req.state = true;
    req.channel_to_use = Some((ChannelPage(28), ch(15)));
    assert_eq!(t.set_interface(&req), Err(InterfaceError::InvalidChannel));
    req.channel_to_use = Some((ChannelPage(0), ch(15)));
    t.set_interface(&req).unwrap();
    let e = t.get(0).unwrap();
    assert_eq!(e.channel_in_use, Some((ChannelPage(0), ch(15))));
    assert_eq!(e.duty_cycle.warning, 100);
    assert_eq!(e.link_cost_scalar, 2);
    assert_eq!(t.scaled_link_cost(0, 3), 6);
    assert_eq!(t.scaled_link_cost(0, 5), 7);
    // Scalar range.
    req.link_cost_scalar = 40;
    assert_eq!(t.set_interface(&req), Err(InterfaceError::InvalidParameter));
    // A second interface lets the first be disabled.
    t.insert(MacInterfaceEntry::trusted_link(1, 0x0042)).unwrap();
    req.link_cost_scalar = 1;
    req.state = false;
    t.set_interface(&req).unwrap();
    assert!(!t.get(0).unwrap().state);
    assert!(t.get(0).unwrap().channel_in_use.is_none());
    assert_eq!(t.supported_subset(ChannelMask(ALL_2_4GHZ_RAW)), ChannelMask(0));
    req.state = true;
    t.set_interface(&req).unwrap();
    assert_eq!(t.supported_subset(ChannelMask(BDB_PRIMARY_RAW)), ChannelMask(BDB_PRIMARY_RAW));
    assert!(t.interface_for(ChannelPage(0), ch(11)).is_some());
    assert!(t.interface_for(ChannelPage(28), ch(11)).is_none());
    // Counters are returned and reset by a read.
    t.note_tx(0, 2, true);
    t.note_tx(0, 0, false);
    t.note_rx(0);
    let info = t.get_interface(0).unwrap();
    assert_eq!(
        info.entry.counters,
        InterfaceCounters { rx_ucast: 1, tx_ucast_retries: 2, tx_ucast_failures: 1, tx_ucast_total: 2 }
    );
    assert_eq!(t.get(0).unwrap().counters, InterfaceCounters::default());
    assert_eq!(t.get_interface(9).map(|_| ()), Err(InterfaceError::UnknownInterface));
    assert!(t.remove(1));
    assert!(!t.remove(1));
}

#[test]
fn insert_refuses_bad_index_and_full_table() {
    let mut t: MacInterfaceTable<1> = MacInterfaceTable::single(ChannelMask(ALL_2_4GHZ_RAW));
    assert_eq!(t.insert(MacInterfaceEntry::trusted_link(32, 1)), Err(InterfaceError::InvalidParameter));
    assert_eq!(t.insert(MacInterfaceEntry::trusted_link(3, 1)), Err(InterfaceError::InvalidParameter));
    assert!(t.insert(MacInterfaceEntry::trusted_link(0, 9)).is_ok());
    assert_eq!(t.entries()[0].ble_connection_handle, 9);
    assert_eq!(t.scaled_link_cost(7, 3), 3);
}
