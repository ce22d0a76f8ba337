use lib::nwk::nib::constants::DEFAULT_RADIUS;
use lib::nwk::nib::{Nib, SecurityLevel};
use lib::types::{Duration, ExtendedAddress, LogicalDeviceType, PanId, ShortAddress, NO_SHORT_ADDRESS_RAW, PAN_BROADCAST_RAW};

#[test]
fn defaults_and_sequence() {
    let mut nib = Nib::new(LogicalDeviceType::Router, ExtendedAddress(1));
    assert_eq!(nib.security_level, SecurityLevel::EncMic32);
    assert_eq!(nib.link_status_period, Duration::from_secs(15));
    assert_eq!(nib.router_age_limit, 3);
    assert!(nib.all_fresh);
    assert!(nib.rx_on_when_idle);
    nib.sequence_number = 255;
    assert_eq!(nib.next_sequence(), 255);
    assert_eq!(nib.next_sequence(), 0);
    assert_eq!(DEFAULT_RADIUS, 30);
    let ed = Nib::new(LogicalDeviceType::EndDevice, ExtendedAddress(2));
    assert!(ed.is_end_device());
    assert!(!ed.capability_information.is_full_function_device());
}

#[test]
fn clear_for_leave_resets_identity() {
    let mut nib = Nib::new(LogicalDeviceType::EndDevice, ExtendedAddress(2));
    nib.pan_id = PanId(1);
    nib.network_address = ShortAddress(5);
    nib.joined = true;
    nib.clear_for_leave();
    assert_eq!(nib.pan_id, PanId(PAN_BROADCAST_RAW));
    assert_eq!(nib.network_address, ShortAddress(NO_SHORT_ADDRESS_RAW));
    assert!(!nib.joined);
    assert_eq!(nib.ieee_address, ExtendedAddress(2), "IEEE address is kept");
}

#[test]
fn routing_sequence_wraps_and_roles() {
    let mut nib = Nib::new(LogicalDeviceType::Coordinator, ExtendedAddress(3));
    assert!(nib.is_coordinator() && nib.is_router_or_coordinator());
    nib.routing_sequence_number = 0xFFFF;
    assert_eq!(nib.next_routing_sequence(), 0);
    assert_eq!(nib.next_routing_sequence(), 1);
}
