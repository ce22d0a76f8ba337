use lib::mac::constants::{
    ack_wait_duration, response_wait_time, scan_duration_per_channel, symbols_to_duration,
    transaction_persistence_time, MAX_MAC_SAFE_PAYLOAD_SIZE,
};

#[test]
fn timing_constants() {
    assert_eq!(symbols_to_duration(960).as_millis(), 16);
    // Scan duration n=3: 960 * 9 symbols = 138.24 ms → 139.
    assert_eq!(scan_duration_per_channel(3).as_millis(), 139);
    assert_eq!(scan_duration_per_channel(99), scan_duration_per_channel(14));
    assert_eq!(response_wait_time().as_millis(), 492);
    assert_eq!(transaction_persistence_time().as_millis(), 7680);
    assert_eq!(ack_wait_duration().as_millis(), 1);
    assert_eq!(MAX_MAC_SAFE_PAYLOAD_SIZE, 102);
}

#[test]
fn symbol_conversion_saturates() {
    assert_eq!(symbols_to_duration(u64::MAX).as_millis(), u64::MAX / 1000);
    assert_eq!(symbols_to_duration(0).as_millis(), 0);
    assert_eq!(symbols_to_duration(1).as_millis(), 1);
}
