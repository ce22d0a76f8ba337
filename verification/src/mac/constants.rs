//! PHY and MAC constants for the 2.4 GHz O-QPSK PHY.
use vstd::prelude::*;

use crate::nwk::command::pow2;
use crate::types::Duration;

verus! {

/// Symbol period on the 2.4 GHz O-QPSK PHY, in microseconds.
pub const SYMBOL_PERIOD_US: u64 = 16;
/// Maximum PHY packet size (`aMaxPHYPacketSize`).
pub const MAX_PHY_PACKET_SIZE: usize = 127;
/// Length of the frame check sequence appended by the PHY.
pub const FCS_LEN: usize = 2;
/// Maximum MAC frame size excluding the FCS.
pub const MAX_MAC_FRAME_SIZE: usize = 125;
/// `aMaxMPDUUnsecuredOverhead`: largest unsecured MAC header + FCS.
pub const MAX_MPDU_UNSECURED_OVERHEAD: usize = 25;
/// `aMaxMACSafePayloadSize`: payload that fits with the largest header.
pub const MAX_MAC_SAFE_PAYLOAD_SIZE: usize = 102;
/// `aBaseSlotDuration` in symbols.
pub const BASE_SLOT_DURATION_SYMBOLS: u64 = 60;
/// `aNumSuperframeSlots`.
pub const NUM_SUPERFRAME_SLOTS: u64 = 16;
/// `aBaseSuperframeDuration` in symbols.
pub const BASE_SUPERFRAME_DURATION_SYMBOLS: u64 = 960;
/// `macAckWaitDuration` for the unslotted 2.4 GHz PHY, in symbols.
pub const ACK_WAIT_DURATION_SYMBOLS: u64 = 54;
/// `macMaxFrameRetries` default.
pub const MAX_FRAME_RETRIES: u8 = 3;
/// `macResponseWaitTime` default in multiples of `aBaseSuperframeDuration`.
pub const RESPONSE_WAIT_TIME_MULTIPLIER: u64 = 32;
/// `macTransactionPersistenceTime` default in multiples of
/// `aBaseSuperframeDuration`.
pub const TRANSACTION_PERSISTENCE_TIME_MULTIPLIER: u64 = 0x01F4;
/// `macMaxCSMABackoffs` default.
pub const MAX_CSMA_BACKOFFS: u8 = 4;
/// `macMinBE` default.
pub const MIN_BE: u8 = 3;
/// `macMaxBE` default.
pub const MAX_BE: u8 = 5;
/// Beacon order / superframe order value meaning "non-beacon PAN".
pub const NON_BEACON_ORDER: u8 = 15;
/// Broadcast short address at the MAC layer.
pub const MAC_BROADCAST_SHORT: u16 = 0xFFFF;

/// Milliseconds, rounded up, that `symbols` symbols last; the
/// intermediate products saturate.
pub open spec fn spec_symbols_to_ms(symbols: u64) -> u64 {
    let us = if symbols * SYMBOL_PERIOD_US > u64::MAX { u64::MAX } else { (symbols * SYMBOL_PERIOD_US) as u64 };
    let up = if us + 999 > u64::MAX { u64::MAX } else { (us + 999) as u64 };
    (up / 1000) as u64
}

/// Converts a symbol count to a millisecond [`Duration`], rounding up.
pub fn symbols_to_duration(symbols: u64) -> (d: Duration)
    ensures
        d.0 == spec_symbols_to_ms(symbols),
{
    let us: u64 = if symbols > u64::MAX / SYMBOL_PERIOD_US { u64::MAX } else { symbols * SYMBOL_PERIOD_US };
    let up = us.saturating_add(999);
    Duration::from_millis(up / 1000)
}

/// Symbols an active or energy scan dwells on one channel for exponent
/// `n` (clamped to 14): `aBaseSuperframeDuration * (2^n + 1)`.
pub open spec fn spec_scan_symbols(n: u8) -> u64 {
    let e = if n > 14 { 14nat } else { n as nat };
    (BASE_SUPERFRAME_DURATION_SYMBOLS * (pow2(e) + 1)) as u64
}

/// Powers of two up to 2^14 stay within 16384.
proof fn lemma_pow2_le_14(e: nat)
    requires
        e <= 14,
    ensures
        1 <= pow2(e) <= 16384,
{
    reveal_with_fuel(pow2, 16);
}

/// Duration of an active or energy scan on one channel for scan duration
/// exponent `n`: `aBaseSuperframeDuration * (2^n + 1)` symbols, `n`
/// clamped to `0..=14`.
pub fn scan_duration_per_channel(n: u8) -> (d: Duration)
    ensures
        d.0 == spec_symbols_to_ms(spec_scan_symbols(n)),
{
    symbols_to_duration(scan_symbols_per_channel(n))
}

/// Symbols a scan dwells on one channel for exponent `n` (clamped to 14).
pub fn scan_symbols_per_channel(n: u8) -> (s: u64)
    ensures
        s == spec_scan_symbols(n),
        s <= 960 * 16385,
{
    let e: u8 = if n > 14 { 14 } else { n };
    let mut p: u64 = 1;
    let mut i: u8 = 0;
    while i < e
        invariant
            i <= e <= 14,
            p == pow2(i as nat),
        decreases e - i,
    {
        proof {
            lemma_pow2_le_14(i as nat);
            assert(pow2((i + 1) as nat) == 2 * pow2(i as nat));
        }
        p = p * 2;
        i = i + 1;
    }
    proof {
        lemma_pow2_le_14(e as nat);
    }
    BASE_SUPERFRAME_DURATION_SYMBOLS * (p + 1)
}

/// `macResponseWaitTime` as a duration (492 ms).
pub fn response_wait_time() -> (d: Duration)
    ensures
        d.0 == spec_symbols_to_ms((RESPONSE_WAIT_TIME_MULTIPLIER * BASE_SUPERFRAME_DURATION_SYMBOLS) as u64),
        d.0 == 492,
{
    symbols_to_duration(RESPONSE_WAIT_TIME_MULTIPLIER * BASE_SUPERFRAME_DURATION_SYMBOLS)
}

/// `macTransactionPersistenceTime` as a duration (7680 ms).
pub fn transaction_persistence_time() -> (d: Duration)
    ensures
        d.0 == spec_symbols_to_ms((TRANSACTION_PERSISTENCE_TIME_MULTIPLIER * BASE_SUPERFRAME_DURATION_SYMBOLS) as u64),
        d.0 == 7680,
{
    symbols_to_duration(TRANSACTION_PERSISTENCE_TIME_MULTIPLIER * BASE_SUPERFRAME_DURATION_SYMBOLS)
}

/// `macAckWaitDuration` as a duration (rounded up to 1 ms).
pub fn ack_wait_duration() -> (d: Duration)
    ensures
        d.0 == spec_symbols_to_ms(ACK_WAIT_DURATION_SYMBOLS),
        d.0 == 1,
{
    symbols_to_duration(ACK_WAIT_DURATION_SYMBOLS)
}

} // verus!
