//! NWK layer constants; timing constants are the millisecond values for
//! the 2.4 GHz PHY.
use vstd::prelude::*;

verus! {

/// `nwkcMinHeaderOverhead`.
pub const MIN_HEADER_OVERHEAD: usize = 8;
/// `nwkcProtocolVersion`.
pub const PROTOCOL_VERSION: u8 = 0x02;
/// `nwkcRouteDiscoveryTime`, milliseconds.
pub const ROUTE_DISCOVERY_TIME_MS: u64 = 0x2710;
/// `nwkcMaxBroadcastJitter`, milliseconds.
pub const MAX_BROADCAST_JITTER_MS: u64 = 0x40;
/// `nwkcInitialRREQRetries`.
pub const INITIAL_RREQ_RETRIES: u8 = 3;
/// `nwkcRREQRetries`.
pub const RREQ_RETRIES: u8 = 2;
/// `nwkcRREQRetryInterval`, milliseconds.
pub const RREQ_RETRY_INTERVAL_MS: u64 = 0xFE;
/// `nwkcMinRREQJitter`, milliseconds.
pub const MIN_RREQ_JITTER_MS: u64 = 2;
/// `nwkcMaxRREQJitter`, milliseconds.
pub const MAX_RREQ_JITTER_MS: u64 = 128;
/// `nwkcMACFrameOverhead`.
pub const MAC_FRAME_OVERHEAD: usize = 0x0B;
/// `nwkcMaxDepth`.
pub const MAX_DEPTH: u8 = 15;
/// `nwkcUnicastRetries`.
pub const UNICAST_RETRIES: u8 = 3;
/// `nwkcUnicastRetryDelay`, milliseconds.
pub const UNICAST_RETRY_DELAY_MS: u64 = 50;
/// `nwkcMinRouterBootstrapJitter`, milliseconds.
pub const MIN_ROUTER_BOOTSTRAP_JITTER_MS: u64 = 500;
/// `nwkcMaxRouterBootstrapJitter`, milliseconds.
pub const MAX_ROUTER_BOOTSTRAP_JITTER_MS: u64 = 1000;
/// `nwkcBroadcastDeliveryTime`, milliseconds.
pub const BROADCAST_DELIVERY_TIME_MS: u64 = 9000;
/// Default radius for transmissions: `2 * nwkcMaxDepth`.
pub const DEFAULT_RADIUS: u8 = 30;
/// `apsSecurityTimeOutPeriod` default, milliseconds, used for the neighbor
/// table security timer.
pub const SECURITY_TIMEOUT_MS: u64 = 10_000;

} // verus!
