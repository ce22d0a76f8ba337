//! Types the network layer exchanges with its users: attach methods,
//! join parameters, configuration, requests and statistics.
use vstd::prelude::*;

use crate::types::{ExtendedAddress, MacCapability};

verus! {

/// Maximum NPDU size: MAC payload with short addressing on both sides.
pub const MAX_NPDU: usize = 116;

/// Discovery table size (`nwkDiscoveryTableSize` default 6).
pub const DISCOVERY_TABLE_SIZE: usize = 6;

/// Number of unicast frames that can wait for a route or retry.
pub const PENDING_TX: usize = 4;

/// Number of broadcast frames buffered for relay.
pub const BROADCAST_BUFFERS: usize = 2;

/// Number of route requests buffered for jittered retransmission.
pub const PENDING_RREQ: usize = 4;

/// Capacity of the action/event queues.
pub const QUEUE_CAPACITY: usize = 16;

/// Maximum joiner TLV bytes carried in a join indication.
pub const MAX_JOINER_TLVS: usize = 64;

/// How a child attached, which maps onto the APSME-UPDATE-DEVICE status.
#[derive(Clone, Copy, PartialEq, Eq, Hash, Debug, Structural)]
pub enum JoinMethod {
    /// MAC association (status 0x01).
    MacAssociation,
    /// Network rejoin without security (0x03, Trust Center rejoin).
    RejoinUnsecured,
    /// Secured network rejoin (0x00).
    RejoinSecured,
    /// Network commissioning initial join without security (0x01).
    CommissioningJoin,
    /// Network commissioning rejoin without security (0x03).
    CommissioningRejoinUnsecured,
    /// Secured network commissioning rejoin (0x00).
    CommissioningRejoinSecured,
}

impl JoinMethod {
    /// A secured (authenticated) attach.
    pub open spec fn spec_is_secured(self) -> bool {
        self is RejoinSecured || self is CommissioningRejoinSecured
    }

    /// APSME-UPDATE-DEVICE status value: 0x00 for secured rejoins, 0x01
    /// for initial joins, 0x03 for unsecured rejoins.
    pub fn update_device_status(self) -> (v: u8)
        ensures
            v == (match self {
                JoinMethod::MacAssociation | JoinMethod::CommissioningJoin => 0x01u8,
                JoinMethod::RejoinUnsecured | JoinMethod::CommissioningRejoinUnsecured => 0x03u8,
                JoinMethod::RejoinSecured | JoinMethod::CommissioningRejoinSecured => 0x00u8,
            }),
            v == 0x00 <==> self.spec_is_secured(),
    {
        match self {
            JoinMethod::MacAssociation | JoinMethod::CommissioningJoin => 0x01,
            JoinMethod::RejoinUnsecured | JoinMethod::CommissioningRejoinUnsecured => 0x03,
            JoinMethod::RejoinSecured | JoinMethod::CommissioningRejoinSecured => 0x00,
        }
    }

    /// True for secured (authenticated) attaches.
    pub fn is_secured(self) -> (b: bool)
        ensures
            b == self.spec_is_secured(),
    {
        match self {
            JoinMethod::RejoinSecured | JoinMethod::CommissioningRejoinSecured => true,
            _ => false,
        }
    }
}

/// NLME-JOIN.request parameters.
#[derive(Clone, Copy, Debug, PartialEq, Eq, Structural)]
pub struct JoinParams {
    /// Extended PAN ID to join; `None` lets any discovered network
    /// qualify.
    pub extended_pan_id: Option<ExtendedAddress>,
    /// Rejoin (true) or initial join (false).
    pub rejoin: bool,
    /// Join as a router.
    pub as_router: bool,
    /// Secure the rejoin request with the network key.
    pub secure: bool,
    /// Capability information.
    pub capability: MacCapability,
    /// Only consider parents that permit joining.
    pub require_permit: bool,
}

/// Identifier of a higher-layer data request, echoed in its confirm.
#[derive(Clone, Copy, PartialEq, Eq, Hash, Debug, Structural)]
pub struct TxId(pub u16);

/// Static configuration of the layer.
#[derive(Clone, Copy, Debug, PartialEq, Eq, Structural)]
pub struct NwkConfig {
    /// Enable NWK security.
    pub security_enabled: bool,
    /// Use passive acknowledgement for broadcasts.
    pub passive_ack: bool,
    /// Act as a concentrator and keep a source route table.
    pub concentrator: bool,
    /// Concentrator discovery period in seconds (0 = manual).
    pub concentrator_discovery_time_secs: u32,
    /// Radius for many-to-one route requests.
    pub concentrator_radius: u8,
    /// Advertise hub connectivity in the Router Information TLV.
    pub hub_connectivity: bool,
    /// Keepalive methods a router parent advertises (parent information
    /// bits); both by default.
    pub keepalive_methods: u8,
    /// Whether to include the beacon appendix.
    pub r23_beacon_appendix: bool,
}

impl Default for NwkConfig {
    fn default() -> (c: Self)
        ensures
            c == (NwkConfig {
                security_enabled: true,
                passive_ack: true,
                concentrator: false,
                concentrator_discovery_time_secs: 0,
                concentrator_radius: 0,
                hub_connectivity: false,
                keepalive_methods: 0x03,
                r23_beacon_appendix: true,
            }),
    {
        NwkConfig {
            security_enabled: true,
            passive_ack: true,
            concentrator: false,
            concentrator_discovery_time_secs: 0,
            concentrator_radius: 0,
            hub_connectivity: false,
            keepalive_methods: 0x03,
            r23_beacon_appendix: true,
        }
    }
}

/// Requests accepted by the layer; each also has a direct method.
#[derive(Clone, Copy, Debug, PartialEq, Eq, Structural)]
pub enum NwkRequest {
    /// Poll the parent for pending data.
    Poll,
}

/// Counters useful for diagnostics (never contain secrets).
#[derive(Clone, Copy, Debug, Default, PartialEq, Eq, Structural)]
pub struct NwkStats {
    /// Frames dropped as malformed.
    pub malformed: u32,
    /// Frames dropped by security processing.
    pub security_failures: u32,
    /// Frames dropped as replays (bad frame counter).
    pub replays: u32,
    /// Frames relayed.
    pub relayed: u32,
    /// Broadcasts relayed.
    pub broadcasts_relayed: u32,
    /// Route requests received.
    pub route_requests: u32,
    /// Unknown commands received.
    pub unknown_commands: u32,
    /// Frames dropped because no route existed.
    pub no_route: u32,
}

/// The next identifier after `v`: wrapping, and never 0.
pub open spec fn next_nonzero(v: u16) -> u16 {
    if v == 0xFFFF { 1 } else if v + 1 == 0 { 1 } else { (v + 1) as u16 }
}

/// Identifier allocation shared by data requests and MAC handles: hands
/// out `*next` and advances it, wrapping past 0xFFFF to 1 so that 0 is
/// never handed out again.
pub fn alloc_id(next: &mut u16) -> (v: u16)
    ensures
        v == *old(next),
        *final(next) == next_nonzero(*old(next)),
        *final(next) != 0,
{
    let v = *next;
    let n = next.wrapping_add(1);
    *next = if n < 1 { 1 } else { n };
    v
}

} // verus!
