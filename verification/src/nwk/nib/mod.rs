//! NWK constants and the scalar attributes of the network information
//! base. Table attributes (neighbor, discovery, broadcast, address map)
//! live in their own modules.
use vstd::prelude::*;

use crate::nwk::command::{ParentInformation, TimeoutIndex, TIMEOUT_INDEX_DEFAULT};
use crate::types::{
    Channel, ChannelPage, Duration, ExtendedAddress, LogicalDeviceType, MacCapability, PanId, ShortAddress,
    CAPABILITY_END_DEVICE_RX_ON, CAPABILITY_ROUTER, COORDINATOR_RAW, NO_SHORT_ADDRESS_RAW, PAN_BROADCAST_RAW,
};

pub mod constants;

verus! {

/// Security level of frame protection: encryption and MIC length.
#[derive(Clone, Copy, PartialEq, Eq, Debug, Structural)]
pub enum SecurityLevel {
    /// No protection.
    NoSecurity,
    /// 32-bit MIC, no encryption.
    Mic32,
    /// 64-bit MIC, no encryption.
    Mic64,
    /// 128-bit MIC, no encryption.
    Mic128,
    /// Encryption without MIC.
    Enc,
    /// Encryption with a 32-bit MIC (the Zigbee level).
    EncMic32,
    /// Encryption with a 64-bit MIC.
    EncMic64,
    /// Encryption with a 128-bit MIC.
    EncMic128,
}

/// The first channel of the 2.4 GHz band, used before joining.
pub const DEFAULT_2_4GHZ_CHANNEL: u8 = 11;

/// Network information base attributes that the NWK layer owns.
#[derive(Clone, Debug)]
pub struct Nib {
    /// `nwkSequenceNumber`.
    pub sequence_number: u8,
    /// `nwkPassiveAckTimeout`.
    pub passive_ack_timeout: Duration,
    /// `nwkMaxBroadcastRetries`.
    pub max_broadcast_retries: u8,
    /// `nwkMaxChildren`.
    pub max_children: u8,
    /// `nwkMaxRouters`: router children accepted.
    pub max_routers: u8,
    /// `nwkNetworkBroadcastDeliveryTime`.
    pub network_broadcast_delivery_time: Duration,
    /// `nwkCapabilityInformation`.
    pub capability_information: MacCapability,
    /// `nwkManagerAddr`.
    pub manager_addr: ShortAddress,
    /// `nwkMaxSourceRoute`.
    pub max_source_route: u8,
    /// `nwkUpdateId`.
    pub update_id: u8,
    /// `nwkNetworkAddress` (no address when not joined).
    pub network_address: ShortAddress,
    /// `nwkStackProfile`.
    pub stack_profile: u8,
    /// `nwkExtendedPANId` (0 when not joined).
    pub extended_pan_id: ExtendedAddress,
    /// `nwkPANId` (0xFFFF when not joined).
    pub pan_id: PanId,
    /// Current channel page.
    pub channel_page: ChannelPage,
    /// Current channel.
    pub channel: Channel,
    /// `nwkIsConcentrator`.
    pub is_concentrator: bool,
    /// `nwkConcentratorRadius`.
    pub concentrator_radius: u8,
    /// `nwkConcentratorDiscoveryTime` in seconds (0 = never).
    pub concentrator_discovery_time_secs: u32,
    /// `nwkSecurityLevel`.
    pub security_level: SecurityLevel,
    /// `nwkAllFresh`.
    pub all_fresh: bool,
    /// `nwkLinkStatusPeriod`.
    pub link_status_period: Duration,
    /// `nwkRouterAgeLimit`.
    pub router_age_limit: u8,
    /// `nwkLeaveRequestAllowed`.
    pub leave_request_allowed: bool,
    /// `nwkLeaveRequestWithoutRejoinAllowed`.
    pub leave_request_without_rejoin_allowed: bool,
    /// `nwkParentInformation`.
    pub parent_information: ParentInformation,
    /// `nwkEndDeviceTimeoutDefault`.
    pub end_device_timeout_default: TimeoutIndex,
    /// `nwkEndDeviceTimeout`: the value this end device negotiates.
    pub end_device_timeout: TimeoutIndex,
    /// `nwkIeeeAddress`.
    pub ieee_address: ExtendedAddress,
    /// `nwkGoodParentLQA`.
    pub good_parent_lqa: u8,
    /// `nwkMaxInitialJoinParentAttempts`.
    pub max_initial_join_parent_attempts: u8,
    /// `nwkMaxRejoinParentAttempts`.
    pub max_rejoin_parent_attempts: u8,
    /// `nwkHubConnectivity`.
    pub hub_connectivity: bool,
    /// `nwkPreferredParent`.
    pub preferred_parent: bool,
    /// `nwkNextPanId` (0xFFFF = none).
    pub next_pan_id: PanId,
    /// `nwkPanIdConflictCount`.
    pub pan_id_conflict_count: u16,
    /// `nwkRoutingSequenceNumber`.
    pub routing_sequence_number: u16,
    /// `nwkTxTotal`.
    pub tx_total: u16,
    /// Logical device type of this node.
    pub device_type: LogicalDeviceType,
    /// The node is joined and authenticated on a network.
    pub joined: bool,
    /// The node holds the network key.
    pub authenticated: bool,
    /// The device has started as a router.
    pub router_started: bool,
    /// `macRxOnWhenIdle` as configured for this node.
    pub rx_on_when_idle: bool,
    /// This node's parent short address (end devices).
    pub parent_address: ShortAddress,
    /// Parent extended address (end devices).
    pub parent_ieee: ExtendedAddress,
    /// Depth in the tree (informational).
    pub depth: u8,
}

impl Nib {
    /// Default NIB for a device of `device_type` with `ieee_address`.
    pub fn new(device_type: LogicalDeviceType, ieee_address: ExtendedAddress) -> (n: Nib)
        ensures
            n.sequence_number == 0,
            n.passive_ack_timeout == Duration(500),
            n.max_broadcast_retries == 2,
            n.max_children == 16,
            n.max_routers == 16,
            n.network_broadcast_delivery_time == Duration(constants::BROADCAST_DELIVERY_TIME_MS),
            n.capability_information == MacCapability(
                if device_type is EndDevice { CAPABILITY_END_DEVICE_RX_ON } else { CAPABILITY_ROUTER },
            ),
            n.manager_addr == ShortAddress(COORDINATOR_RAW),
            n.max_source_route == 12,
            n.update_id == 0,
            n.network_address == ShortAddress(NO_SHORT_ADDRESS_RAW),
            n.stack_profile == 2,
            n.extended_pan_id == ExtendedAddress(0),
            n.pan_id == PanId(PAN_BROADCAST_RAW),
            n.channel_page == ChannelPage(0),
            n.channel == Channel(DEFAULT_2_4GHZ_CHANNEL),
            !n.is_concentrator,
            n.concentrator_radius == 0,
            n.concentrator_discovery_time_secs == 0,
            n.security_level == SecurityLevel::EncMic32,
            n.all_fresh,
            n.link_status_period == Duration(15_000),
            n.router_age_limit == 3,
            n.leave_request_allowed,
            n.leave_request_without_rejoin_allowed,
            n.parent_information == ParentInformation(0),
            n.end_device_timeout_default == TimeoutIndex(TIMEOUT_INDEX_DEFAULT),
            n.end_device_timeout == TimeoutIndex(TIMEOUT_INDEX_DEFAULT),
            n.ieee_address == ieee_address,
            n.good_parent_lqa == 75,
            n.max_initial_join_parent_attempts == 3,
            n.max_rejoin_parent_attempts == 3,
            !n.hub_connectivity,
            !n.preferred_parent,
            n.next_pan_id == PanId(PAN_BROADCAST_RAW),
            n.pan_id_conflict_count == 0,
            n.routing_sequence_number == 0,
            n.tx_total == 0,
            n.device_type == device_type,
            !n.joined,
            !n.authenticated,
            !n.router_started,
            n.rx_on_when_idle == !(device_type is EndDevice),
            n.parent_address == ShortAddress(NO_SHORT_ADDRESS_RAW),
            n.parent_ieee == ExtendedAddress(0),
            n.depth == 0,
    {
        let rx_on_when_idle = device_type.is_routing_capable();
        let capability = match device_type {
            LogicalDeviceType::Coordinator | LogicalDeviceType::Router => MacCapability(CAPABILITY_ROUTER),
            LogicalDeviceType::EndDevice => MacCapability(CAPABILITY_END_DEVICE_RX_ON),
        };
        Nib {
            sequence_number: 0,
            passive_ack_timeout: Duration::from_millis(500),
            max_broadcast_retries: 2,
            max_children: 16,
            max_routers: 16,
            network_broadcast_delivery_time: Duration::from_millis(constants::BROADCAST_DELIVERY_TIME_MS),
            capability_information: capability,
            manager_addr: ShortAddress(COORDINATOR_RAW),
            max_source_route: 12,
            update_id: 0,
            network_address: ShortAddress(NO_SHORT_ADDRESS_RAW),
            stack_profile: 2,
            extended_pan_id: ExtendedAddress(0),
            pan_id: PanId(PAN_BROADCAST_RAW),
            channel_page: ChannelPage(0),
            channel: Channel(DEFAULT_2_4GHZ_CHANNEL),
            is_concentrator: false,
            concentrator_radius: 0,
            concentrator_discovery_time_secs: 0,
            security_level: SecurityLevel::EncMic32,
            all_fresh: true,
            link_status_period: Duration::from_millis(15_000),
            router_age_limit: 3,
            leave_request_allowed: true,
            leave_request_without_rejoin_allowed: true,
            parent_information: ParentInformation(0),
            end_device_timeout_default: TimeoutIndex(TIMEOUT_INDEX_DEFAULT),
            end_device_timeout: TimeoutIndex(TIMEOUT_INDEX_DEFAULT),
            ieee_address,
            good_parent_lqa: 75,
            max_initial_join_parent_attempts: 3,
            max_rejoin_parent_attempts: 3,
            hub_connectivity: false,
            preferred_parent: false,
            next_pan_id: PanId(PAN_BROADCAST_RAW),
            pan_id_conflict_count: 0,
            routing_sequence_number: 0,
            tx_total: 0,
            device_type,
            joined: false,
            authenticated: false,
            router_started: false,
            rx_on_when_idle,
            parent_address: ShortAddress(NO_SHORT_ADDRESS_RAW),
            parent_ieee: ExtendedAddress(0),
            depth: 0,
        }
    }

    /// Takes a PAN identifier and a network address.
    pub fn set_network(&mut self, pan_id: PanId, network_address: ShortAddress)
        ensures
            *final(self) == (Nib { pan_id, network_address, ..*old(self) }),
    {
        self.pan_id = pan_id;
        self.network_address = network_address;
    }

    /// Next NWK sequence number: the current one, which then advances,
    /// wrapping.
    pub fn next_sequence(&mut self) -> (v: u8)
        ensures
            v == old(self).sequence_number,
            final(self).sequence_number == if v == 255 { 0 } else { (v + 1) as u8 },
            *final(self) == (Nib { sequence_number: final(self).sequence_number, ..*old(self) }),
    {
        let v = self.sequence_number;
        self.sequence_number = self.sequence_number.wrapping_add(1);
        v
    }

    /// Advances the routing sequence number, wrapping, and returns the new
    /// value.
    pub fn next_routing_sequence(&mut self) -> (v: u16)
        ensures
            v == if old(self).routing_sequence_number == 0xFFFF { 0 } else { (old(self).routing_sequence_number + 1) as u16 },
            *final(self) == (Nib { routing_sequence_number: v, ..*old(self) }),
    {
        self.routing_sequence_number = self.routing_sequence_number.wrapping_add(1);
        self.routing_sequence_number
    }

    /// True for coordinator and router.
    pub fn is_router_or_coordinator(&self) -> (b: bool)
        ensures
            b == !(self.device_type is EndDevice),
    {
        self.device_type.is_routing_capable()
    }

    /// True for the coordinator.
    pub fn is_coordinator(&self) -> (b: bool)
        ensures
            b == (self.device_type is Coordinator),
    {
        matches!(self.device_type, LogicalDeviceType::Coordinator)
    }

    /// True for end devices.
    pub fn is_end_device(&self) -> (b: bool)
        ensures
            b == (self.device_type is EndDevice),
    {
        matches!(self.device_type, LogicalDeviceType::EndDevice)
    }

    /// Clears the network identity on a leave without rejoin; the IEEE
    /// address, device type and configuration are kept.
    pub fn clear_for_leave(&mut self)
        ensures
            *final(self) == (Nib {
                manager_addr: ShortAddress(COORDINATOR_RAW),
                update_id: 0,
                network_address: ShortAddress(NO_SHORT_ADDRESS_RAW),
                extended_pan_id: ExtendedAddress(0),
                is_concentrator: false,
                concentrator_radius: 0,
                pan_id: PanId(PAN_BROADCAST_RAW),
                tx_total: 0,
                parent_information: ParentInformation(0),
                parent_address: ShortAddress(NO_SHORT_ADDRESS_RAW),
                parent_ieee: ExtendedAddress(0),
                joined: false,
                authenticated: false,
                router_started: false,
                depth: 0,
                ..*old(self)
            }),
    {
        self.manager_addr = ShortAddress(COORDINATOR_RAW);
        self.update_id = 0;
        self.network_address = ShortAddress(NO_SHORT_ADDRESS_RAW);
        self.extended_pan_id = ExtendedAddress(0);
        self.is_concentrator = false;
        self.concentrator_radius = 0;
        self.pan_id = PanId(PAN_BROADCAST_RAW);
        self.tx_total = 0;
        self.parent_information = ParentInformation(0);
        self.parent_address = ShortAddress(NO_SHORT_ADDRESS_RAW);
        self.parent_ieee = ExtendedAddress(0);
        self.joined = false;
        self.authenticated = false;
        self.router_started = false;
        self.depth = 0;
    }
}

} // verus!
