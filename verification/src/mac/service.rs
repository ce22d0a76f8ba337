//! Sans-I/O MAC service.
//!
//! [`MacService`] implements the MLME/MCPS behaviour Zigbee relies on
//! (IEEE 802.15.4-2015 §6, restricted per R23.2 Annex D): acknowledged
//! data transmission with `macMaxFrameRetries` retries (software ack-wait
//! when the radio has none), indirect transmission to sleepy children,
//! MLME-POLL, MLME-ASSOCIATE on both sides, active and energy scans,
//! MLME-START and beacon transmission, software address filtering and
//! acknowledgement generation.
//!
//! The service never touches hardware. The driver feeds it received
//! frames ([`MacService::on_receive`]), transmission completions
//! ([`MacService::on_tx_complete`]), energy results and time
//! ([`MacService::poll_timers`]); it drains [`MacAction`]s to execute on
//! the radio and [`MacEvent`]s to deliver upward.
//!
//! Every operation is specified over [`MacServiceView`]: its `ensures`
//! gives the state after the call as a function of the state before it.
use vstd::prelude::*;

use crate::codec::push_bytes;
use crate::mac::constants::{
    response_wait_time, scan_duration_per_channel, scan_symbols_per_channel, spec_scan_symbols, spec_symbols_to_ms,
    transaction_persistence_time, BASE_SUPERFRAME_DURATION_SYMBOLS, MAX_FRAME_RETRIES, MAX_MAC_FRAME_SIZE,
};
use crate::mac::frame::{
    AddressMode, Beacon, Frame, FrameControl, FrameType, FrameVersion, Header, HeaderView, MacAddress,
    MacCommand, MacCommandView, SuperframeSpec, spec_with_bit, FC_ACK_REQUEST,
};
use crate::mac::ie::{EnhancedBeacon, EnhancedBeaconRequest, HEADER_TERMINATION_1};
use crate::mac::power::{spec_tx_power_for, PowerControlTable, PowerEntry, PowerLimits};
use crate::mac::radio::{RadioCapabilities, RadioConfig, RadioError, RxMetadata, TxOptions, TxResult};
use crate::types::{
    Channel, ChannelMask, ChannelPage, Duration, ExtendedAddress, Instant, MacCapability, MacStatus, PanId,
    ShortAddress, bit_set, BROADCAST_ALL_RAW, NO_SHORT_ADDRESS_RAW, PAN_BROADCAST_RAW,
};

verus! {

/// A buffer holding one MAC frame (at most [`MAX_MAC_FRAME_SIZE`] octets).
pub type FrameBuf = Vec<u8>;

/// Maximum beacon payload Zigbee places in a beacon (R23.2 §3.6.8 uses
/// 15 octets; room is left for beacon appendix TLVs).
pub const MAX_BEACON_PAYLOAD: usize = 52;

/// Number of outgoing frames that can be queued before backpressure.
pub const TX_QUEUE_CAPACITY: usize = 4;

/// Number of indirect (pending) frames for sleepy children.
pub const INDIRECT_CAPACITY: usize = 8;

/// Capacity of the action and event queues.
pub const QUEUE_CAPACITY: usize = 8;

/// Links in the Power Control Information Table (Annex D.11.2.3).
pub const POWER_ENTRIES: usize = 16;

/// Entries of `mibJoiningIeeeList` mirrored into the PIB (Table D-4).
pub const JOINING_LIST_CAPACITY: usize = 16;

/// Number of channel slots in the energy scan results.
pub const ENERGY_SLOTS: usize = 27;

/// `mibJoiningPolicy` (Table D-4): whether an Enhanced Beacon Request
/// with the EB Filter IE is answered (D.11.1.2).
#[derive(Clone, Copy, PartialEq, Eq, Debug, Structural)]
pub enum JoiningPolicy {
    /// No Enhanced Beacon for joining devices.
    NoJoin,
    /// Every joining device gets an Enhanced Beacon.
    AllJoin,
    /// Only devices on `mibJoiningIeeeList` do.
    IeeeListJoin,
}

impl Default for JoiningPolicy {
    fn default() -> (p: Self)
        ensures
            p == JoiningPolicy::AllJoin,
    {
        JoiningPolicy::AllJoin
    }
}

/// Opaque handle identifying a transmission request in its confirm.
#[derive(Clone, Copy, PartialEq, Eq, Hash, Debug, Structural)]
pub struct TxHandle(pub u16);

/// Errors returned by service requests.
#[derive(Clone, Copy, PartialEq, Eq, Debug, Structural)]
pub enum MacError {
    /// The payload does not fit in a MAC frame with the required header.
    FrameTooLong,
    /// The outgoing queue is full; retry after draining actions.
    QueueFull,
    /// The indirect transaction table is full (`TRANSACTION_OVERFLOW`).
    TransactionOverflow,
    /// Another scan or association is already in progress.
    Busy,
    /// The request is invalid in the current state (e.g. poll without a
    /// coordinator address).
    InvalidRequest,
    /// Internal encoding failure.
    Codec,
}

/// Static configuration.
#[derive(Clone, Copy, Debug)]
pub struct MacServiceConfig {
    /// Radio capabilities that determine which MAC functions run in
    /// software.
    pub radio: RadioCapabilities,
    /// `macMaxFrameRetries`.
    pub max_frame_retries: u8,
    /// Software acknowledgement wait time (padded above
    /// `macAckWaitDuration` to absorb driver latency).
    pub ack_wait: Duration,
    /// `macResponseWaitTime`.
    pub response_wait: Duration,
    /// `macTransactionPersistenceTime`.
    pub transaction_persistence: Duration,
    /// Extra time an end device keeps listening after a data-request ack
    /// with frame pending, waiting for the indirect frame.
    pub poll_wait: Duration,
    /// Transmit power limits for power control (Annex D.11.2.4.4).
    pub power_limits: PowerLimits,
    /// Answer Enhanced Beacon Requests with Enhanced Beacons (Annex
    /// D.11.1; optional at 2.4 GHz). Enhanced Beacons are always
    /// understood on reception.
    pub enhanced_beacons: bool,
}

impl Default for MacServiceConfig {
    fn default() -> (c: Self)
        ensures
            c.radio == (RadioCapabilities {
                auto_ack: false,
                ack_wait: false,
                retries: false,
                address_filter: false,
                pending_bit: false,
                timestamps: false,
                promiscuous: false,
            }),
            c.max_frame_retries == MAX_FRAME_RETRIES,
            c.ack_wait == Duration(5),
            c.response_wait == Duration(492),
            c.transaction_persistence == Duration(7680),
            c.poll_wait == Duration(100),
            c.power_limits == (PowerLimits { min_dbm: -20i8, max_dbm: 8i8 }),
            !c.enhanced_beacons,
    {
        MacServiceConfig {
            radio: RadioCapabilities {
                auto_ack: false,
                ack_wait: false,
                retries: false,
                address_filter: false,
                pending_bit: false,
                timestamps: false,
                promiscuous: false,
            },
            max_frame_retries: MAX_FRAME_RETRIES,
            ack_wait: Duration::from_millis(5),
            response_wait: response_wait_time(),
            transaction_persistence: transaction_persistence_time(),
            poll_wait: Duration::from_millis(100),
            power_limits: PowerLimits::default(),
            enhanced_beacons: false,
        }
    }
}

/// An action the driver must perform on the radio.
#[derive(Clone, Debug, PartialEq, Eq)]
pub enum MacAction {
    /// Transmit a frame; call [`MacService::on_tx_complete`] afterwards.
    Transmit {
        /// Handle to report completion with.
        handle: TxHandle,
        /// Encoded frame without FCS.
        frame: FrameBuf,
        /// Transmission options.
        options: TxOptions,
    },
    /// Change channel.
    SetChannel {
        /// Channel page.
        page: ChannelPage,
        /// Channel.
        channel: Channel,
    },
    /// Apply a new radio configuration.
    Configure(RadioConfig),
    /// Update the hardware pending-address list.
    SetPending {
        /// Short addresses with pending frames.
        short: Vec<ShortAddress>,
        /// Extended addresses with pending frames.
        extended: Vec<ExtendedAddress>,
    },
    /// Perform energy detection on the current channel and report via
    /// [`MacService::on_energy_result`].
    EnergyDetect {
        /// Measurement duration in symbols.
        duration_symbols: u32,
    },
}

/// The mathematical content of a [`MacAction`].
pub enum MacActionView {
    /// Transmit a frame.
    Transmit { handle: TxHandle, frame: Seq<u8>, options: TxOptions },
    /// Change channel.
    SetChannel { page: ChannelPage, channel: Channel },
    /// Apply a radio configuration.
    Configure(RadioConfig),
    /// Update the pending-address list.
    SetPending { short: Seq<ShortAddress>, extended: Seq<ExtendedAddress> },
    /// Energy detection.
    EnergyDetect { duration_symbols: u32 },
}

impl View for MacAction {
    type V = MacActionView;

    open spec fn view(&self) -> MacActionView {
        match self {
            MacAction::Transmit { handle, frame, options } => MacActionView::Transmit {
                handle: *handle,
                frame: frame@,
                options: *options,
            },
            MacAction::SetChannel { page, channel } => MacActionView::SetChannel { page: *page, channel: *channel },
            MacAction::Configure(c) => MacActionView::Configure(*c),
            MacAction::SetPending { short, extended } => MacActionView::SetPending {
                short: short@,
                extended: extended@,
            },
            MacAction::EnergyDetect { duration_symbols } => MacActionView::EnergyDetect {
                duration_symbols: *duration_symbols,
            },
        }
    }
}

/// Scan type.
#[derive(Clone, Copy, PartialEq, Eq, Debug, Structural)]
pub enum ScanKind {
    /// Active scan: beacon request then collect beacons.
    Active,
    /// Energy detection scan.
    Energy,
}

/// Status of a completed data transmission.
#[derive(Clone, Copy, PartialEq, Eq, Debug, Structural)]
pub enum TxStatus {
    /// Transmitted (and acknowledged when requested).
    Success,
    /// No acknowledgement after all retries.
    NoAck,
    /// Channel access failure after all retries.
    ChannelAccessFailure,
    /// Indirect transaction expired before the child polled.
    TransactionExpired,
    /// The radio reported a fault.
    RadioError,
}

/// An event for the layer above the MAC.
#[derive(Clone, Copy, PartialEq, Eq, Debug, Structural)]
#[allow(inconsistent_fields)]
pub enum MacEvent {
    /// A child polled and a deferred indirect transaction
    /// ([`MacService::data_request_deferred`]) is due: the caller hands
    /// the frame over now with [`MacService::data_request`] (direct).
    IndirectReady {
        /// The deferred transaction.
        handle: TxHandle,
    },
    /// A Data Request (poll) command was received from a child.
    PollIndication {
        /// The polling device.
        device: MacAddress,
    },
    /// Completion of a data request.
    DataConfirm {
        /// The handle returned by [`MacService::data_request`].
        handle: TxHandle,
        /// Outcome.
        status: TxStatus,
        /// Whether the acknowledgement had the frame-pending bit set.
        frame_pending: bool,
    },
    /// A scan finished; energy levels are read with
    /// [`MacService::energy_results`].
    ScanConfirm {
        /// Which scan.
        kind: ScanKind,
        /// Channels that were scanned.
        channels: ChannelMask,
    },
    /// A device asked to associate; answer with
    /// [`MacService::associate_response`].
    AssociateIndication {
        /// Joiner extended address.
        device: ExtendedAddress,
        /// Joiner capability information.
        capability: MacCapability,
        /// Link quality of the request.
        lqi: u8,
    },
    /// Outcome of an association request.
    AssociateConfirm {
        /// Allocated short address (`0xFFFE` on failure).
        short_address: ShortAddress,
        /// Association status.
        status: MacStatus,
    },
    /// The indirect association response was delivered (or expired).
    CommStatus {
        /// The joiner the response was for.
        device: ExtendedAddress,
        /// Delivery outcome.
        status: TxStatus,
    },
    /// Outcome of a poll.
    PollConfirm {
        /// True when the parent acknowledged with frame pending.
        frame_pending: bool,
        /// Outcome of the data request transmission.
        status: TxStatus,
    },
    /// A PAN ID conflict was observed (NWK handles resolution).
    PanIdConflict {
        /// The conflicting PAN identifier.
        pan_id: PanId,
    },
}

/// A received frame that the upper layer must handle, borrowed from the
/// driver's receive buffer.
#[derive(Clone, Copy, Debug)]
pub enum RxDisposition<'a> {
    /// Fully handled inside the MAC (ack, command, filtered, malformed).
    Handled,
    /// A data frame for this device.
    Data {
        /// Parsed frame; `payload` is the MSDU.
        frame: Frame<'a>,
        /// Reception metadata.
        meta: RxMetadata,
    },
    /// A beacon (during an active scan or spontaneously).
    Beacon {
        /// MAC header.
        header: Header<'a>,
        /// Parsed beacon body.
        beacon: Beacon<'a>,
        /// Reception metadata.
        meta: RxMetadata,
    },
    /// A frame that passed filtering but is neither data nor beacon and
    /// not consumed by the MAC (e.g. an unknown command).
    Other {
        /// Parsed frame.
        frame: Frame<'a>,
        /// Reception metadata.
        meta: RxMetadata,
    },
}

/// A request from the upper layer, for drivers that forward requests
/// over a channel.
#[derive(Clone, Debug)]
pub enum MacRequest {
    /// Poll the parent.
    Poll,
    /// Enable or disable association permit.
    SetAssociationPermit(bool),
}

/// What a transmission is for, which decides its confirm.
#[derive(Clone, Copy, PartialEq, Eq, Debug, Structural)]
pub enum InFlightKind {
    /// A data frame sent directly.
    Data { handle: TxHandle },
    /// A beacon.
    Beacon,
    /// A beacon request of an active scan.
    BeaconRequest,
    /// An association request.
    AssocRequest,
    /// The data request polling for the association response.
    AssocDataRequest,
    /// A poll of the parent.
    Poll,
    /// An indirect data frame served on a poll.
    IndirectData { handle: TxHandle },
    /// An indirect frame the caller builds only once the child polls.
    DeferredData { handle: TxHandle },
    /// An indirect association response.
    IndirectAssocResponse { device: ExtendedAddress },
}

/// The transmission handed to the radio and awaiting its outcome.
#[derive(Clone, Debug)]
pub struct InFlight {
    /// What it is for.
    pub kind: InFlightKind,
    /// The frame, kept for retransmission.
    pub frame: FrameBuf,
    /// Its sequence number.
    pub seq: u8,
    /// Whether it requests an acknowledgement.
    pub ack_request: bool,
    /// Negotiated transmit power for the link (D.11.2.3).
    pub tx_power_dbm: Option<i8>,
    /// Retransmissions left.
    pub retries_left: u8,
    /// The radio was asked to transmit and completion is awaited.
    pub awaiting_tx: bool,
    /// Deadline for a software acknowledgement.
    pub ack_deadline: Option<Instant>,
}

/// The mathematical content of an [`InFlight`].
pub struct InFlightView {
    pub kind: InFlightKind,
    pub frame: Seq<u8>,
    pub seq: u8,
    pub ack_request: bool,
    pub tx_power_dbm: Option<i8>,
    pub retries_left: u8,
    pub awaiting_tx: bool,
    pub ack_deadline: Option<Instant>,
}

impl View for InFlight {
    type V = InFlightView;

    open spec fn view(&self) -> InFlightView {
        InFlightView {
            kind: self.kind,
            frame: self.frame@,
            seq: self.seq,
            ack_request: self.ack_request,
            tx_power_dbm: self.tx_power_dbm,
            retries_left: self.retries_left,
            awaiting_tx: self.awaiting_tx,
            ack_deadline: self.ack_deadline,
        }
    }
}

/// A frame waiting in the transmit queue.
#[derive(Clone, Debug)]
pub struct QueuedTx {
    /// What it is for.
    pub kind: InFlightKind,
    /// The encoded frame.
    pub frame: FrameBuf,
    /// Its sequence number.
    pub seq: u8,
    /// Whether it requests an acknowledgement.
    pub ack_request: bool,
    /// Transmission options.
    pub options: TxOptions,
}

/// The mathematical content of a [`QueuedTx`].
pub struct QueuedTxView {
    pub kind: InFlightKind,
    pub frame: Seq<u8>,
    pub seq: u8,
    pub ack_request: bool,
    pub options: TxOptions,
}

impl View for QueuedTx {
    type V = QueuedTxView;

    open spec fn view(&self) -> QueuedTxView {
        QueuedTxView {
            kind: self.kind,
            frame: self.frame@,
            seq: self.seq,
            ack_request: self.ack_request,
            options: self.options,
        }
    }
}

/// A frame held for a sleepy child until it polls.
#[derive(Clone, Debug)]
pub struct IndirectEntry {
    /// The child.
    pub dst: MacAddress,
    /// What it is for.
    pub kind: InFlightKind,
    /// The encoded frame (empty for a deferred transaction).
    pub frame: FrameBuf,
    /// Its sequence number.
    pub seq: u8,
    /// When the transaction expires.
    pub expires: Instant,
}

/// The mathematical content of an [`IndirectEntry`].
pub struct IndirectView {
    pub dst: MacAddress,
    pub kind: InFlightKind,
    pub frame: Seq<u8>,
    pub seq: u8,
    pub expires: Instant,
}

impl View for IndirectEntry {
    type V = IndirectView;

    open spec fn view(&self) -> IndirectView {
        IndirectView {
            dst: self.dst,
            kind: self.kind,
            frame: self.frame@,
            seq: self.seq,
            expires: self.expires,
        }
    }
}

/// A running scan.
#[derive(Clone, Copy, Debug)]
pub struct ScanState {
    /// Scan type.
    pub kind: ScanKind,
    /// Channels to scan.
    pub channels: ChannelMask,
    /// The channel being scanned.
    pub current: Option<Channel>,
    /// End of the dwell on the current channel.
    pub dwell_end: Instant,
    /// Dwell per channel.
    pub dwell: Duration,
    /// Energy measurement duration in symbols.
    pub duration_symbols: u32,
    /// Channel page and channel to restore afterwards.
    pub restore: (ChannelPage, Channel),
    /// Send Enhanced Beacon Requests with this content instead of Beacon
    /// Requests (Annex D.11.1).
    pub enhanced: Option<EnhancedBeaconRequest>,
}

/// Where a joiner's association stands.
#[derive(Clone, Copy, Debug)]
pub enum AssocPhase {
    /// Association request queued or in flight.
    Requesting,
    /// Waiting `macResponseWaitTime` before polling for the response.
    WaitingResponseTime { at: Instant },
    /// Data request sent; waiting for the association response frame.
    Polling { deadline: Instant },
}

/// A joiner's association in progress.
#[derive(Clone, Copy, Debug)]
pub struct AssocState {
    /// The coordinator asked.
    pub coordinator: MacAddress,
    /// Its PAN.
    pub pan_id: PanId,
    /// Where it stands.
    pub phase: AssocPhase,
}

/// MAC PAN information base subset used by Zigbee.
#[derive(Clone, Debug)]
pub struct Pib {
    /// `macPANId`.
    pub pan_id: PanId,
    /// `macShortAddress`.
    pub short_address: ShortAddress,
    /// `macExtendedAddress`.
    pub extended_address: ExtendedAddress,
    /// `macCoordShortAddress` (the parent for end devices).
    pub coord_short_address: ShortAddress,
    /// `macCoordExtendedAddress`.
    pub coord_extended_address: ExtendedAddress,
    /// True when this device is the PAN coordinator.
    pub pan_coordinator: bool,
    /// True for routers and the coordinator (respond to beacon requests).
    pub beacon_capable: bool,
    /// `macAssociationPermit`.
    pub association_permit: bool,
    /// `macRxOnWhenIdle`.
    pub rx_on_when_idle: bool,
    /// Current channel page.
    pub page: ChannelPage,
    /// Current channel.
    pub channel: Channel,
    /// `macBeaconPayload`.
    pub beacon_payload: Vec<u8>,
    /// `macDSN`.
    pub dsn: u8,
    /// `macBSN`.
    pub bsn: u8,
    /// `mibJoiningPolicy` (Table D-4), mirrored from the network layer.
    pub joining_policy: JoiningPolicy,
    /// `mibJoiningIeeeList`.
    pub joining_ieee_list: Vec<ExtendedAddress>,
}

/// The mathematical content of a [`Pib`].
pub struct PibView {
    pub pan_id: PanId,
    pub short_address: ShortAddress,
    pub extended_address: ExtendedAddress,
    pub coord_short_address: ShortAddress,
    pub coord_extended_address: ExtendedAddress,
    pub pan_coordinator: bool,
    pub beacon_capable: bool,
    pub association_permit: bool,
    pub rx_on_when_idle: bool,
    pub page: ChannelPage,
    pub channel: Channel,
    pub beacon_payload: Seq<u8>,
    pub dsn: u8,
    pub bsn: u8,
    pub joining_policy: JoiningPolicy,
    pub joining_ieee_list: Seq<ExtendedAddress>,
}

impl View for Pib {
    type V = PibView;

    open spec fn view(&self) -> PibView {
        PibView {
            pan_id: self.pan_id,
            short_address: self.short_address,
            extended_address: self.extended_address,
            coord_short_address: self.coord_short_address,
            coord_extended_address: self.coord_extended_address,
            pan_coordinator: self.pan_coordinator,
            beacon_capable: self.beacon_capable,
            association_permit: self.association_permit,
            rx_on_when_idle: self.rx_on_when_idle,
            page: self.page,
            channel: self.channel,
            beacon_payload: self.beacon_payload@,
            dsn: self.dsn,
            bsn: self.bsn,
            joining_policy: self.joining_policy,
            joining_ieee_list: self.joining_ieee_list@,
        }
    }
}

/// The PIB after MLME-RESET, for a device with `extended_address`.
pub open spec fn default_pib(extended_address: ExtendedAddress) -> PibView {
    PibView {
        pan_id: PanId(PAN_BROADCAST_RAW),
        short_address: ShortAddress(NO_SHORT_ADDRESS_RAW),
        extended_address,
        coord_short_address: ShortAddress(NO_SHORT_ADDRESS_RAW),
        coord_extended_address: ExtendedAddress(0),
        pan_coordinator: false,
        beacon_capable: false,
        association_permit: false,
        rx_on_when_idle: true,
        page: ChannelPage(0),
        channel: Channel(11),
        beacon_payload: Seq::empty(),
        dsn: 0,
        bsn: 0,
        joining_policy: JoiningPolicy::AllJoin,
        joining_ieee_list: Seq::empty(),
    }
}

impl Default for Pib {
    fn default() -> (p: Self)
        ensures
            p@ == default_pib(ExtendedAddress(0)),
    {
        Pib {
            pan_id: PanId(PAN_BROADCAST_RAW),
            short_address: ShortAddress(NO_SHORT_ADDRESS_RAW),
            extended_address: ExtendedAddress(0),
            coord_short_address: ShortAddress(NO_SHORT_ADDRESS_RAW),
            coord_extended_address: ExtendedAddress(0),
            pan_coordinator: false,
            beacon_capable: false,
            association_permit: false,
            rx_on_when_idle: true,
            page: ChannelPage(0),
            channel: Channel(11),
            beacon_payload: Vec::new(),
            dsn: 0,
            bsn: 0,
            joining_policy: JoiningPolicy::AllJoin,
            joining_ieee_list: Vec::new(),
        }
    }
}

/// The MAC service state machine.
pub struct MacService {
    config: MacServiceConfig,
    /// PAN information base.
    pub pib: Pib,
    in_flight: Option<InFlight>,
    tx_queue: Vec<QueuedTx>,
    indirect: Vec<IndirectEntry>,
    actions: Vec<MacAction>,
    events: Vec<MacEvent>,
    scan: Option<ScanState>,
    assoc: Option<AssocState>,
    energy: Vec<u8>,
    next_handle: u16,
    poll_wait_until: Option<Instant>,
    config_dirty: bool,
    now: Instant,
    power: PowerControlTable<POWER_ENTRIES>,
}

/// The mathematical content of a [`MacService`].
pub struct MacServiceView {
    /// Static configuration.
    pub config: MacServiceConfig,
    /// PAN information base.
    pub pib: PibView,
    /// The transmission awaiting its outcome.
    pub in_flight: Option<InFlightView>,
    /// Frames waiting to be transmitted, oldest first.
    pub tx_queue: Seq<QueuedTxView>,
    /// Frames held for sleepy children, in arrival order.
    pub indirect: Seq<IndirectView>,
    /// Radio actions to drain, oldest first.
    pub actions: Seq<MacActionView>,
    /// Events to drain, oldest first.
    pub events: Seq<MacEvent>,
    /// The running scan.
    pub scan: Option<ScanState>,
    /// The association in progress.
    pub assoc: Option<AssocState>,
    /// Energy levels of the last energy scan, by channel.
    pub energy: Seq<u8>,
    /// The next transmission handle.
    pub next_handle: u16,
    /// End of the listening window after a poll with frame pending.
    pub poll_wait_until: Option<Instant>,
    /// The radio configuration must be re-applied.
    pub config_dirty: bool,
    /// The current time.
    pub now: Instant,
    /// The Power Control Information Table.
    pub power: Seq<PowerEntry>,
    /// Its limits.
    pub power_limits: PowerLimits,
}

/// `s` with `x` appended, dropping the oldest element when `s` already
/// holds [`QUEUE_CAPACITY`] elements.
pub open spec fn push_capped<T>(s: Seq<T>, x: T) -> Seq<T> {
    if s.len() >= QUEUE_CAPACITY {
        s.drop_first().push(x)
    } else {
        s.push(x)
    }
}

/// `t + d`, saturating.
pub open spec fn after(t: Instant, d: Duration) -> Instant {
    Instant(if t.0 + d.0 <= u64::MAX { (t.0 + d.0) as u64 } else { u64::MAX })
}

/// `Some` of the earlier of `i` and the instant in `acc`.
pub open spec fn consider(acc: Option<Instant>, i: Instant) -> Option<Instant> {
    match acc {
        None => Some(i),
        Some(n) => if i.0 < n.0 {
            Some(i)
        } else {
            Some(n)
        },
    }
}

/// [`consider`] each expiry of `s`, in order.
pub open spec fn consider_expiries(acc: Option<Instant>, s: Seq<IndirectView>) -> Option<Instant>
    decreases s.len(),
{
    if s.len() == 0 {
        acc
    } else {
        consider_expiries(consider(acc, s[0].expires), s.drop_first())
    }
}

/// The handle after `h` (handles skip zero).
pub open spec fn handle_after(h: u16) -> u16 {
    if h == 0xFFFF {
        1
    } else {
        (h + 1) as u16
    }
}

/// `v + 1` wrapping.
pub open spec fn wrap_inc(v: u8) -> u8 {
    if v == 0xFF {
        0
    } else {
        (v + 1) as u8
    }
}

impl MacServiceView {
    /// The queue bounds and the shape of the state.
    pub open spec fn inv(self) -> bool {
        &&& self.tx_queue.len() <= TX_QUEUE_CAPACITY
        &&& self.indirect.len() <= INDIRECT_CAPACITY
        &&& self.actions.len() <= QUEUE_CAPACITY
        &&& self.events.len() <= QUEUE_CAPACITY
        &&& self.energy.len() == ENERGY_SLOTS
        &&& self.next_handle != 0
        &&& self.power.len() <= POWER_ENTRIES
    }

    /// With `a` queued for the driver.
    pub open spec fn with_action(self, a: MacActionView) -> MacServiceView {
        MacServiceView { actions: push_capped(self.actions, a), ..self }
    }

    /// With `e` queued for the upper layer.
    pub open spec fn with_event(self, e: MacEvent) -> MacServiceView {
        MacServiceView { events: push_capped(self.events, e), ..self }
    }

    /// The radio configuration the PIB calls for.
    pub open spec fn radio_config(self) -> RadioConfig {
        RadioConfig {
            pan_id: self.pib.pan_id,
            short_address: self.pib.short_address,
            extended_address: self.pib.extended_address,
            pan_coordinator: self.pib.pan_coordinator,
            rx_on_when_idle: self.pib.rx_on_when_idle,
            promiscuous: false,
        }
    }

    /// With a pending configuration change queued as an action.
    pub open spec fn flushed(self) -> MacServiceView {
        if self.config_dirty {
            MacServiceView { config_dirty: false, ..self }.with_action(MacActionView::Configure(self.radio_config()))
        } else {
            self
        }
    }

    /// The source address of this device: short when it has one.
    pub open spec fn own_address(self) -> MacAddress {
        if self.pib.short_address.0 == NO_SHORT_ADDRESS_RAW {
            MacAddress::Extended(self.pib.extended_address)
        } else {
            MacAddress::Short(self.pib.short_address)
        }
    }

    /// With `macDSN` advanced.
    pub open spec fn dsn_used(self) -> MacServiceView {
        MacServiceView { pib: PibView { dsn: wrap_inc(self.pib.dsn), ..self.pib }, ..self }
    }

    /// With `macBSN` advanced.
    pub open spec fn bsn_used(self) -> MacServiceView {
        MacServiceView { pib: PibView { bsn: wrap_inc(self.pib.bsn), ..self.pib }, ..self }
    }

    /// With a transmission handle taken.
    pub open spec fn handle_used(self) -> MacServiceView {
        MacServiceView { next_handle: handle_after(self.next_handle), ..self }
    }

    /// The earliest armed timer.
    pub open spec fn next_deadline(self) -> Option<Instant> {
        let a = match self.in_flight {
            Some(f) => match f.ack_deadline {
                Some(d) => consider(None, d),
                None => None,
            },
            None => None,
        };
        let b = consider_expiries(a, self.indirect);
        let c = match self.scan {
            Some(s) => if s.current is Some {
                consider(b, s.dwell_end)
            } else {
                b
            },
            None => b,
        };
        let d = match self.assoc {
            Some(a) => match a.phase {
                AssocPhase::WaitingResponseTime { at } => consider(c, at),
                AssocPhase::Polling { deadline } => consider(c, deadline),
                AssocPhase::Requesting => c,
            },
            None => c,
        };
        match self.poll_wait_until {
            Some(p) => consider(d, p),
            None => d,
        }
    }
}

impl View for MacService {
    type V = MacServiceView;

    closed spec fn view(&self) -> MacServiceView {
        MacServiceView {
            config: self.config,
            pib: self.pib@,
            in_flight: match self.in_flight {
                Some(f) => Some(f@),
                None => None,
            },
            tx_queue: self.tx_queue@.map_values(|q: QueuedTx| q@),
            indirect: self.indirect@.map_values(|e: IndirectEntry| e@),
            actions: self.actions@.map_values(|a: MacAction| a@),
            events: self.events@,
            scan: self.scan,
            assoc: self.assoc,
            energy: self.energy@,
            next_handle: self.next_handle,
            poll_wait_until: self.poll_wait_until,
            config_dirty: self.config_dirty,
            now: self.now,
            power: self.power@,
            power_limits: self.power.spec_limits(),
        }
    }
}

/// The view of an optional in-flight transmission.
pub open spec fn in_flight_view(f: Option<InFlight>) -> Option<InFlightView> {
    match f {
        Some(f) => Some(f@),
        None => None,
    }
}

impl MacService {
    /// The service's state is well formed.
    pub closed spec fn wf(&self) -> bool {
        &&& self@.inv()
        &&& self.power.wf()
    }

    /// Creates a service with the given configuration and extended
    /// address. Sequence numbers should be seeded with
    /// [`MacService::seed_sequence_numbers`].
    pub fn new(config: MacServiceConfig, extended_address: ExtendedAddress) -> (s: Self)
        ensures
            s.wf(),
            s@ == (MacServiceView {
                config,
                pib: default_pib(extended_address),
                in_flight: None,
                tx_queue: Seq::empty(),
                indirect: Seq::empty(),
                actions: Seq::empty(),
                events: Seq::empty(),
                scan: None,
                assoc: None,
                energy: Seq::new(ENERGY_SLOTS as nat, |i: int| 0u8),
                next_handle: 1,
                poll_wait_until: None,
                config_dirty: true,
                now: Instant(0),
                power: Seq::empty(),
                power_limits: config.power_limits,
            }),
    {
        let mut pib = Pib::default();
        pib.extended_address = extended_address;
        let s = MacService {
            config,
            pib,
            in_flight: None,
            tx_queue: Vec::new(),
            indirect: Vec::new(),
            actions: Vec::new(),
            events: Vec::new(),
            scan: None,
            assoc: None,
            energy: zero_energy(),
            next_handle: 1,
            poll_wait_until: None,
            config_dirty: true,
            now: Instant(0),
            power: PowerControlTable::new(config.power_limits),
        };
        assert(s@.tx_queue =~= Seq::<QueuedTxView>::empty());
        assert(s@.indirect =~= Seq::<IndirectView>::empty());
        assert(s@.actions =~= Seq::<MacActionView>::empty());
        s
    }

    /// Seeds `macDSN` and `macBSN` with random values (IEEE 802.15.4
    /// requires random initial sequence numbers).
    pub fn seed_sequence_numbers(&mut self, dsn: u8, bsn: u8)
        requires
            old(self).wf(),
        ensures
            final(self).wf(),
            final(self)@ == (MacServiceView { pib: PibView { dsn, bsn, ..old(self)@.pib }, ..old(self)@ }),
    {
        self.pib.dsn = dsn;
        self.pib.bsn = bsn;
    }

    /// The configuration in use.
    pub fn config(&self) -> (c: &MacServiceConfig)
        ensures
            *c == self@.config,
    {
        &self.config
    }

    /// Takes the next event for the upper layer.
    pub fn next_event(&mut self) -> (e: Option<MacEvent>)
        requires
            old(self).wf(),
        ensures
            final(self).wf(),
            old(self)@.events.len() == 0 ==> e is None && final(self)@ == old(self)@,
            old(self)@.events.len() > 0 ==> e == Some(old(self)@.events[0]) && final(self)@ == (MacServiceView {
                events: old(self)@.events.drop_first(),
                ..old(self)@
            }),
    {
        if self.events.len() == 0 {
            None
        } else {
            let e = self.events.remove(0);
            assert(self@.events =~= old(self)@.events.drop_first());
            Some(e)
        }
    }

    /// True when there are pending actions or events.
    pub fn has_output(&self) -> (b: bool)
        ensures
            b == (self@.actions.len() > 0 || self@.events.len() > 0 || self@.config_dirty),
    {
        self.actions.len() > 0 || self.events.len() > 0 || self.config_dirty
    }

    /// The earliest instant at which [`MacService::poll_timers`] must be
    /// called, if any timer is armed.
    pub fn next_deadline(&self) -> (d: Option<Instant>)
        ensures
            d == self@.next_deadline(),
    {
        let mut next: Option<Instant> = None;
        if let Some(f) = &self.in_flight {
            if let Some(d) = f.ack_deadline {
                next = consider_exec(next, d);
            }
        }
        let ghost a = next;
        assert(self@.indirect.skip(0) =~= self@.indirect);
        let mut i: usize = 0;
        while i < self.indirect.len()
            invariant
                i <= self.indirect@.len(),
                consider_expiries(a, self@.indirect) == consider_expiries(next, self@.indirect.skip(i as int)),
            decreases self.indirect@.len() - i,
        {
            proof {
                let s = self@.indirect.skip(i as int);
                assert(s.drop_first() =~= self@.indirect.skip(i + 1));
                assert(s[0] == self.indirect@[i as int]@);
            }
            next = consider_exec(next, self.indirect[i].expires);
            i = i + 1;
        }
        proof {
            assert(self@.indirect.skip(i as int) =~= Seq::<IndirectView>::empty());
        }
        if let Some(s) = &self.scan {
            if s.current.is_some() {
                next = consider_exec(next, s.dwell_end);
            }
        }
        if let Some(a) = &self.assoc {
            match a.phase {
                AssocPhase::WaitingResponseTime { at } => next = consider_exec(next, at),
                AssocPhase::Polling { deadline } => next = consider_exec(next, deadline),
                AssocPhase::Requesting => {},
            }
        }
        if let Some(p) = self.poll_wait_until {
            next = consider_exec(next, p);
        }
        next
    }

    fn push_event(&mut self, ev: MacEvent)
        requires
            old(self).wf(),
        ensures
            final(self).wf(),
            final(self)@ == old(self)@.with_event(ev),
    {
        if self.events.len() >= QUEUE_CAPACITY {
            let _ = self.events.remove(0);
        }
        self.events.push(ev);
        assert(self@.events =~= push_capped(old(self)@.events, ev));
    }

    fn push_action(&mut self, a: MacAction)
        requires
            old(self).wf(),
        ensures
            final(self).wf(),
            final(self)@ == old(self)@.with_action(a@),
    {
        let ghost s0 = old(self)@.actions;
        if self.actions.len() >= QUEUE_CAPACITY {
            let _ = self.actions.remove(0);
            assert(self@.actions =~= s0.drop_first());
        }
        self.actions.push(a);
        assert(self@.actions =~= push_capped(s0, a@));
    }

    fn radio_config(&self) -> (c: RadioConfig)
        ensures
            c == self@.radio_config(),
    {
        RadioConfig {
            pan_id: self.pib.pan_id,
            short_address: self.pib.short_address,
            extended_address: self.pib.extended_address,
            pan_coordinator: self.pib.pan_coordinator,
            rx_on_when_idle: self.pib.rx_on_when_idle,
            promiscuous: false,
        }
    }

    fn flush_config(&mut self)
        requires
            old(self).wf(),
        ensures
            final(self).wf(),
            final(self)@ == old(self)@.flushed(),
    {
        if self.config_dirty {
            self.config_dirty = false;
            let cfg = self.radio_config();
            self.push_action(MacAction::Configure(cfg));
        }
    }

    /// Starts operating on `pan_id` / `channel` (MLME-START).
    /// `coordinator` marks the PAN coordinator; `beacon_capable` makes
    /// the device answer beacon requests (routers and the coordinator).
    pub fn start(
        &mut self,
        pan_id: PanId,
        page: ChannelPage,
        channel: Channel,
        short_address: ShortAddress,
        coordinator: bool,
        beacon_capable: bool,
    )
        requires
            old(self).wf(),
        ensures
            final(self).wf(),
            final(self)@ == (MacServiceView {
                pib: PibView {
                    pan_id,
                    page,
                    channel,
                    short_address,
                    pan_coordinator: coordinator,
                    beacon_capable,
                    ..old(self)@.pib
                },
                config_dirty: true,
                ..old(self)@
            }).with_action(MacActionView::SetChannel { page, channel }),
    {
        self.pib.pan_id = pan_id;
        self.pib.page = page;
        self.pib.channel = channel;
        self.pib.short_address = short_address;
        self.pib.pan_coordinator = coordinator;
        self.pib.beacon_capable = beacon_capable;
        self.push_action(MacAction::SetChannel { page, channel });
        self.config_dirty = true;
    }

    /// Sets the local short address (after association).
    pub fn set_short_address(&mut self, addr: ShortAddress)
        requires
            old(self).wf(),
        ensures
            final(self).wf(),
            final(self)@ == (MacServiceView {
                pib: PibView { short_address: addr, ..old(self)@.pib },
                config_dirty: true,
                ..old(self)@
            }),
    {
        self.pib.short_address = addr;
        self.config_dirty = true;
    }

    /// Sets the PAN identifier (after association or PAN ID update).
    pub fn set_pan_id(&mut self, pan_id: PanId)
        requires
            old(self).wf(),
        ensures
            final(self).wf(),
            final(self)@ == (MacServiceView {
                pib: PibView { pan_id, ..old(self)@.pib },
                config_dirty: true,
                ..old(self)@
            }),
    {
        self.pib.pan_id = pan_id;
        self.config_dirty = true;
    }

    /// Changes channel (frequency agility).
    pub fn set_channel(&mut self, page: ChannelPage, channel: Channel)
        requires
            old(self).wf(),
        ensures
            final(self).wf(),
            final(self)@ == (MacServiceView { pib: PibView { page, channel, ..old(self)@.pib }, ..old(self)@ }).with_action(
                MacActionView::SetChannel { page, channel },
            ),
    {
        self.pib.page = page;
        self.pib.channel = channel;
        self.push_action(MacAction::SetChannel { page, channel });
    }

    /// The Power Control Information Table (Annex D.11.2.3).
    pub fn power_table(&self) -> (t: &PowerControlTable<POWER_ENTRIES>)
        ensures
            t@ == self@.power,
            t.spec_limits() == self@.power_limits,
    {
        &self.power
    }

    /// The Power Control Information Table, for the network layer's
    /// MLME-SET-POWER-INFORMATION-TABLE.request.
    pub fn power_table_mut(&mut self) -> (t: &mut PowerControlTable<POWER_ENTRIES>)
        requires
            old(self).wf(),
        ensures
            t@ == old(self)@.power,
            t.spec_limits() == old(self)@.power_limits,
            t.wf(),
            final(t).wf() ==> final(self).wf(),
            final(self)@ == (MacServiceView { power: final(t)@, power_limits: final(t).spec_limits(), ..old(self)@ }),
    {
        &mut self.power
    }

    /// Sets the parent (coordinator) addresses for end devices.
    pub fn set_coordinator(&mut self, short: ShortAddress, extended: ExtendedAddress)
        requires
            old(self).wf(),
        ensures
            final(self).wf(),
            final(self)@ == (MacServiceView {
                pib: PibView { coord_short_address: short, coord_extended_address: extended, ..old(self)@.pib },
                ..old(self)@
            }),
    {
        self.pib.coord_short_address = short;
        self.pib.coord_extended_address = extended;
    }

    /// Sets `macRxOnWhenIdle`.
    pub fn set_rx_on_when_idle(&mut self, on: bool)
        requires
            old(self).wf(),
        ensures
            final(self).wf(),
            final(self)@ == (MacServiceView {
                pib: PibView { rx_on_when_idle: on, ..old(self)@.pib },
                config_dirty: true,
                ..old(self)@
            }),
    {
        self.pib.rx_on_when_idle = on;
        self.config_dirty = true;
    }

    /// Sets `macAssociationPermit`.
    pub fn set_association_permit(&mut self, permit: bool)
        requires
            old(self).wf(),
        ensures
            final(self).wf(),
            final(self)@ == (MacServiceView {
                pib: PibView { association_permit: permit, ..old(self)@.pib },
                ..old(self)@
            }),
    {
        self.pib.association_permit = permit;
    }

    /// Sets the beacon payload; longer payloads are truncated to
    /// [`MAX_BEACON_PAYLOAD`] and reported by the returned `false`.
    pub fn set_beacon_payload(&mut self, payload: &[u8]) -> (complete: bool)
        requires
            old(self).wf(),
        ensures
            final(self).wf(),
            complete == (payload@.len() <= MAX_BEACON_PAYLOAD),
            final(self)@ == (MacServiceView {
                pib: PibView {
                    beacon_payload: if payload@.len() <= MAX_BEACON_PAYLOAD {
                        payload@
                    } else {
                        payload@.take(MAX_BEACON_PAYLOAD as int)
                    },
                    ..old(self)@.pib
                },
                ..old(self)@
            }),
    {
        let n = if payload.len() < MAX_BEACON_PAYLOAD {
            payload.len()
        } else {
            MAX_BEACON_PAYLOAD
        };
        let mut b: Vec<u8> = Vec::new();
        push_bytes(&mut b, vstd::slice::slice_subrange(payload, 0, n));
        assert(b@ =~= (if payload@.len() <= MAX_BEACON_PAYLOAD {
            payload@
        } else {
            payload@.take(MAX_BEACON_PAYLOAD as int)
        }));
        self.pib.beacon_payload = b;
        n == payload.len()
    }

    /// Resets all transient state (MLME-RESET), keeping the extended
    /// address and configuration.
    pub fn reset(&mut self)
        requires
            old(self).wf(),
        ensures
            final(self).wf(),
            final(self)@ == (MacServiceView {
                pib: default_pib(old(self)@.pib.extended_address),
                in_flight: None,
                tx_queue: Seq::empty(),
                indirect: Seq::empty(),
                scan: None,
                assoc: None,
                poll_wait_until: None,
                config_dirty: true,
                ..old(self)@
            }),
    {
        let ext = self.pib.extended_address;
        self.pib = Pib::default();
        self.pib.extended_address = ext;
        self.in_flight = None;
        self.tx_queue.clear();
        self.indirect.clear();
        self.scan = None;
        self.assoc = None;
        self.poll_wait_until = None;
        self.config_dirty = true;
        assert(self@.tx_queue =~= Seq::<QueuedTxView>::empty());
        assert(self@.indirect =~= Seq::<IndirectView>::empty());
    }

    /// Number of indirect frames currently held.
    pub fn indirect_len(&self) -> (n: usize)
        ensures
            n == self@.indirect.len(),
    {
        self.indirect.len()
    }

    /// Number of frames waiting in the transmit queue (excluding the one
    /// in flight).
    pub fn tx_queue_len(&self) -> (n: usize)
        ensures
            n == self@.tx_queue.len(),
    {
        self.tx_queue.len()
    }

    /// True while a scan is running.
    pub fn scanning(&self) -> (b: bool)
        ensures
            b == self@.scan is Some,
    {
        self.scan.is_some()
    }

    /// Per-channel energy levels from the last energy scan, indexed by
    /// channel number.
    pub fn energy_results(&self) -> (e: &[u8])
        ensures
            e@ == self@.energy,
    {
        self.energy.as_slice()
    }

    /// True while the end device should keep its receiver on after a poll
    /// (parent signalled pending data) or a transmission is in progress.
    pub fn needs_receiver(&self) -> (b: bool)
        ensures
            b == (self@.poll_wait_until is Some || self@.in_flight is Some || self@.tx_queue.len() > 0
                || self@.assoc is Some || self@.scan is Some),
    {
        self.poll_wait_until.is_some() || self.in_flight.is_some() || self.tx_queue.len() > 0
            || self.assoc.is_some() || self.scan.is_some()
    }
}

fn consider_exec(acc: Option<Instant>, i: Instant) -> (r: Option<Instant>)
    ensures
        r == consider(acc, i),
{
    match acc {
        None => Some(i),
        Some(n) => if i.0 < n.0 {
            Some(i)
        } else {
            Some(n)
        },
    }
}

fn zero_energy() -> (v: Vec<u8>)
    ensures
        v@ == Seq::new(ENERGY_SLOTS as nat, |i: int| 0u8),
{
    let mut v: Vec<u8> = Vec::new();
    let mut i: usize = 0;
    while i < ENERGY_SLOTS
        invariant
            i <= ENERGY_SLOTS,
            v@ == Seq::new(i as nat, |k: int| 0u8),
        decreases ENERGY_SLOTS - i,
    {
        v.push(0);
        i = i + 1;
        assert(v@ =~= Seq::new(i as nat, |k: int| 0u8));
    }
    v
}


/// `h` with the acknowledgement request bit set to `ack`.
pub open spec fn with_ack(h: HeaderView, ack: bool) -> HeaderView {
    HeaderView { frame_control: FrameControl(spec_with_bit(h.frame_control.0, FC_ACK_REQUEST, ack)), ..h }
}

/// The frame of header `h` and body `body`, when it fits in a MAC frame.
pub open spec fn spec_frame(h: HeaderView, body: Seq<u8>) -> Option<Seq<u8>> {
    let f = h.spec_encode() + body;
    if f.len() <= MAX_MAC_FRAME_SIZE {
        Some(f)
    } else {
        None
    }
}

/// Short destinations of the indirect frames, in order.
pub open spec fn pending_shorts(s: Seq<IndirectView>) -> Seq<ShortAddress>
    decreases s.len(),
{
    if s.len() == 0 {
        Seq::empty()
    } else {
        let r = pending_shorts(s.drop_last());
        match s.last().dst {
            MacAddress::Short(a) => r.push(a),
            _ => r,
        }
    }
}

/// Extended destinations of the indirect frames, in order.
pub open spec fn pending_extended(s: Seq<IndirectView>) -> Seq<ExtendedAddress>
    decreases s.len(),
{
    if s.len() == 0 {
        Seq::empty()
    } else {
        let r = pending_extended(s.drop_last());
        match s.last().dst {
            MacAddress::Extended(a) => r.push(a),
            _ => r,
        }
    }
}

/// CSMA transmission options.
pub open spec fn csma_options(ack: bool, power: Option<i8>) -> TxOptions {
    TxOptions { ack_request: ack, csma: true, tx_power_dbm: power }
}

/// The short broadcast destination.
pub open spec fn broadcast_dst() -> MacAddress {
    MacAddress::Short(ShortAddress(BROADCAST_ALL_RAW))
}

impl MacServiceView {
    /// With the hardware pending-address list refreshed, when the radio
    /// keeps one.
    pub open spec fn pending_updated(self) -> MacServiceView {
        if self.config.radio.pending_bit {
            self.with_action(
                MacActionView::SetPending {
                    short: pending_shorts(self.indirect),
                    extended: pending_extended(self.indirect),
                },
            )
        } else {
            self
        }
    }

    /// With `e` held for its child.
    pub open spec fn with_indirect(self, e: IndirectView) -> MacServiceView {
        MacServiceView { indirect: self.indirect.push(e), ..self }.pending_updated()
    }

    /// With `q` queued for transmission.
    pub open spec fn with_queued(self, q: QueuedTxView) -> MacServiceView {
        MacServiceView { tx_queue: self.tx_queue.push(q), ..self }
    }

    /// When an indirect transaction created now expires.
    pub open spec fn expiry(self) -> Instant {
        after(self.now, self.config.transaction_persistence)
    }

    /// `q` queued, or `QueueFull` with nothing changed.
    pub open spec fn enqueued(self, q: QueuedTxView) -> (MacServiceView, Result<(), MacError>) {
        if self.tx_queue.len() >= TX_QUEUE_CAPACITY {
            (self, Err(MacError::QueueFull))
        } else {
            (self.with_queued(q), Ok(()))
        }
    }

    /// `e` held, or `TransactionOverflow` with nothing changed.
    pub open spec fn indirect_added(self, e: IndirectView) -> (MacServiceView, Result<(), MacError>) {
        if self.indirect.len() >= INDIRECT_CAPACITY {
            (self, Err(MacError::TransactionOverflow))
        } else {
            (self.with_indirect(e), Ok(()))
        }
    }

    /// MCPS-DATA.request: the state after it and its result.
    pub open spec fn data_request(
        self,
        dst_pan: PanId,
        dst: MacAddress,
        payload: Seq<u8>,
        ack_request: bool,
        indirect: bool,
    ) -> (MacServiceView, Result<TxHandle, MacError>) {
        let seq = self.pib.dsn;
        let ack = ack_request && dst != broadcast_dst();
        let h = with_ack(
            HeaderView::spec_new(FrameType::Data, seq, dst_pan, dst, self.pib.pan_id, self.own_address()),
            ack,
        );
        let v1 = self.dsn_used();
        match spec_frame(h, payload) {
            None => (v1, Err(MacError::FrameTooLong)),
            Some(frame) => {
                let handle = TxHandle(self.next_handle);
                let v2 = v1.handle_used();
                let r = if indirect {
                    v2.indirect_added(
                        IndirectView {
                            dst,
                            kind: InFlightKind::IndirectData { handle },
                            frame,
                            seq,
                            expires: self.expiry(),
                        },
                    )
                } else {
                    v2.enqueued(
                        QueuedTxView {
                            kind: InFlightKind::Data { handle },
                            frame,
                            seq,
                            ack_request: ack,
                            options: csma_options(ack, spec_tx_power_for(self.power, dst)),
                        },
                    )
                };
                (
                    r.0,
                    match r.1 {
                        Ok(_) => Ok(handle),
                        Err(e) => Err(e),
                    },
                )
            },
        }
    }

    /// An inter-PAN MCPS-DATA.request: the state after it and its result.
    pub open spec fn data_request_inter_pan(
        self,
        dst_pan: PanId,
        dst: MacAddress,
        src_pan: PanId,
        payload: Seq<u8>,
        ack_request: bool,
    ) -> (MacServiceView, Result<TxHandle, MacError>) {
        let seq = self.pib.dsn;
        let ack = ack_request && dst != broadcast_dst();
        let h = with_ack(
            HeaderView::spec_new(
                FrameType::Data,
                seq,
                dst_pan,
                dst,
                src_pan,
                MacAddress::Extended(self.pib.extended_address),
            ),
            ack,
        );
        let v1 = self.dsn_used();
        match spec_frame(h, payload) {
            None => (v1, Err(MacError::FrameTooLong)),
            Some(frame) => {
                let handle = TxHandle(self.next_handle);
                let r = v1.handle_used().enqueued(
                    QueuedTxView {
                        kind: InFlightKind::Data { handle },
                        frame,
                        seq,
                        ack_request: ack,
                        options: csma_options(ack, None),
                    },
                );
                (
                    r.0,
                    match r.1 {
                        Ok(_) => Ok(handle),
                        Err(e) => Err(e),
                    },
                )
            },
        }
    }

    /// A MAC command with acknowledgement request from this device,
    /// queued for transmission: the state after it and its result.
    pub open spec fn command_queued(
        self,
        kind: InFlightKind,
        dst_pan: PanId,
        dst: MacAddress,
        src_pan: PanId,
        src: MacAddress,
        cmd: MacCommandView,
    ) -> (MacServiceView, Result<(), MacError>) {
        let seq = self.pib.dsn;
        let h = with_ack(HeaderView::spec_new(FrameType::Command, seq, dst_pan, dst, src_pan, src), true);
        match spec_frame(h, cmd.spec_encode()) {
            None => (self.dsn_used(), Err(MacError::FrameTooLong)),
            Some(frame) => self.dsn_used().enqueued(
                QueuedTxView { kind, frame, seq, ack_request: true, options: csma_options(true, None) },
            ),
        }
    }

    /// The parent to poll: short address when known, else extended.
    pub open spec fn poll_target(self) -> Option<MacAddress> {
        if self.pib.coord_short_address.0 != NO_SHORT_ADDRESS_RAW {
            Some(MacAddress::Short(self.pib.coord_short_address))
        } else if self.pib.coord_extended_address.0 != 0 {
            Some(MacAddress::Extended(self.pib.coord_extended_address))
        } else {
            None
        }
    }

    /// MLME-POLL.request: the state after it and its result.
    pub open spec fn poll(self) -> (MacServiceView, Result<(), MacError>) {
        match self.poll_target() {
            None => (self, Err(MacError::InvalidRequest)),
            Some(dst) => self.command_queued(
                InFlightKind::Poll,
                self.pib.pan_id,
                dst,
                self.pib.pan_id,
                self.own_address(),
                MacCommandView::DataRequest,
            ),
        }
    }

    /// MLME-ASSOCIATE.request: the state after it and its result.
    pub open spec fn associate(self, pan_id: PanId, coordinator: MacAddress, capability: MacCapability) -> (
        MacServiceView,
        Result<(), MacError>,
    ) {
        if self.scan is Some || self.assoc is Some {
            (self, Err(MacError::Busy))
        } else if coordinator is Absent {
            (self, Err(MacError::InvalidRequest))
        } else {
            let r = self.command_queued(
                InFlightKind::AssocRequest,
                pan_id,
                coordinator,
                PanId(PAN_BROADCAST_RAW),
                MacAddress::Extended(self.pib.extended_address),
                MacCommandView::AssociationRequest { capability },
            );
            match r.1 {
                Err(e) => (r.0, Err(e)),
                Ok(_) => {
                    let v = r.0;
                    let pib = match coordinator {
                        MacAddress::Short(s) => PibView { pan_id, coord_short_address: s, ..v.pib },
                        MacAddress::Extended(e) => PibView { pan_id, coord_extended_address: e, ..v.pib },
                        MacAddress::Absent => PibView { pan_id, ..v.pib },
                    };
                    (
                        MacServiceView {
                            assoc: Some(AssocState { coordinator, pan_id, phase: AssocPhase::Requesting }),
                            pib,
                            config_dirty: true,
                            ..v
                        },
                        Ok(()),
                    )
                },
            }
        }
    }

    /// MLME-ASSOCIATE.response: the state after it and its result.
    pub open spec fn associate_response(self, device: ExtendedAddress, short_address: ShortAddress, status: MacStatus) -> (
        MacServiceView,
        Result<(), MacError>,
    ) {
        let seq = self.pib.dsn;
        let h = with_ack(
            HeaderView::spec_new(
                FrameType::Command,
                seq,
                self.pib.pan_id,
                MacAddress::Extended(device),
                self.pib.pan_id,
                MacAddress::Extended(self.pib.extended_address),
            ),
            true,
        );
        match spec_frame(h, MacCommandView::AssociationResponse { short_address, status }.spec_encode()) {
            None => (self.dsn_used(), Err(MacError::FrameTooLong)),
            Some(frame) => self.dsn_used().indirect_added(
                IndirectView {
                    dst: MacAddress::Extended(device),
                    kind: InFlightKind::IndirectAssocResponse { device },
                    frame,
                    seq,
                    expires: self.expiry(),
                },
            ),
        }
    }
}

/// The indirect transaction is the one `handle` names.
pub open spec fn purged_by(k: InFlightKind, handle: TxHandle) -> bool {
    k == InFlightKind::IndirectData { handle } || k == InFlightKind::DeferredData { handle }
}

/// `h` with the acknowledgement request bit set to `ack`.
fn acked<'a>(h: Header<'a>, ack: bool) -> (r: Header<'a>)
    ensures
        r@ == with_ack(h@, ack),
        r.header_ies == h.header_ies,
{
    Header {
        frame_control: h.frame_control.with_ack_request(ack),
        sequence: h.sequence,
        dst_pan: h.dst_pan,
        dst: h.dst,
        src_pan: h.src_pan,
        src: h.src,
        header_ies: h.header_ies,
    }
}

/// The frame of `header` and `body`, or `FrameTooLong`.
fn build_frame(header: &Header, body: &[u8]) -> (r: Result<FrameBuf, MacError>)
    requires
        header.header_ies@.len() <= 2,
    ensures
        match spec_frame(header@, body@) {
            Some(f) => r matches Ok(v) && v@ == f,
            None => r == Err::<FrameBuf, MacError>(MacError::FrameTooLong),
        },
{
    let hl = header.encoded_len();
    if body.len() > MAX_MAC_FRAME_SIZE || hl + body.len() > MAX_MAC_FRAME_SIZE {
        return Err(MacError::FrameTooLong);
    }
    let mut buf: Vec<u8> = Vec::new();
    header.encode(&mut buf);
    push_bytes(&mut buf, body);
    assert(buf@ =~= header@.spec_encode() + body@);
    Ok(buf)
}

/// The octets of a MAC command.
fn command_bytes(c: MacCommand) -> (v: Vec<u8>)
    ensures
        v@ == c@.spec_encode(),
{
    let mut v: Vec<u8> = Vec::new();
    c.encode(&mut v);
    assert(v@ =~= c@.spec_encode());
    v
}

impl MacService {
    fn next_dsn(&mut self) -> (v: u8)
        requires
            old(self).wf(),
        ensures
            final(self).wf(),
            v == old(self)@.pib.dsn,
            final(self)@ == old(self)@.dsn_used(),
    {
        let v = self.pib.dsn;
        self.pib.dsn = if v == 0xFF {
            0
        } else {
            v + 1
        };
        v
    }

    fn next_bsn(&mut self) -> (v: u8)
        requires
            old(self).wf(),
        ensures
            final(self).wf(),
            v == old(self)@.pib.bsn,
            final(self)@ == old(self)@.bsn_used(),
    {
        let v = self.pib.bsn;
        self.pib.bsn = if v == 0xFF {
            0
        } else {
            v + 1
        };
        v
    }

    fn own_address(&self) -> (a: MacAddress)
        ensures
            a == self@.own_address(),
    {
        if self.pib.short_address.0 == NO_SHORT_ADDRESS_RAW {
            MacAddress::Extended(self.pib.extended_address)
        } else {
            MacAddress::Short(self.pib.short_address)
        }
    }

    fn alloc_handle(&mut self) -> (h: TxHandle)
        requires
            old(self).wf(),
        ensures
            final(self).wf(),
            h == TxHandle(old(self)@.next_handle),
            final(self)@ == old(self)@.handle_used(),
    {
        let h = TxHandle(self.next_handle);
        self.next_handle = if self.next_handle == 0xFFFF {
            1
        } else {
            self.next_handle + 1
        };
        h
    }

    fn enqueue(&mut self, q: QueuedTx) -> (r: Result<(), MacError>)
        requires
            old(self).wf(),
        ensures
            final(self).wf(),
            (final(self)@, r) == old(self)@.enqueued(q@),
    {
        if self.tx_queue.len() >= TX_QUEUE_CAPACITY {
            return Err(MacError::QueueFull);
        }
        let ghost q0 = self.tx_queue@;
        self.tx_queue.push(q);
        assert(self@.tx_queue =~= old(self)@.tx_queue.push(q@));
        Ok(())
    }

    fn add_indirect(&mut self, entry: IndirectEntry) -> (r: Result<(), MacError>)
        requires
            old(self).wf(),
        ensures
            final(self).wf(),
            (final(self)@, r) == old(self)@.indirect_added(entry@),
    {
        if self.indirect.len() >= INDIRECT_CAPACITY {
            return Err(MacError::TransactionOverflow);
        }
        let ghost e = entry@;
        self.indirect.push(entry);
        assert(self@.indirect =~= old(self)@.indirect.push(e));
        self.update_pending_list();
        Ok(())
    }

    fn update_pending_list(&mut self)
        requires
            old(self).wf(),
        ensures
            final(self).wf(),
            final(self)@ == old(self)@.pending_updated(),
    {
        if !self.config.radio.pending_bit {
            return;
        }
        let mut short: Vec<ShortAddress> = Vec::new();
        let mut extended: Vec<ExtendedAddress> = Vec::new();
        let mut i: usize = 0;
        while i < self.indirect.len()
            invariant
                i <= self.indirect@.len(),
                self@.indirect.len() == self.indirect@.len(),
                short@ == pending_shorts(self@.indirect.take(i as int)),
                extended@ == pending_extended(self@.indirect.take(i as int)),
            decreases self.indirect@.len() - i,
        {
            proof {
                assert(self@.indirect.take(i + 1).drop_last() =~= self@.indirect.take(i as int));
                assert(self@.indirect.take(i + 1).last() == self.indirect@[i as int]@);
            }
            match self.indirect[i].dst {
                MacAddress::Short(s) => short.push(s),
                MacAddress::Extended(x) => extended.push(x),
                MacAddress::Absent => {},
            }
            i = i + 1;
        }
        assert(self@.indirect.take(i as int) =~= self@.indirect);
        self.push_action(MacAction::SetPending { short, extended });
    }

    /// Queues a data frame (MCPS-DATA.request).
    ///
    /// `dst_pan` is the destination PAN; the source PAN is `macPANId` and
    /// is compressed when equal. When `indirect` is set the frame is held
    /// for the addressed sleepy child until it polls or the transaction
    /// expires. The returned handle appears in the matching
    /// [`MacEvent::DataConfirm`].
    pub fn data_request(
        &mut self,
        dst_pan: PanId,
        dst: MacAddress,
        payload: &[u8],
        ack_request: bool,
        indirect: bool,
    ) -> (r: Result<TxHandle, MacError>)
        requires
            old(self).wf(),
        ensures
            final(self).wf(),
            (final(self)@, r) == old(self)@.data_request(dst_pan, dst, payload@, ack_request, indirect),
    {
        let seq = self.next_dsn();
        let src = self.own_address();
        let ack = ack_request && !dst.is_broadcast();
        let header = acked(Header::new(FrameType::Data, seq, dst_pan, dst, self.pib.pan_id, src), ack);
        let frame = match build_frame(&header, payload) {
            Ok(f) => f,
            Err(e) => return Err(e),
        };
        let handle = self.alloc_handle();
        if indirect {
            let expires = self.now.plus(self.config.transaction_persistence);
            match self.add_indirect(IndirectEntry { dst, kind: InFlightKind::IndirectData { handle }, frame, seq, expires }) {
                Ok(()) => Ok(handle),
                Err(e) => Err(e),
            }
        } else {
            let p = self.power.tx_power_for(&dst);
            let q = QueuedTx {
                kind: InFlightKind::Data { handle },
                frame,
                seq,
                ack_request: ack,
                options: TxOptions { ack_request: ack, csma: true, tx_power_dbm: p },
            };
            match self.enqueue(q) {
                Ok(()) => Ok(handle),
                Err(e) => Err(e),
            }
        }
    }

    /// Registers an indirect transaction whose frame is produced only
    /// when the child polls: the pending-address list and the frame
    /// pending bit of the poll acknowledgement include `dst`, and the
    /// poll raises [`MacEvent::IndirectReady`] instead of transmitting.
    /// Expires like any indirect transaction.
    pub fn data_request_deferred(&mut self, dst: MacAddress) -> (r: Result<TxHandle, MacError>)
        requires
            old(self).wf(),
        ensures
            final(self).wf(),
            ({
                let v = old(self)@;
                let handle = TxHandle(v.next_handle);
                let a = v.handle_used().indirect_added(
                    IndirectView {
                        dst,
                        kind: InFlightKind::DeferredData { handle },
                        frame: Seq::empty(),
                        seq: 0,
                        expires: v.expiry(),
                    },
                );
                &&& final(self)@ == a.0
                &&& r == match a.1 {
                    Ok(_) => Ok::<TxHandle, MacError>(handle),
                    Err(e) => Err(e),
                }
            }),
    {
        let handle = self.alloc_handle();
        let expires = self.now.plus(self.config.transaction_persistence);
        let frame: Vec<u8> = Vec::new();
        assert(frame@ =~= Seq::<u8>::empty());
        match self.add_indirect(IndirectEntry { dst, kind: InFlightKind::DeferredData { handle }, frame, seq: 0, expires }) {
            Ok(()) => Ok(handle),
            Err(e) => Err(e),
        }
    }

    /// Queues an inter-PAN data frame (ZCL8 §13.3.4.5): destination PAN
    /// `dst_pan` (the broadcast PAN for touchlink), an explicit source
    /// PAN and the extended source address, never indirect.
    pub fn data_request_inter_pan(
        &mut self,
        dst_pan: PanId,
        dst: MacAddress,
        src_pan: PanId,
        payload: &[u8],
        ack_request: bool,
    ) -> (r: Result<TxHandle, MacError>)
        requires
            old(self).wf(),
        ensures
            final(self).wf(),
            (final(self)@, r) == old(self)@.data_request_inter_pan(dst_pan, dst, src_pan, payload@, ack_request),
    {
        let seq = self.next_dsn();
        let ack = ack_request && !dst.is_broadcast();
        let header = acked(
            Header::new(FrameType::Data, seq, dst_pan, dst, src_pan, MacAddress::Extended(self.pib.extended_address)),
            ack,
        );
        let frame = match build_frame(&header, payload) {
            Ok(f) => f,
            Err(e) => return Err(e),
        };
        let handle = self.alloc_handle();
        let q = QueuedTx {
            kind: InFlightKind::Data { handle },
            frame,
            seq,
            ack_request: ack,
            options: TxOptions { ack_request: ack, csma: true, tx_power_dbm: None },
        };
        match self.enqueue(q) {
            Ok(()) => Ok(handle),
            Err(e) => Err(e),
        }
    }

    /// Removes a queued indirect frame (MCPS-PURGE); true when one was
    /// removed.
    pub fn purge(&mut self, handle: TxHandle) -> (removed: bool)
        requires
            old(self).wf(),
        ensures
            final(self).wf(),
            ({
                let kept = old(self)@.indirect.filter(|e: IndirectView| !purged_by(e.kind, handle));
                &&& removed == (kept.len() != old(self)@.indirect.len())
                &&& final(self)@ == if removed {
                    MacServiceView { indirect: kept, ..old(self)@ }.pending_updated()
                } else {
                    old(self)@
                }
            }),
    {
        let ghost orig = self@.indirect;
        let ghost keep = |e: IndirectView| !purged_by(e.kind, handle);
        let before = self.indirect.len();
        let mut rest: Vec<IndirectEntry> = Vec::new();
        std::mem::swap(&mut rest, &mut self.indirect);
        let ghost all = rest@;
        let total = rest.len();
        assert(all.map_values(|e: IndirectEntry| e@) == orig);
        let mut k: usize = 0;
        while rest.len() > 0
            invariant
                k <= all.len(),
                all.len() == total,
                rest@.len() + k == all.len(),
                rest@ == all.skip(k as int),
                all.map_values(|e: IndirectEntry| e@) == orig,
                self@.indirect == orig.take(k as int).filter(keep),
                self@.indirect.len() <= k,
                self@ == (MacServiceView { indirect: self@.indirect, ..old(self)@ }),
                keep == (|e: IndirectView| !purged_by(e.kind, handle)),
                old(self).wf(),
                self.power.wf(),
            decreases rest@.len(),
        {
            let e = rest.remove(0);
            proof {
                assert(all[k as int] == e);
                assert(rest@ =~= all.skip(k + 1));
                assert(orig.take(k + 1) =~= orig.take(k as int).push(e@));
                orig.take(k as int).lemma_filter_push(e@, keep);
            }
            let ghost prev = self@.indirect;
            match e.kind {
                InFlightKind::IndirectData { handle: h } if h == handle => {},
                InFlightKind::DeferredData { handle: h } if h == handle => {},
                _ => {
                    self.indirect.push(e);
                    assert(self@.indirect =~= prev.push(e@));
                },
            }
            k = k + 1;
        }
        proof {
            assert(orig.take(k as int) =~= orig);
        }
        let removed = self.indirect.len() != before;
        if removed {
            self.update_pending_list();
        } else {
            proof {
                lemma_filter_same_len(orig, keep);
            }
        }
        removed
    }

    /// Sends a Data Request to the parent (MLME-POLL.request).
    pub fn poll(&mut self) -> (r: Result<(), MacError>)
        requires
            old(self).wf(),
        ensures
            final(self).wf(),
            (final(self)@, r) == old(self)@.poll(),
    {
        let dst = if self.pib.coord_short_address.0 != NO_SHORT_ADDRESS_RAW {
            MacAddress::Short(self.pib.coord_short_address)
        } else if self.pib.coord_extended_address.0 != 0 {
            MacAddress::Extended(self.pib.coord_extended_address)
        } else {
            return Err(MacError::InvalidRequest);
        };
        let src = self.own_address();
        let pan = self.pib.pan_id;
        self.queue_command(InFlightKind::Poll, pan, dst, pan, src, MacCommand::DataRequest)
    }

    /// Queues a MAC command with acknowledgement request.
    fn queue_command(
        &mut self,
        kind: InFlightKind,
        dst_pan: PanId,
        dst: MacAddress,
        src_pan: PanId,
        src: MacAddress,
        cmd: MacCommand,
    ) -> (r: Result<(), MacError>)
        requires
            old(self).wf(),
        ensures
            final(self).wf(),
            (final(self)@, r) == old(self)@.command_queued(kind, dst_pan, dst, src_pan, src, cmd@),
    {
        let seq = self.next_dsn();
        let header = acked(Header::new(FrameType::Command, seq, dst_pan, dst, src_pan, src), true);
        let body = command_bytes(cmd);
        let frame = match build_frame(&header, body.as_slice()) {
            Ok(f) => f,
            Err(e) => return Err(e),
        };
        self.enqueue(
            QueuedTx { kind, frame, seq, ack_request: true, options: TxOptions { ack_request: true, csma: true, tx_power_dbm: None } },
        )
    }

    /// Starts association with `coordinator` on `pan_id`
    /// (MLME-ASSOCIATE.request). The device must already be on the
    /// coordinator's channel. Outcome: [`MacEvent::AssociateConfirm`].
    pub fn associate(&mut self, pan_id: PanId, coordinator: MacAddress, capability: MacCapability) -> (r: Result<
        (),
        MacError,
    >)
        requires
            old(self).wf(),
        ensures
            final(self).wf(),
            (final(self)@, r) == old(self)@.associate(pan_id, coordinator, capability),
    {
        if self.scan.is_some() || self.assoc.is_some() {
            return Err(MacError::Busy);
        }
        if matches!(coordinator, MacAddress::Absent) {
            return Err(MacError::InvalidRequest);
        }
        let ext = MacAddress::Extended(self.pib.extended_address);
        match self.queue_command(
            InFlightKind::AssocRequest,
            pan_id,
            coordinator,
            PanId(PAN_BROADCAST_RAW),
            ext,
            MacCommand::AssociationRequest { capability },
        ) {
            Ok(()) => {},
            Err(e) => return Err(e),
        }
        self.assoc = Some(AssocState { coordinator, pan_id, phase: AssocPhase::Requesting });
        self.pib.pan_id = pan_id;
        match coordinator {
            MacAddress::Short(s) => self.pib.coord_short_address = s,
            MacAddress::Extended(e) => self.pib.coord_extended_address = e,
            MacAddress::Absent => {},
        }
        self.config_dirty = true;
        Ok(())
    }

    /// Answers an [`MacEvent::AssociateIndication`]
    /// (MLME-ASSOCIATE.response). The response is transmitted indirectly
    /// when the joiner polls; delivery is reported by
    /// [`MacEvent::CommStatus`].
    pub fn associate_response(&mut self, device: ExtendedAddress, short_address: ShortAddress, status: MacStatus) -> (r:
        Result<(), MacError>)
        requires
            old(self).wf(),
        ensures
            final(self).wf(),
            (final(self)@, r) == old(self)@.associate_response(device, short_address, status),
    {
        let seq = self.next_dsn();
        let pan = self.pib.pan_id;
        let header = acked(
            Header::new(
                FrameType::Command,
                seq,
                pan,
                MacAddress::Extended(device),
                pan,
                MacAddress::Extended(self.pib.extended_address),
            ),
            true,
        );
        let body = command_bytes(MacCommand::AssociationResponse { short_address, status });
        let frame = match build_frame(&header, body.as_slice()) {
            Ok(f) => f,
            Err(e) => return Err(e),
        };
        let expires = self.now.plus(self.config.transaction_persistence);
        self.add_indirect(
            IndirectEntry {
                dst: MacAddress::Extended(device),
                kind: InFlightKind::IndirectAssocResponse { device },
                frame,
                seq,
                expires,
            },
        )
    }
}


/// The handle a transmit action reports: the data handle, else zero.
pub open spec fn action_handle(k: InFlightKind) -> TxHandle {
    match k {
        InFlightKind::Data { handle } => handle,
        InFlightKind::IndirectData { handle } => handle,
        _ => TxHandle(0),
    }
}

/// The association status a failed association request reports.
pub open spec fn assoc_failure_status(status: TxStatus) -> MacStatus {
    match status {
        TxStatus::NoAck => MacStatus::NoAck,
        TxStatus::ChannelAccessFailure => MacStatus::ChannelAccessFailure,
        _ => MacStatus::TransactionExpired,
    }
}

/// `a` in `phase`.
pub open spec fn assoc_in_phase(a: Option<AssocState>, phase: AssocPhase) -> Option<AssocState> {
    match a {
        Some(s) => Some(AssocState { phase, ..s }),
        None => None,
    }
}

impl MacServiceView {
    /// With the oldest queued frame handed to the radio, when nothing is
    /// in flight.
    pub open spec fn started(self) -> MacServiceView {
        if self.in_flight is Some || self.tx_queue.len() == 0 {
            self
        } else {
            let q = self.tx_queue[0];
            let retries = if q.ack_request && !self.config.radio.retries {
                self.config.max_frame_retries
            } else {
                0
            };
            MacServiceView {
                in_flight: Some(
                    InFlightView {
                        kind: q.kind,
                        frame: q.frame,
                        seq: q.seq,
                        ack_request: q.ack_request,
                        tx_power_dbm: q.options.tx_power_dbm,
                        retries_left: retries,
                        awaiting_tx: true,
                        ack_deadline: None,
                    },
                ),
                tx_queue: self.tx_queue.drop_first(),
                ..self
            }.with_action(MacActionView::Transmit { handle: action_handle(q.kind), frame: q.frame, options: q.options })
        }
    }

    /// The state after [`MacService::next_action`] prepared its output.
    pub open spec fn prepared(self) -> MacServiceView {
        self.flushed().started()
    }

    /// With `f` handed to the radio again.
    pub open spec fn retransmitted(self, f: InFlightView) -> MacServiceView {
        MacServiceView {
            in_flight: Some(InFlightView { awaiting_tx: true, ack_deadline: None, ..f }),
            ..self
        }.with_action(
            MacActionView::Transmit {
                handle: action_handle(f.kind),
                frame: f.frame,
                options: csma_options(f.ack_request, f.tx_power_dbm),
            },
        )
    }

    /// With the outcome of a transmission for `kind` reported (the
    /// transmission itself already removed).
    pub open spec fn finished(self, kind: InFlightKind, status: TxStatus, frame_pending: bool) -> MacServiceView {
        match kind {
            InFlightKind::Data { handle } => self.with_event(MacEvent::DataConfirm { handle, status, frame_pending }),
            InFlightKind::IndirectData { handle } => self.with_event(
                MacEvent::DataConfirm { handle, status, frame_pending },
            ),
            InFlightKind::DeferredData { handle } => self.with_event(
                MacEvent::DataConfirm { handle, status, frame_pending },
            ),
            InFlightKind::Beacon => self,
            InFlightKind::BeaconRequest => self,
            InFlightKind::AssocRequest => if status == TxStatus::Success {
                MacServiceView {
                    assoc: assoc_in_phase(
                        self.assoc,
                        AssocPhase::WaitingResponseTime { at: after(self.now, self.config.response_wait) },
                    ),
                    ..self
                }
            } else {
                MacServiceView { assoc: None, ..self }.with_event(
                    MacEvent::AssociateConfirm {
                        short_address: ShortAddress(NO_SHORT_ADDRESS_RAW),
                        status: assoc_failure_status(status),
                    },
                )
            },
            InFlightKind::AssocDataRequest => if status == TxStatus::Success && frame_pending {
                MacServiceView {
                    assoc: assoc_in_phase(
                        self.assoc,
                        AssocPhase::Polling { deadline: after(self.now, self.config.poll_wait) },
                    ),
                    ..self
                }
            } else {
                MacServiceView { assoc: None, ..self }.with_event(
                    MacEvent::AssociateConfirm {
                        short_address: ShortAddress(NO_SHORT_ADDRESS_RAW),
                        status: if status == TxStatus::Success {
                            MacStatus::NoData
                        } else {
                            MacStatus::NoAck
                        },
                    },
                )
            },
            InFlightKind::Poll => {
                let v = if status == TxStatus::Success && frame_pending {
                    MacServiceView { poll_wait_until: Some(after(self.now, self.config.poll_wait)), ..self }
                } else {
                    self
                };
                v.with_event(MacEvent::PollConfirm { frame_pending, status })
            },
            InFlightKind::IndirectAssocResponse { device } => self.with_event(MacEvent::CommStatus { device, status }),
        }
    }

    /// The state after the radio reported the outcome of a transmit
    /// action.
    pub open spec fn tx_completed(self, result: Result<TxResult, RadioError>) -> MacServiceView {
        match self.in_flight {
            None => self,
            Some(f) => if !f.awaiting_tx {
                self
            } else {
                let f1 = InFlightView { awaiting_tx: false, ..f };
                let v = MacServiceView { in_flight: None, ..self };
                match result {
                    Err(RadioError::ChannelAccessFailure) => if f1.retries_left > 0 {
                        v.retransmitted(InFlightView { retries_left: (f1.retries_left - 1) as u8, ..f1 })
                    } else {
                        v.finished(f1.kind, TxStatus::ChannelAccessFailure, false)
                    },
                    Err(_) => v.finished(f1.kind, TxStatus::RadioError, false),
                    Ok(res) => if !f1.ack_request {
                        v.finished(f1.kind, TxStatus::Success, false)
                    } else if self.config.radio.ack_wait {
                        if res.acked {
                            v.finished(f1.kind, TxStatus::Success, res.frame_pending)
                        } else if f1.retries_left > 0 && !self.config.radio.retries {
                            v.retransmitted(InFlightView { retries_left: (f1.retries_left - 1) as u8, ..f1 })
                        } else {
                            v.finished(f1.kind, TxStatus::NoAck, false)
                        }
                    } else {
                        MacServiceView {
                            in_flight: Some(
                                InFlightView { ack_deadline: Some(after(self.now, self.config.ack_wait)), ..f1 },
                            ),
                            ..self
                        }
                    },
                }
            },
        }
    }
}

/// A copy of the octets of `b`.
fn copy_frame(b: &FrameBuf) -> (v: FrameBuf)
    ensures
        v@ == b@,
{
    let mut v: Vec<u8> = Vec::new();
    push_bytes(&mut v, b.as_slice());
    assert(v@ =~= b@);
    v
}

fn kind_handle(k: InFlightKind) -> (h: TxHandle)
    ensures
        h == action_handle(k),
{
    match k {
        InFlightKind::Data { handle } => handle,
        InFlightKind::IndirectData { handle } => handle,
        _ => TxHandle(0),
    }
}

impl MacService {
    /// Takes the next radio action to execute: a pending configuration
    /// change first, then the next queued frame once nothing is in
    /// flight.
    pub fn next_action(&mut self) -> (a: Option<MacAction>)
        requires
            old(self).wf(),
        ensures
            final(self).wf(),
            ({
                let p = old(self)@.prepared();
                &&& p.actions.len() == 0 ==> a is None && final(self)@ == p
                &&& p.actions.len() > 0 ==> (a matches Some(x) && x@ == p.actions[0] && final(self)@ == (
                MacServiceView { actions: p.actions.drop_first(), ..p }))
            }),
    {
        self.flush_config();
        self.start_next_transmission();
        if self.actions.len() == 0 {
            None
        } else {
            let ghost p = self@;
            let a = self.actions.remove(0);
            assert(self@.actions =~= p.actions.drop_first());
            Some(a)
        }
    }

    fn start_next_transmission(&mut self)
        requires
            old(self).wf(),
        ensures
            final(self).wf(),
            final(self)@ == old(self)@.started(),
    {
        if self.in_flight.is_some() || self.tx_queue.len() == 0 {
            return;
        }
        let ghost v = self@;
        let q = self.tx_queue.remove(0);
        assert(self@.tx_queue =~= v.tx_queue.drop_first());
        let handle = kind_handle(q.kind);
        let retries = if q.ack_request && !self.config.radio.retries {
            self.config.max_frame_retries
        } else {
            0
        };
        let frame = copy_frame(&q.frame);
        self.in_flight = Some(
            InFlight {
                kind: q.kind,
                frame,
                seq: q.seq,
                ack_request: q.ack_request,
                tx_power_dbm: q.options.tx_power_dbm,
                retries_left: retries,
                awaiting_tx: true,
                ack_deadline: None,
            },
        );
        self.push_action(MacAction::Transmit { handle, frame: q.frame, options: q.options });
    }

    /// Reports completion of a [`MacAction::Transmit`].
    pub fn on_tx_complete(&mut self, result: Result<TxResult, RadioError>)
        requires
            old(self).wf(),
        ensures
            final(self).wf(),
            final(self)@ == old(self)@.tx_completed(result),
    {
        let ghost v0 = self@;
        let mut f = match self.in_flight.take() {
            Some(f) => f,
            None => return,
        };
        if !f.awaiting_tx {
            self.in_flight = Some(f);
            return;
        }
        f.awaiting_tx = false;
        assert(self@ == (MacServiceView { in_flight: None, ..v0 }));
        match result {
            Err(RadioError::ChannelAccessFailure) => {
                if f.retries_left > 0 {
                    f.retries_left = f.retries_left - 1;
                    self.retransmit(f);
                } else {
                    self.finish_in_flight(f.kind, TxStatus::ChannelAccessFailure, false);
                }
            },
            Err(_) => self.finish_in_flight(f.kind, TxStatus::RadioError, false),
            Ok(res) => {
                if !f.ack_request {
                    self.finish_in_flight(f.kind, TxStatus::Success, false);
                } else if self.config.radio.ack_wait {
                    if res.acked {
                        self.finish_in_flight(f.kind, TxStatus::Success, res.frame_pending);
                    } else if f.retries_left > 0 && !self.config.radio.retries {
                        f.retries_left = f.retries_left - 1;
                        self.retransmit(f);
                    } else {
                        self.finish_in_flight(f.kind, TxStatus::NoAck, false);
                    }
                } else {
                    f.ack_deadline = Some(self.now.plus(self.config.ack_wait));
                    self.in_flight = Some(f);
                }
            },
        }
    }

    fn retransmit(&mut self, f: InFlight)
        requires
            old(self).wf(),
        ensures
            final(self).wf(),
            final(self)@ == old(self)@.retransmitted(f@),
    {
        let mut f = f;
        f.awaiting_tx = true;
        f.ack_deadline = None;
        let handle = kind_handle(f.kind);
        let frame = copy_frame(&f.frame);
        let options = TxOptions { ack_request: f.ack_request, csma: true, tx_power_dbm: f.tx_power_dbm };
        self.in_flight = Some(f);
        self.push_action(MacAction::Transmit { handle, frame, options });
    }

    fn finish_in_flight(&mut self, kind: InFlightKind, status: TxStatus, frame_pending: bool)
        requires
            old(self).wf(),
        ensures
            final(self).wf(),
            final(self)@ == old(self)@.finished(kind, status, frame_pending),
    {
        match kind {
            InFlightKind::Data { handle }
            | InFlightKind::IndirectData { handle }
            | InFlightKind::DeferredData { handle } => {
                self.push_event(MacEvent::DataConfirm { handle, status, frame_pending });
            },
            InFlightKind::Beacon | InFlightKind::BeaconRequest => {},
            InFlightKind::AssocRequest => {
                if status == TxStatus::Success {
                    let at = self.now.plus(self.config.response_wait);
                    if let Some(a) = self.assoc {
                        self.assoc = Some(AssocState { phase: AssocPhase::WaitingResponseTime { at }, ..a });
                    }
                } else {
                    self.assoc = None;
                    let st = match status {
                        TxStatus::NoAck => MacStatus::NoAck,
                        TxStatus::ChannelAccessFailure => MacStatus::ChannelAccessFailure,
                        _ => MacStatus::TransactionExpired,
                    };
                    self.push_event(
                        MacEvent::AssociateConfirm { short_address: ShortAddress(NO_SHORT_ADDRESS_RAW), status: st },
                    );
                }
            },
            InFlightKind::AssocDataRequest => {
                if status == TxStatus::Success && frame_pending {
                    let deadline = self.now.plus(self.config.poll_wait);
                    if let Some(a) = self.assoc {
                        self.assoc = Some(AssocState { phase: AssocPhase::Polling { deadline }, ..a });
                    }
                } else {
                    self.assoc = None;
                    let st = if status == TxStatus::Success {
                        MacStatus::NoData
                    } else {
                        MacStatus::NoAck
                    };
                    self.push_event(
                        MacEvent::AssociateConfirm { short_address: ShortAddress(NO_SHORT_ADDRESS_RAW), status: st },
                    );
                }
            },
            InFlightKind::Poll => {
                if status == TxStatus::Success && frame_pending {
                    self.poll_wait_until = Some(self.now.plus(self.config.poll_wait));
                }
                self.push_event(MacEvent::PollConfirm { frame_pending, status });
            },
            InFlightKind::IndirectAssocResponse { device } => {
                self.push_event(MacEvent::CommStatus { device, status });
            },
        }
    }
}


/// The first selected channel of `mask` at or above `c`.
pub open spec fn first_channel_from(mask: ChannelMask, c: nat) -> Option<Channel>
    decreases 27 - c,
{
    if c >= 27 {
        None
    } else if bit_set(mask.0, c as u32) {
        Some(Channel(c as u8))
    } else {
        first_channel_from(mask, c + 1)
    }
}

/// Scanning visits channels in increasing order: the first selected
/// channel at or above `c` is selected, lies at or above `c` and below 27,
/// and no channel between `c` and it is selected; with none, no channel
/// from `c` up to 26 is selected.
pub proof fn lemma_first_channel_from(mask: ChannelMask, c: nat)
    ensures
        first_channel_from(mask, c) matches Some(ch) ==> {
            &&& c <= ch.0 < 27
            &&& bit_set(mask.0, ch.0 as u32)
            &&& forall|k: nat| c <= k < ch.0 ==> !#[trigger] bit_set(mask.0, k as u32)
        },
        first_channel_from(mask, c) is None ==> forall|k: nat| c <= k < 27 ==> !#[trigger] bit_set(mask.0, k as u32),
    decreases 27 - c,
{
    if c < 27 && !bit_set(mask.0, c as u32) {
        lemma_first_channel_from(mask, c + 1);
        if let Some(ch) = first_channel_from(mask, c) {
            assert forall|k: nat| c <= k < ch.0 implies !#[trigger] bit_set(mask.0, k as u32) by {
                if k > c {
                }
            }
        } else {
            assert forall|k: nat| c <= k < 27 implies !#[trigger] bit_set(mask.0, k as u32) by {
                if k > c {
                }
            }
        }
    }
}

/// The channel a scan of `mask` moves to after `cur`.
pub open spec fn next_scan_channel(mask: ChannelMask, cur: Option<Channel>) -> Option<Channel> {
    match cur {
        None => first_channel_from(mask, 0),
        Some(c) => first_channel_from(mask, c.0 as nat + 1),
    }
}

/// The frame control of a version 2 frame with IEs.
pub open spec fn fc_v2(frame_type: FrameType, dst: AddressMode, src: AddressMode, compress: bool) -> FrameControl {
    let base = frame_type.spec_bits() | (FrameVersion::V2015.spec_bits() << 12);
    let a = (base & !0x0C00u16) | (dst.spec_bits() << 10);
    let b = (a & !0xC000u16) | (src.spec_bits() << 14);
    let c = if compress {
        spec_with_bit(b, crate::mac::frame::FC_PAN_ID_COMPRESSION, true)
    } else {
        b
    };
    FrameControl(spec_with_bit(c, crate::mac::frame::FC_IE_PRESENT, true))
}

/// The HT1 header termination element.
pub open spec fn ht1() -> Seq<u8> {
    seq![0x00u8, 0x3Fu8]
}

/// Header of an Enhanced Beacon Request (Figure D-1).
pub open spec fn ebr_header(seq: u8, ext: ExtendedAddress) -> HeaderView {
    HeaderView {
        frame_control: fc_v2(FrameType::Command, AddressMode::Short, AddressMode::Extended, true),
        sequence: Some(seq),
        dst_pan: Some(PanId(PAN_BROADCAST_RAW)),
        dst: broadcast_dst(),
        src_pan: None,
        src: MacAddress::Extended(ext),
        header_ies: ht1(),
    }
}

/// Header of an Enhanced Beacon (D.11.1.2).
pub open spec fn eb_header(seq: u8, pan: PanId, ext: ExtendedAddress) -> HeaderView {
    HeaderView {
        frame_control: fc_v2(FrameType::Beacon, AddressMode::Absent, AddressMode::Extended, false),
        sequence: Some(seq),
        dst_pan: None,
        dst: MacAddress::Absent,
        src_pan: Some(pan),
        src: MacAddress::Extended(ext),
        header_ies: ht1(),
    }
}

/// `v` queued if it fits, otherwise nothing.
pub open spec fn queued_if_fits(v: MacServiceView, f: Option<Seq<u8>>, kind: InFlightKind, seq: u8, options: TxOptions) -> MacServiceView {
    match f {
        None => v,
        Some(frame) => v.enqueued(QueuedTxView { kind, frame, seq, ack_request: false, options }).0,
    }
}

impl MacServiceView {
    /// With a beacon request of an active scan queued.
    pub open spec fn beacon_request_sent(self) -> MacServiceView {
        let seq = self.pib.dsn;
        let h = HeaderView::spec_new(
            FrameType::Command,
            seq,
            PanId(PAN_BROADCAST_RAW),
            broadcast_dst(),
            PanId(PAN_BROADCAST_RAW),
            MacAddress::Absent,
        );
        queued_if_fits(
            self.dsn_used(),
            spec_frame(h, MacCommandView::BeaconRequest.spec_encode()),
            InFlightKind::BeaconRequest,
            seq,
            csma_options(false, None),
        )
    }

    /// With an Enhanced Beacon Request carrying `req` queued.
    pub open spec fn ebr_sent(self, req: EnhancedBeaconRequest) -> MacServiceView {
        let seq = self.pib.dsn;
        queued_if_fits(
            self.dsn_used(),
            spec_frame(ebr_header(seq, self.pib.extended_address), req.spec_encode()),
            InFlightKind::BeaconRequest,
            seq,
            csma_options(false, req.tx_power),
        )
    }

    /// With the scan moved to its next channel, or finished.
    pub open spec fn scan_advanced(self) -> MacServiceView {
        match self.scan {
            None => self,
            Some(s) => match next_scan_channel(s.channels, s.current) {
                Some(ch) => {
                    let v = MacServiceView {
                        scan: Some(ScanState { current: Some(ch), dwell_end: after(self.now, s.dwell), ..s }),
                        ..self
                    }.with_action(MacActionView::SetChannel { page: self.pib.page, channel: ch });
                    match s.kind {
                        ScanKind::Active => match s.enhanced {
                            Some(req) => v.ebr_sent(req),
                            None => v.beacon_request_sent(),
                        },
                        ScanKind::Energy => v.with_action(
                            MacActionView::EnergyDetect { duration_symbols: s.duration_symbols },
                        ),
                    }
                },
                None => MacServiceView { scan: None, ..self }.with_action(
                    MacActionView::SetChannel { page: s.restore.0, channel: s.restore.1 },
                ).with_event(MacEvent::ScanConfirm { kind: s.kind, channels: s.channels }),
            },
        }
    }

    /// MLME-SCAN.request: the state after it and its result.
    pub open spec fn scan_started(
        self,
        kind: ScanKind,
        channels: ChannelMask,
        duration: u8,
        enhanced: Option<EnhancedBeaconRequest>,
    ) -> (MacServiceView, Result<(), MacError>) {
        if self.scan is Some || self.assoc is Some {
            (self, Err(MacError::Busy))
        } else if channels.0 & crate::types::CHANNEL_BITS == 0 {
            (self, Err(MacError::InvalidRequest))
        } else {
            (
                MacServiceView {
                    energy: Seq::new(ENERGY_SLOTS as nat, |i: int| 0u8),
                    scan: Some(
                        ScanState {
                            kind,
                            channels,
                            current: None,
                            dwell_end: self.now,
                            dwell: Duration(spec_symbols_to_ms(spec_scan_symbols(duration))),
                            duration_symbols: spec_scan_symbols(duration) as u32,
                            restore: (self.pib.page, self.pib.channel),
                            enhanced,
                        },
                    ),
                    ..self
                }.scan_advanced(),
                Ok(()),
            )
        }
    }

    /// With an energy measurement of the current channel recorded.
    pub open spec fn energy_recorded(self, level: u8) -> MacServiceView {
        match self.scan {
            Some(s) => if s.kind == ScanKind::Energy && s.current is Some && s.current.unwrap().0 < ENERGY_SLOTS {
                let i = s.current.unwrap().0 as int;
                let old_level = self.energy[i];
                MacServiceView {
                    energy: self.energy.update(i, if level > old_level { level } else { old_level }),
                    ..self
                }.scan_advanced()
            } else {
                self
            },
            None => self,
        }
    }
}

fn next_channel(mask: ChannelMask, cur: Option<Channel>) -> (r: Option<Channel>)
    ensures
        r == next_scan_channel(mask, cur),
{
    let mut c: u8 = match cur {
        None => 0,
        Some(ch) => if ch.0 >= 27 {
            27
        } else {
            ch.0 + 1
        },
    };
    proof {
        if let Some(ch) = cur {
            if ch.0 >= 27 {
                assert(first_channel_from(mask, ch.0 as nat + 1) == None::<Channel>);
            }
        }
    }
    while c < 27
        invariant
            c <= 27,
            next_scan_channel(mask, cur) == first_channel_from(mask, c as nat),
        decreases 27 - c,
    {
        if (mask.0 >> (c as u32)) & 1 == 1 {
            return Some(Channel(c));
        }
        c = c + 1;
    }
    None
}

/// The HT1 element octets.
fn ht1_bytes() -> (s: &'static [u8])
    ensures
        s@ == ht1(),
{
    let s: &'static [u8] = &[0x00u8, 0x3Fu8];
    assert(s@ =~= ht1());
    s
}

fn fc_v2_exec(frame_type: FrameType, dst: AddressMode, src: AddressMode, compress: bool) -> (fc: FrameControl)
    ensures
        fc == fc_v2(frame_type, dst, src, compress),
{
    let fc = FrameControl::new(frame_type, FrameVersion::V2015).with_dst_mode(dst).with_src_mode(src);
    let fc = if compress {
        fc.with_pan_id_compression(true)
    } else {
        fc
    };
    fc.with_ie_present(true)
}

impl MacService {
    /// Starts an active or energy scan over `channels` with the IEEE
    /// scan-duration exponent `duration`. Beacons are delivered through
    /// [`RxDisposition::Beacon`]; completion through
    /// [`MacEvent::ScanConfirm`].
    pub fn scan(&mut self, kind: ScanKind, channels: ChannelMask, duration: u8) -> (r: Result<(), MacError>)
        requires
            old(self).wf(),
        ensures
            final(self).wf(),
            (final(self)@, r) == old(self)@.scan_started(kind, channels, duration, None),
    {
        self.scan_with(kind, channels, duration, None)
    }

    /// An active scan that sends Enhanced Beacon Requests (Annex
    /// D.11.1): `request` carries the EB Filter IE (joining) or the
    /// Rejoin IE (rejoining); the TX Power IE is filled with the
    /// maximum power when absent (D.11.2.4.2).
    pub fn scan_enhanced(&mut self, channels: ChannelMask, duration: u8, request: EnhancedBeaconRequest) -> (r: Result<
        (),
        MacError,
    >)
        requires
            old(self).wf(),
        ensures
            final(self).wf(),
            (final(self)@, r) == old(self)@.scan_started(
                ScanKind::Active,
                channels,
                duration,
                Some(
                    EnhancedBeaconRequest {
                        tx_power: if request.tx_power is Some {
                            request.tx_power
                        } else {
                            Some(old(self)@.power_limits.max_dbm)
                        },
                        ..request
                    },
                ),
            ),
    {
        let p = match request.tx_power {
            Some(p) => Some(p),
            None => Some(self.power.limits().max_dbm),
        };
        let request = EnhancedBeaconRequest { filter: request.filter, rejoin: request.rejoin, tx_power: p };
        self.scan_with(ScanKind::Active, channels, duration, Some(request))
    }

    fn scan_with(&mut self, kind: ScanKind, channels: ChannelMask, duration: u8, enhanced: Option<EnhancedBeaconRequest>) -> (r:
        Result<(), MacError>)
        requires
            old(self).wf(),
        ensures
            final(self).wf(),
            (final(self)@, r) == old(self)@.scan_started(kind, channels, duration, enhanced),
    {
        if self.scan.is_some() || self.assoc.is_some() {
            return Err(MacError::Busy);
        }
        if channels.is_empty() {
            return Err(MacError::InvalidRequest);
        }
        let dwell = scan_duration_per_channel(duration);
        let sym = scan_symbols_per_channel(duration);
        self.energy = zero_energy();
        self.scan = Some(
            ScanState {
                kind,
                channels,
                current: None,
                dwell_end: self.now,
                dwell,
                duration_symbols: sym as u32,
                restore: (self.pib.page, self.pib.channel),
                enhanced,
            },
        );
        self.scan_next_channel();
        Ok(())
    }

    fn scan_next_channel(&mut self)
        requires
            old(self).wf(),
        ensures
            final(self).wf(),
            final(self)@ == old(self)@.scan_advanced(),
    {
        let s = match self.scan {
            Some(s) => s,
            None => return,
        };
        match next_channel(s.channels, s.current) {
            Some(ch) => {
                let dwell_end = self.now.plus(s.dwell);
                self.scan = Some(ScanState { current: Some(ch), dwell_end, ..s });
                let page = self.pib.page;
                self.push_action(MacAction::SetChannel { page, channel: ch });
                match s.kind {
                    ScanKind::Active => match s.enhanced {
                        Some(req) => self.send_enhanced_beacon_request(req),
                        None => self.send_beacon_request(),
                    },
                    ScanKind::Energy => {
                        self.push_action(MacAction::EnergyDetect { duration_symbols: s.duration_symbols });
                    },
                }
            },
            None => {
                self.scan = None;
                self.push_action(MacAction::SetChannel { page: s.restore.0, channel: s.restore.1 });
                self.push_event(MacEvent::ScanConfirm { kind: s.kind, channels: s.channels });
            },
        }
    }

    fn send_beacon_request(&mut self)
        requires
            old(self).wf(),
        ensures
            final(self).wf(),
            final(self)@ == old(self)@.beacon_request_sent(),
    {
        let seq = self.next_dsn();
        let header = Header::new(
            FrameType::Command,
            seq,
            PanId(PAN_BROADCAST_RAW),
            MacAddress::Short(ShortAddress(BROADCAST_ALL_RAW)),
            PanId(PAN_BROADCAST_RAW),
            MacAddress::Absent,
        );
        let body = command_bytes(MacCommand::BeaconRequest);
        if let Ok(frame) = build_frame(&header, body.as_slice()) {
            let _ = self.enqueue(
                QueuedTx {
                    kind: InFlightKind::BeaconRequest,
                    frame,
                    seq,
                    ack_request: false,
                    options: TxOptions { ack_request: false, csma: true, tx_power_dbm: None },
                },
            );
        }
    }

    /// Sends an Enhanced Beacon Request (D.11.1.1, Figure D-1): frame
    /// version 2, broadcast PAN and short destination, extended source
    /// with PAN ID compression, HT1 then the payload IEs.
    fn send_enhanced_beacon_request(&mut self, request: EnhancedBeaconRequest)
        requires
            old(self).wf(),
        ensures
            final(self).wf(),
            final(self)@ == old(self)@.ebr_sent(request),
    {
        let seq = self.next_dsn();
        let header = Header {
            frame_control: fc_v2_exec(FrameType::Command, AddressMode::Short, AddressMode::Extended, true),
            sequence: Some(seq),
            dst_pan: Some(PanId(PAN_BROADCAST_RAW)),
            dst: MacAddress::Short(ShortAddress(BROADCAST_ALL_RAW)),
            src_pan: None,
            src: MacAddress::Extended(self.pib.extended_address),
            header_ies: ht1_bytes(),
        };
        let mut body: Vec<u8> = Vec::new();
        let _ = request.write(&mut body);
        assert(body@ =~= request.spec_encode());
        if let Ok(frame) = build_frame(&header, body.as_slice()) {
            let _ = self.enqueue(
                QueuedTx {
                    kind: InFlightKind::BeaconRequest,
                    frame,
                    seq,
                    ack_request: false,
                    options: TxOptions { ack_request: false, csma: true, tx_power_dbm: request.tx_power },
                },
            );
        }
    }

    /// Reports the result of a [`MacAction::EnergyDetect`]: the level is
    /// kept when it is the highest seen on the channel, and the scan moves
    /// on at once.
    pub fn on_energy_result(&mut self, level: u8)
        requires
            old(self).wf(),
        ensures
            final(self).wf(),
            final(self)@ == old(self)@.energy_recorded(level),
    {
        if let Some(s) = self.scan {
            if s.kind == ScanKind::Energy {
                if let Some(ch) = s.current {
                    if (ch.0 as usize) < ENERGY_SLOTS {
                        let i = ch.0 as usize;
                        let old_level = self.energy[i];
                        let l = if level > old_level {
                            level
                        } else {
                            old_level
                        };
                        self.energy.set(i, l);
                        self.scan_next_channel();
                    }
                }
            }
        }
    }
}


/// The indirect transaction has expired at `now`.
pub open spec fn expired_at(e: IndirectView, now: Instant) -> bool {
    now.0 >= e.expires.0
}

impl MacServiceView {
    /// With the expiry of an indirect transaction for `kind` reported.
    pub open spec fn expiry_reported(self, kind: InFlightKind) -> MacServiceView {
        match kind {
            InFlightKind::IndirectData { handle } => self.with_event(
                MacEvent::DataConfirm { handle, status: TxStatus::TransactionExpired, frame_pending: false },
            ),
            InFlightKind::DeferredData { handle } => self.with_event(
                MacEvent::DataConfirm { handle, status: TxStatus::TransactionExpired, frame_pending: false },
            ),
            InFlightKind::IndirectAssocResponse { device } => self.with_event(
                MacEvent::CommStatus { device, status: TxStatus::TransactionExpired },
            ),
            _ => self,
        }
    }

    /// With the expiry of each transaction of `ks` reported, in order.
    pub open spec fn expiries_reported(self, ks: Seq<IndirectView>) -> MacServiceView
        decreases ks.len(),
    {
        if ks.len() == 0 {
            self
        } else {
            self.expiries_reported(ks.drop_last()).expiry_reported(ks.last().kind)
        }
    }

    /// The software acknowledgement timer at `now`.
    pub open spec fn ack_timer_fired(self, now: Instant) -> MacServiceView {
        match self.in_flight {
            Some(f) => match f.ack_deadline {
                Some(d) => if now.0 >= d.0 {
                    let v = MacServiceView { in_flight: None, ..self };
                    if f.retries_left > 0 {
                        v.retransmitted(InFlightView { retries_left: (f.retries_left - 1) as u8, ..f })
                    } else {
                        v.finished(f.kind, TxStatus::NoAck, false)
                    }
                } else {
                    self
                },
                None => self,
            },
            None => self,
        }
    }

    /// Indirect transactions expiring at `now`.
    pub open spec fn indirect_expired(self, now: Instant) -> MacServiceView {
        let gone = self.indirect.filter(|e: IndirectView| expired_at(e, now));
        if gone.len() == 0 {
            self
        } else {
            MacServiceView {
                indirect: self.indirect.filter(|e: IndirectView| !expired_at(e, now)),
                ..self
            }.pending_updated().expiries_reported(gone)
        }
    }

    /// The active scan's dwell timer at `now`.
    pub open spec fn dwell_fired(self, now: Instant) -> MacServiceView {
        match self.scan {
            Some(s) => if s.kind == ScanKind::Active && s.current is Some && now.0 >= s.dwell_end.0 {
                self.scan_advanced()
            } else {
                self
            },
            None => self,
        }
    }

    /// The association timers at `now`.
    pub open spec fn assoc_timer_fired(self, now: Instant) -> MacServiceView {
        match self.assoc {
            Some(a) => match a.phase {
                AssocPhase::WaitingResponseTime { at } => if now.0 >= at.0 {
                    let seq = self.pib.dsn;
                    let h = with_ack(
                        HeaderView::spec_new(
                            FrameType::Command,
                            seq,
                            a.pan_id,
                            a.coordinator,
                            a.pan_id,
                            MacAddress::Extended(self.pib.extended_address),
                        ),
                        true,
                    );
                    let v = self.dsn_used();
                    match spec_frame(h, MacCommandView::DataRequest.spec_encode()) {
                        None => v,
                        Some(frame) => if v.tx_queue.len() < TX_QUEUE_CAPACITY {
                            MacServiceView {
                                assoc: assoc_in_phase(
                                    v.assoc,
                                    AssocPhase::Polling { deadline: after(now, self.config.response_wait) },
                                ),
                                ..v.with_queued(
                                    QueuedTxView {
                                        kind: InFlightKind::AssocDataRequest,
                                        frame,
                                        seq,
                                        ack_request: true,
                                        options: csma_options(true, None),
                                    },
                                )
                            }
                        } else {
                            MacServiceView { assoc: None, ..v }.with_event(
                                MacEvent::AssociateConfirm {
                                    short_address: ShortAddress(NO_SHORT_ADDRESS_RAW),
                                    status: MacStatus::TransactionOverflow,
                                },
                            )
                        },
                    }
                } else {
                    self
                },
                AssocPhase::Polling { deadline } => if now.0 >= deadline.0 {
                    MacServiceView { assoc: None, ..self }.with_event(
                        MacEvent::AssociateConfirm {
                            short_address: ShortAddress(NO_SHORT_ADDRESS_RAW),
                            status: MacStatus::NoData,
                        },
                    )
                } else {
                    self
                },
                AssocPhase::Requesting => self,
            },
            None => self,
        }
    }

    /// The listening window after a poll at `now`.
    pub open spec fn poll_wait_fired(self, now: Instant) -> MacServiceView {
        match self.poll_wait_until {
            Some(p) => if now.0 >= p.0 {
                MacServiceView { poll_wait_until: None, ..self }
            } else {
                self
            },
            None => self,
        }
    }

    /// The state after time advanced to `now` and every due timer fired:
    /// unconfirmed power entries, the software acknowledgement, indirect
    /// transactions, the scan dwell, the association and the poll
    /// window, in that order.
    pub open spec fn timers_fired(self, now: Instant) -> MacServiceView {
        MacServiceView {
            now,
            power: self.power.filter(|e: PowerEntry| crate::mac::power::still_valid(e, now)),
            ..self
        }.ack_timer_fired(now).indirect_expired(now).dwell_fired(now).assoc_timer_fired(now).poll_wait_fired(now)
    }
}

impl MacService {
    /// Advances time and fires expired timers. Must be called at least by
    /// [`MacService::next_deadline`] and before feeding inputs so that
    /// timestamps are current.
    pub fn poll_timers(&mut self, now: Instant)
        requires
            old(self).wf(),
        ensures
            final(self).wf(),
            final(self)@ == old(self)@.timers_fired(now),
    {
        self.advance_clock(now);
        self.fire_ack_timer(now);
        self.expire_indirect(now);
        self.fire_dwell_timer(now);
        self.fire_assoc_timer(now);
        self.fire_poll_wait(now);
    }

    fn advance_clock(&mut self, now: Instant)
        requires
            old(self).wf(),
        ensures
            final(self).wf(),
            final(self)@ == (MacServiceView {
                now,
                power: old(self)@.power.filter(|e: PowerEntry| crate::mac::power::still_valid(e, now)),
                ..old(self)@
            }),
    {
        self.now = now;
        let ghost p0 = self.power@;
        self.power.expire(now);
        proof {
            p0.lemma_filter_len(|e: PowerEntry| crate::mac::power::still_valid(e, now));
        }
    }

    fn fire_dwell_timer(&mut self, now: Instant)
        requires
            old(self).wf(),
        ensures
            final(self).wf(),
            final(self)@ == old(self)@.dwell_fired(now),
    {
        if let Some(s) = self.scan {
            if s.kind == ScanKind::Active && s.current.is_some() && now.has_reached(s.dwell_end) {
                self.scan_next_channel();
            }
        }
    }

    fn fire_poll_wait(&mut self, now: Instant)
        requires
            old(self).wf(),
        ensures
            final(self).wf(),
            final(self)@ == old(self)@.poll_wait_fired(now),
    {
        if let Some(p) = self.poll_wait_until {
            if now.has_reached(p) {
                self.poll_wait_until = None;
            }
        }
    }

    fn fire_ack_timer(&mut self, now: Instant)
        requires
            old(self).wf(),
        ensures
            final(self).wf(),
            final(self)@ == old(self)@.ack_timer_fired(now),
    {
        let due = match &self.in_flight {
            Some(f) => match f.ack_deadline {
                Some(d) => now.has_reached(d),
                None => false,
            },
            None => false,
        };
        if !due {
            return;
        }
        let mut f = match self.in_flight.take() {
            Some(f) => f,
            None => return,
        };
        if f.retries_left > 0 {
            f.retries_left = f.retries_left - 1;
            self.retransmit(f);
        } else {
            self.finish_in_flight(f.kind, TxStatus::NoAck, false);
        }
    }

    fn expire_indirect(&mut self, now: Instant)
        requires
            old(self).wf(),
        ensures
            final(self).wf(),
            final(self)@ == old(self)@.indirect_expired(now),
    {
        let ghost orig = self@.indirect;
        let ghost keep = |e: IndirectView| !expired_at(e, now);
        let ghost gone_p = |e: IndirectView| expired_at(e, now);
        let mut rest: Vec<IndirectEntry> = Vec::new();
        std::mem::swap(&mut rest, &mut self.indirect);
        let ghost all = rest@;
        let total = rest.len();
        let mut expired: Vec<IndirectEntry> = Vec::new();
        let mut k: usize = 0;
        while rest.len() > 0
            invariant
                k <= all.len(),
                all.len() == total,
                rest@.len() + k == all.len(),
                rest@ == all.skip(k as int),
                all.map_values(|e: IndirectEntry| e@) == orig,
                self@.indirect == orig.take(k as int).filter(keep),
                expired@.map_values(|e: IndirectEntry| e@) == orig.take(k as int).filter(gone_p),
                self@.indirect.len() <= k,
                self@ == (MacServiceView { indirect: self@.indirect, ..old(self)@ }),
                keep == (|e: IndirectView| !expired_at(e, now)),
                gone_p == (|e: IndirectView| expired_at(e, now)),
                old(self).wf(),
                self.power.wf(),
            decreases rest@.len(),
        {
            let e = rest.remove(0);
            proof {
                assert(all[k as int] == e);
                assert(rest@ =~= all.skip(k + 1));
                assert(orig.take(k + 1) =~= orig.take(k as int).push(e@));
                orig.take(k as int).lemma_filter_push(e@, keep);
                orig.take(k as int).lemma_filter_push(e@, gone_p);
            }
            let ghost prev = self@.indirect;
            let ghost prev_x = expired@.map_values(|e: IndirectEntry| e@);
            if now.has_reached(e.expires) {
                expired.push(e);
                assert(expired@.map_values(|e: IndirectEntry| e@) =~= prev_x.push(e@));
            } else {
                self.indirect.push(e);
                assert(self@.indirect =~= prev.push(e@));
            }
            k = k + 1;
        }
        proof {
            assert(orig.take(k as int) =~= orig);
        }
        let ghost gone = orig.filter(gone_p);
        if expired.len() == 0 {
            proof {
                orig.lemma_filter_len(keep);
                lemma_filter_none(orig, keep, gone_p);
            }
            return;
        }
        self.update_pending_list();
        let ghost v1 = self@;
        let mut i: usize = 0;
        while i < expired.len()
            invariant
                i <= expired@.len(),
                expired@.map_values(|e: IndirectEntry| e@) == gone,
                self@ == v1.expiries_reported(gone.take(i as int)),
                self.wf(),
            decreases expired@.len() - i,
        {
            proof {
                assert(gone.take(i + 1).drop_last() =~= gone.take(i as int));
                assert(gone.take(i + 1).last() == expired@[i as int]@);
            }
            match expired[i].kind {
                InFlightKind::IndirectData { handle } | InFlightKind::DeferredData { handle } => {
                    self.push_event(
                        MacEvent::DataConfirm { handle, status: TxStatus::TransactionExpired, frame_pending: false },
                    );
                },
                InFlightKind::IndirectAssocResponse { device } => {
                    self.push_event(MacEvent::CommStatus { device, status: TxStatus::TransactionExpired });
                },
                _ => {},
            }
            i = i + 1;
        }
        proof {
            assert(gone.take(i as int) =~= gone);
        }
    }

    fn fire_assoc_timer(&mut self, now: Instant)
        requires
            old(self).wf(),
        ensures
            final(self).wf(),
            final(self)@ == old(self)@.assoc_timer_fired(now),
    {
        let a = match self.assoc {
            Some(a) => a,
            None => return,
        };
        match a.phase {
            AssocPhase::WaitingResponseTime { at } => {
                if !now.has_reached(at) {
                    return;
                }
                let seq = self.next_dsn();
                let header = acked(
                    Header::new(
                        FrameType::Command,
                        seq,
                        a.pan_id,
                        a.coordinator,
                        a.pan_id,
                        MacAddress::Extended(self.pib.extended_address),
                    ),
                    true,
                );
                let body = command_bytes(MacCommand::DataRequest);
                if let Ok(frame) = build_frame(&header, body.as_slice()) {
                    let q = QueuedTx {
                        kind: InFlightKind::AssocDataRequest,
                        frame,
                        seq,
                        ack_request: true,
                        options: TxOptions { ack_request: true, csma: true, tx_power_dbm: None },
                    };
                    if self.enqueue(q).is_ok() {
                        let deadline = now.plus(self.config.response_wait);
                        if let Some(cur) = self.assoc {
                            self.assoc = Some(AssocState { phase: AssocPhase::Polling { deadline }, ..cur });
                        }
                    } else {
                        self.assoc = None;
                        self.push_event(
                            MacEvent::AssociateConfirm {
                                short_address: ShortAddress(NO_SHORT_ADDRESS_RAW),
                                status: MacStatus::TransactionOverflow,
                            },
                        );
                    }
                }
            },
            AssocPhase::Polling { deadline } => {
                if now.has_reached(deadline) {
                    self.assoc = None;
                    self.push_event(
                        MacEvent::AssociateConfirm {
                            short_address: ShortAddress(NO_SHORT_ADDRESS_RAW),
                            status: MacStatus::NoData,
                        },
                    );
                }
            },
            AssocPhase::Requesting => {},
        }
    }
}

/// When `gone` selects nothing, the complementary filter keeps all.
proof fn lemma_filter_none(
    s: Seq<IndirectView>,
    keep: spec_fn(IndirectView) -> bool,
    gone: spec_fn(IndirectView) -> bool,
)
    requires
        s.filter(gone).len() == 0,
        forall|e: IndirectView| #[trigger] keep(e) == !gone(e),
    ensures
        s.filter(keep) == s,
    decreases s.len(),
{
    reveal(Seq::filter);
    if s.len() > 0 {
        let t = s.drop_last();
        if gone(s.last()) {
            assert(s.filter(gone) == t.filter(gone).push(s.last()));
            assert(false);
        } else {
            assert(s.filter(gone) == t.filter(gone));
            lemma_filter_none(t, keep, gone);
            assert(s =~= t.push(s.last()));
        }
    } else {
        assert(s.filter(keep) =~= s);
    }
}


/// The mathematical content of an [`RxDisposition`].
pub enum RxDispositionView {
    /// Handled inside the MAC.
    Handled,
    /// A data frame.
    Data { header: HeaderView, payload: Seq<u8>, meta: RxMetadata },
    /// A beacon.
    Beacon { header: HeaderView, beacon: crate::mac::frame::BeaconView, meta: RxMetadata },
    /// Another frame exposed for diagnostics.
    Other { header: HeaderView, payload: Seq<u8>, meta: RxMetadata },
}

impl<'a> View for RxDisposition<'a> {
    type V = RxDispositionView;

    open spec fn view(&self) -> RxDispositionView {
        match *self {
            RxDisposition::Handled => RxDispositionView::Handled,
            RxDisposition::Data { frame, meta } => RxDispositionView::Data {
                header: frame.header@,
                payload: frame.payload@,
                meta,
            },
            RxDisposition::Beacon { header, beacon, meta } => RxDispositionView::Beacon {
                header: header@,
                beacon: beacon@,
                meta,
            },
            RxDisposition::Other { frame, meta } => RxDispositionView::Other {
                header: frame.header@,
                payload: frame.payload@,
                meta,
            },
        }
    }
}

/// A version 2 frame carrying IEs.
pub open spec fn is_enhanced(h: HeaderView) -> bool {
    h.frame_control.spec_version() == FrameVersion::V2015 && h.frame_control.flag(crate::mac::frame::FC_IE_PRESENT)
}

/// The PAN identifier that applies to the destination.
pub open spec fn eff_dst_pan(h: HeaderView) -> Option<PanId> {
    if h.dst_pan is Some {
        h.dst_pan
    } else {
        h.src_pan
    }
}

/// The PAN identifier that applies to the source.
pub open spec fn eff_src_pan(h: HeaderView) -> Option<PanId> {
    if h.src_pan is Some {
        h.src_pan
    } else {
        h.dst_pan
    }
}

/// The header an Enhanced Beacon is delivered with: the sender's short
/// address from the EB Payload IE as source, no destination.
pub open spec fn eb_rx_header(h: HeaderView, eb: crate::mac::ie::EnhancedBeaconView) -> HeaderView {
    HeaderView {
        frame_control: h.frame_control,
        sequence: h.sequence,
        dst_pan: None,
        dst: MacAddress::Absent,
        src_pan: h.src_pan,
        src: MacAddress::Short(eb.sender_short),
        header_ies: Seq::empty(),
    }
}

/// The header of an acknowledgement.
pub open spec fn ack_header(seq: u8, frame_pending: bool) -> HeaderView {
    HeaderView {
        frame_control: FrameControl(spec_with_bit(0x0002, crate::mac::frame::FC_FRAME_PENDING, frame_pending)),
        sequence: Some(seq),
        dst_pan: None,
        dst: MacAddress::Absent,
        src_pan: None,
        src: MacAddress::Absent,
        header_ies: Seq::empty(),
    }
}

/// Index of the first indirect transaction for `a`.
pub open spec fn first_for(s: Seq<IndirectView>, a: MacAddress) -> Option<int>
    decreases s.len(),
{
    if s.len() == 0 {
        None
    } else if s[0].dst == a {
        Some(0)
    } else {
        match first_for(s.drop_first(), a) {
            Some(i) => Some(i + 1),
            None => None,
        }
    }
}

/// The transmit power an Enhanced Beacon answers a request announcing
/// `requested` with: the requester's power within the limits.
pub open spec fn answer_power(limits: PowerLimits, requested: i8) -> i8 {
    limits.spec_clamp(requested)
}

impl MacServiceView {
    /// The frame is for this device (always, when the radio filters and no
    /// scan runs).
    pub open spec fn addressed_to_me(self, h: HeaderView) -> bool {
        if self.config.radio.address_filter && self.scan is None {
            true
        } else {
            let dst_pan_ok = match eff_dst_pan(h) {
                Some(p) => p == self.pib.pan_id || p == PanId(PAN_BROADCAST_RAW),
                None => false,
            };
            match h.dst {
                MacAddress::Absent => h.frame_control.spec_frame_type() == FrameType::Beacon || (self.pib.pan_coordinator
                    && eff_src_pan(h) == Some(self.pib.pan_id)),
                MacAddress::Short(a) => dst_pan_ok && (a.0 == BROADCAST_ALL_RAW || (a == self.pib.short_address && a.0
                    != NO_SHORT_ADDRESS_RAW)),
                MacAddress::Extended(e) => dst_pan_ok && e == self.pib.extended_address,
            }
        }
    }

    /// With an acknowledgement for `seq` sent, unless the radio sends its
    /// own.
    pub open spec fn ack_sent(self, seq: u8, frame_pending: bool) -> MacServiceView {
        if self.config.radio.auto_ack {
            self
        } else {
            self.with_action(
                MacActionView::Transmit {
                    handle: TxHandle(0),
                    frame: ack_header(seq, frame_pending).spec_encode(),
                    options: TxOptions { ack_request: false, csma: false, tx_power_dbm: None },
                },
            )
        }
    }

    /// An indirect transaction is held for `a`.
    pub open spec fn has_indirect_for(self, a: MacAddress) -> bool {
        exists|i: int| 0 <= i < self.indirect.len() && #[trigger] self.indirect[i].dst == a
    }

    /// An acknowledgement with `seq` arrived.
    pub open spec fn ack_received(self, seq: Option<u8>, frame_pending: bool) -> MacServiceView {
        match self.in_flight {
            None => self,
            Some(f) => if f.ack_deadline is None || Some(f.seq) != seq {
                self
            } else {
                MacServiceView { in_flight: None, ..self }.finished(f.kind, TxStatus::Success, frame_pending)
            },
        }
    }

    /// With `entry` stored in the power table (its power clamped), when
    /// the table has room.
    pub open spec fn power_set(self, entry: PowerEntry) -> MacServiceView {
        match crate::mac::power::spec_power_set(
            self.power,
            PowerEntry { tx_power_dbm: self.power_limits.spec_clamp(entry.tx_power_dbm), ..entry },
            POWER_ENTRIES as int,
        ) {
            Some(t) => MacServiceView { power: t, ..self },
            None => self,
        }
    }

    /// A beacon frame for this device arrived.
    #[verifier::opaque]
    pub open spec fn beacon_received(self, h: HeaderView, payload: Seq<u8>, meta: RxMetadata) -> MacServiceView {
        if is_enhanced(h) {
            match crate::mac::ie::spec_parse_eb(payload) {
                Err(_) => self,
                Ok(eb) => match (eb.tx_power, h.src) {
                    (Some(p), MacAddress::Extended(e)) => if self.scan is Some {
                        self.power_set(
                            PowerEntry {
                                short: eb.sender_short,
                                extended: e,
                                tx_power_dbm: p,
                                last_rssi_dbm: meta.rssi_dbm,
                                nwk_negotiated: false,
                                created: self.now,
                            },
                        )
                    } else {
                        self
                    },
                    _ => self,
                },
            }
        } else {
            match crate::mac::frame::spec_decode_beacon(payload) {
                Err(_) => self,
                Ok(b) => if self.pib.pan_coordinator && b.superframe.pan_coordinator && eff_src_pan(h) == Some(
                    self.pib.pan_id,
                ) && self.scan is None {
                    self.with_event(MacEvent::PanIdConflict { pan_id: self.pib.pan_id })
                } else {
                    self
                },
            }
        }
    }

    /// With a beacon answering a beacon request queued.
    pub open spec fn beacon_sent(self) -> MacServiceView {
        let seq = self.pib.bsn;
        let h = HeaderView::spec_new(
            FrameType::Beacon,
            seq,
            PanId(PAN_BROADCAST_RAW),
            MacAddress::Absent,
            self.pib.pan_id,
            self.own_address(),
        );
        let body = crate::mac::frame::BeaconView {
            superframe: SuperframeSpec::non_beacon_spec(self.pib.pan_coordinator, self.pib.association_permit),
            pending_short: 0,
            pending_extended: 0,
            payload: self.pib.beacon_payload,
        }.spec_encode();
        queued_if_fits(self.bsn_used(), spec_frame(h, body), InFlightKind::Beacon, seq, csma_options(false, None))
    }

    /// The Enhanced Beacon this device sends at `tx_power`.
    pub open spec fn own_eb(self, tx_power: Option<i8>) -> crate::mac::ie::EnhancedBeaconView {
        crate::mac::ie::EnhancedBeaconView {
            beacon_payload: self.pib.beacon_payload,
            superframe: SuperframeSpec::non_beacon_spec(self.pib.pan_coordinator, self.pib.association_permit),
            sender_short: self.pib.short_address,
            tx_power,
        }
    }

    /// With an Enhanced Beacon at `tx_power` queued, when it can be
    /// encoded.
    pub open spec fn eb_sent(self, tx_power: Option<i8>) -> MacServiceView {
        let seq = self.pib.bsn;
        let eb = self.own_eb(tx_power);
        if 3 + crate::mac::ie::zies_total(eb.spec_zigbee_subs()) > 0xFFFF || eb.beacon_payload.len() + 4 >= 64 {
            self.bsn_used()
        } else {
            queued_if_fits(
                self.bsn_used(),
                spec_frame(eb_header(seq, self.pib.pan_id, self.pib.extended_address), eb.spec_encode()),
                InFlightKind::Beacon,
                seq,
                csma_options(false, tx_power),
            )
        }
    }

    /// Whether an Enhanced Beacon Request is answered.
    pub open spec fn answers_ebr(self, ebr: EnhancedBeaconRequest, h: HeaderView, meta: RxMetadata) -> bool {
        match ebr.filter {
            Some(f) => (!f.permit_joining_on || self.pib.association_permit) && (match f.link_quality {
                None => true,
                Some(q) => meta.lqi >= q,
            }) && match self.pib.joining_policy {
                JoiningPolicy::NoJoin => false,
                JoiningPolicy::AllJoin => true,
                JoiningPolicy::IeeeListJoin => match h.src {
                    MacAddress::Extended(e) => self.pib.joining_ieee_list.contains(e),
                    _ => false,
                },
            },
            None => match ebr.rejoin {
                Some((epid, _)) => self.pib.beacon_payload.len() >= 11 && crate::codec::le64(
                    self.pib.beacon_payload,
                    3,
                ) == epid.0,
                None => false,
            },
        }
    }

    /// An Enhanced Beacon Request arrived (Annex D.11.1.1-D.11.1.3).
    #[verifier::opaque]
    pub open spec fn ebr_received(self, ebr: EnhancedBeaconRequest, h: HeaderView, meta: RxMetadata) -> MacServiceView {
        if !self.config.enhanced_beacons || !self.pib.beacon_capable || self.pib.pan_id == PanId(PAN_BROADCAST_RAW)
            || self.scan is Some || !self.answers_ebr(ebr, h, meta) {
            self
        } else {
            let tx_power = match ebr.tx_power {
                Some(p) => Some(answer_power(self.power_limits, p)),
                None => None,
            };
            let v = match (tx_power, h.src) {
                (Some(p), MacAddress::Extended(e)) => self.power_set(
                    PowerEntry {
                        short: match ebr.rejoin {
                            Some((_, s)) => s,
                            None => ShortAddress(NO_SHORT_ADDRESS_RAW),
                        },
                        extended: e,
                        tx_power_dbm: p,
                        last_rssi_dbm: meta.rssi_dbm,
                        nwk_negotiated: false,
                        created: self.now,
                    },
                ),
                _ => self,
            };
            v.eb_sent(tx_power)
        }
    }

    /// A Data Request (poll) from `h.src` arrived.
    #[verifier::opaque]
    pub open spec fn poll_received(self, h: HeaderView) -> MacServiceView {
        let v = self.with_event(MacEvent::PollIndication { device: h.src });
        let idx = first_for(v.indirect, h.src);
        let v1 = match h.sequence {
            Some(seq) => v.ack_sent(seq, idx is Some),
            None => v,
        };
        match idx {
            None => v1,
            Some(i) => v1.indirect_served(i),
        }
    }

    /// With the indirect transaction at `i` served to its polling child:
    /// handed over for a deferred one, queued otherwise (reported expired
    /// when the queue is full).
    pub open spec fn indirect_served(self, i: int) -> MacServiceView {
        let e = self.indirect[i];
        let v2 = MacServiceView {
            indirect: self.indirect.update(i, self.indirect.last()).drop_last(),
            ..self
        }.pending_updated();
        match e.kind {
            InFlightKind::DeferredData { handle } => v2.with_event(MacEvent::IndirectReady { handle }),
            _ => if v2.tx_queue.len() < TX_QUEUE_CAPACITY {
                v2.with_queued(
                    QueuedTxView {
                        kind: e.kind,
                        frame: e.frame,
                        seq: e.seq,
                        ack_request: true,
                        options: csma_options(true, spec_tx_power_for(v2.power, e.dst)),
                    },
                )
            } else {
                v2.expiry_reported(e.kind)
            },
        }
    }

    /// A MAC command addressed to this device arrived.
    #[verifier::opaque]
    pub open spec fn command_received(self, h: HeaderView, payload: Seq<u8>, meta: RxMetadata) -> MacServiceView {
        if is_enhanced(h) {
            match crate::mac::ie::spec_parse_ebr(payload) {
                Ok(ebr) => self.ebr_received(ebr, h, meta),
                Err(_) => self,
            }
        } else {
            match crate::mac::frame::exact(crate::mac::frame::spec_decode_mac_command(payload), payload.len() as int) {
                Err(_) => self,
                Ok(cmd) => self.mac_command_received(h, cmd, meta),
            }
        }
    }

    /// The decoded MAC command `cmd` arrived with header `h`.
    pub open spec fn mac_command_received(self, h: HeaderView, cmd: MacCommandView, meta: RxMetadata) -> MacServiceView {
        match cmd {
            MacCommandView::BeaconRequest => if self.pib.beacon_capable && self.pib.pan_id != PanId(PAN_BROADCAST_RAW)
                && self.scan is None {
                self.beacon_sent()
            } else {
                self
            },
            MacCommandView::AssociationRequest { capability } => self.assoc_request_received(h, capability, meta),
            MacCommandView::AssociationResponse { short_address, status } => self.assoc_response_received(
                h,
                short_address,
                status,
            ),
            MacCommandView::DataRequest => self.poll_received(h),
            MacCommandView::PanIdConflictNotification => self.conflict_notified(h),
            MacCommandView::Other { .. } => self,
            _ => self.acked_if_requested(h),
        }
    }

    /// With an acknowledgement sent when `h` requests one.
    pub open spec fn acked_if_requested(self, h: HeaderView) -> MacServiceView {
        if h.frame_control.flag(FC_ACK_REQUEST) && h.sequence is Some {
            self.ack_sent(h.sequence.unwrap(), false)
        } else {
            self
        }
    }

    /// With an acknowledgement sent when `h` carries a sequence number.
    pub open spec fn acked_if_sequenced(self, h: HeaderView) -> MacServiceView {
        match h.sequence {
            Some(seq) => self.ack_sent(seq, false),
            None => self,
        }
    }

    /// A PAN ID conflict notification arrived.
    pub open spec fn conflict_notified(self, h: HeaderView) -> MacServiceView {
        let v = self.acked_if_sequenced(h);
        if v.pib.pan_coordinator {
            v.with_event(MacEvent::PanIdConflict { pan_id: v.pib.pan_id })
        } else {
            v
        }
    }

    /// An association request arrived: acknowledged, then indicated
    /// upward when permitted, otherwise answered with access denied.
    pub open spec fn assoc_request_received(self, h: HeaderView, capability: MacCapability, meta: RxMetadata) -> MacServiceView {
        match h.sequence {
            None => self,
            Some(seq) => {
                let v = self.ack_sent(seq, false);
                match h.src {
                    MacAddress::Extended(device) => if v.pib.association_permit {
                        v.with_event(MacEvent::AssociateIndication { device, capability, lqi: meta.lqi })
                    } else {
                        v.associate_response(device, ShortAddress(NO_SHORT_ADDRESS_RAW), MacStatus::PanAccessDenied).0
                    },
                    _ => v,
                }
            },
        }
    }

    /// An association response arrived: acknowledged, and while polling
    /// for it, the association ends with the PIB set from it.
    pub open spec fn assoc_response_received(self, h: HeaderView, short_address: ShortAddress, status: MacStatus) -> MacServiceView {
        let v = self.acked_if_sequenced(h);
        match v.assoc {
            Some(a) => if a.phase is Polling {
                let pib = if status == MacStatus::Success {
                    PibView {
                        short_address,
                        coord_extended_address: match h.src {
                            MacAddress::Extended(e) => e,
                            _ => v.pib.coord_extended_address,
                        },
                        ..v.pib
                    }
                } else {
                    PibView { pan_id: PanId(PAN_BROADCAST_RAW), ..v.pib }
                };
                MacServiceView { assoc: None, pib, config_dirty: true, ..v }.with_event(
                    MacEvent::AssociateConfirm { short_address, status },
                )
            } else {
                v
            },
            None => v,
        }
    }

    /// The state after a frame of `bytes` was received.
    pub open spec fn received(self, bytes: Seq<u8>, meta: RxMetadata) -> MacServiceView {
        match crate::mac::frame::spec_decode_frame(bytes) {
            Err(_) => self,
            Ok((h, payload)) => {
                let t = h.frame_control.spec_frame_type();
                if t == FrameType::Ack {
                    self.ack_received(h.sequence, h.frame_control.flag(crate::mac::frame::FC_FRAME_PENDING))
                } else if !self.addressed_to_me(h) {
                    self
                } else if t == FrameType::Beacon {
                    self.beacon_received(h, payload, meta)
                } else if t == FrameType::Data {
                    if h.frame_control.flag(FC_ACK_REQUEST) && h.dst != broadcast_dst() && h.sequence is Some {
                        self.ack_sent(h.sequence.unwrap(), self.has_indirect_for(h.src))
                    } else {
                        self
                    }
                } else if t == FrameType::Command {
                    self.command_received(h, payload, meta)
                } else {
                    self
                }
            },
        }
    }

    /// What a frame of `bytes` is handed upward as.
    pub open spec fn disposition(self, bytes: Seq<u8>, meta: RxMetadata) -> RxDispositionView {
        match crate::mac::frame::spec_decode_frame(bytes) {
            Err(_) => RxDispositionView::Handled,
            Ok((h, payload)) => {
                let t = h.frame_control.spec_frame_type();
                if t == FrameType::Ack || !self.addressed_to_me(h) {
                    RxDispositionView::Handled
                } else if t == FrameType::Beacon {
                    beacon_disposition(h, payload, meta)
                } else if t == FrameType::Data {
                    RxDispositionView::Data { header: h, payload, meta }
                } else if t == FrameType::Command {
                    command_disposition(h, payload, meta)
                } else {
                    RxDispositionView::Handled
                }
            },
        }
    }
}

/// What a beacon frame is handed upward as.
#[verifier::opaque]
pub open spec fn beacon_disposition(h: HeaderView, payload: Seq<u8>, meta: RxMetadata) -> RxDispositionView {
    if is_enhanced(h) {
        match crate::mac::ie::spec_parse_eb(payload) {
            Err(_) => RxDispositionView::Handled,
            Ok(eb) => RxDispositionView::Beacon {
                header: eb_rx_header(h, eb),
                beacon: crate::mac::frame::BeaconView {
                    superframe: eb.superframe,
                    pending_short: 0,
                    pending_extended: 0,
                    payload: eb.beacon_payload,
                },
                meta,
            },
        }
    } else {
        match crate::mac::frame::spec_decode_beacon(payload) {
            Err(_) => RxDispositionView::Handled,
            Ok(b) => RxDispositionView::Beacon { header: h, beacon: b, meta },
        }
    }
}

/// What a command frame is handed upward as: only unknown commands.
#[verifier::opaque]
pub open spec fn command_disposition(h: HeaderView, payload: Seq<u8>, meta: RxMetadata) -> RxDispositionView {
    if is_enhanced(h) {
        RxDispositionView::Handled
    } else {
        match crate::mac::frame::exact(crate::mac::frame::spec_decode_mac_command(payload), payload.len() as int) {
            Ok(MacCommandView::Other { .. }) => RxDispositionView::Other { header: h, payload, meta },
            _ => RxDispositionView::Handled,
        }
    }
}

impl MacService {
    fn addressed_to_me(&self, h: &Header) -> (b: bool)
        ensures
            b == self@.addressed_to_me(h@),
    {
        if self.config.radio.address_filter && self.scan.is_none() {
            return true;
        }
        let dst_pan_ok = match h.effective_dst_pan() {
            Some(p) => p.0 == self.pib.pan_id.0 || p.0 == PAN_BROADCAST_RAW,
            None => false,
        };
        match h.dst {
            MacAddress::Absent => {
                let src_pan_ok = match h.effective_src_pan() {
                    Some(p) => p.0 == self.pib.pan_id.0,
                    None => false,
                };
                matches!(h.frame_control.frame_type(), FrameType::Beacon) || (self.pib.pan_coordinator && src_pan_ok)
            },
            MacAddress::Short(a) => dst_pan_ok && (a.0 == BROADCAST_ALL_RAW || (a.0 == self.pib.short_address.0 && a.0
                != NO_SHORT_ADDRESS_RAW)),
            MacAddress::Extended(e) => dst_pan_ok && e.0 == self.pib.extended_address.0,
        }
    }

    fn send_ack(&mut self, seq: u8, frame_pending: bool)
        requires
            old(self).wf(),
        ensures
            final(self).wf(),
            final(self)@ == old(self)@.ack_sent(seq, frame_pending),
    {
        if self.config.radio.auto_ack {
            return;
        }
        let h = Header::ack(seq, frame_pending);
        assert(h@ == ack_header(seq, frame_pending)) by {
            assert(h.header_ies@ =~= Seq::<u8>::empty());
        }
        let mut frame: Vec<u8> = Vec::new();
        h.encode(&mut frame);
        assert(frame@ =~= ack_header(seq, frame_pending).spec_encode());
        self.push_action(
            MacAction::Transmit {
                handle: TxHandle(0),
                frame,
                options: TxOptions { ack_request: false, csma: false, tx_power_dbm: None },
            },
        );
    }

    fn has_indirect_for(&self, a: MacAddress) -> (b: bool)
        ensures
            b == self@.has_indirect_for(a),
    {
        let mut i: usize = 0;
        while i < self.indirect.len()
            invariant
                i <= self.indirect@.len(),
                self@.indirect.len() == self.indirect@.len(),
                forall|j: int| 0 <= j < i ==> #[trigger] self@.indirect[j].dst != a,
            decreases self.indirect@.len() - i,
        {
            assert(self@.indirect[i as int] == self.indirect@[i as int]@);
            if self.indirect[i].dst == a {
                assert(self@.indirect[i as int].dst == a);
                return true;
            }
            i = i + 1;
        }
        false
    }

    fn find_indirect(&self, a: MacAddress) -> (r: Option<usize>)
        ensures
            match first_for(self@.indirect, a) {
                Some(i) => r == Some(i as usize) && 0 <= i < self@.indirect.len() && self@.indirect[i].dst == a,
                None => r is None,
            },
    {
        let ghost s = self@.indirect;
        assert(s.skip(0) =~= s);
        let mut i: usize = 0;
        while i < self.indirect.len()
            invariant
                i <= self.indirect@.len(),
                s == self@.indirect,
                s.len() == self.indirect@.len(),
                first_for(s, a) == match first_for(s.skip(i as int), a) {
                    Some(j) => Some(j + i),
                    None => None::<int>,
                },
            decreases self.indirect@.len() - i,
        {
            assert(s.skip(i as int)[0] == self.indirect@[i as int]@);
            assert(s.skip(i as int).drop_first() =~= s.skip(i + 1));
            if self.indirect[i].dst == a {
                return Some(i);
            }
            i = i + 1;
        }
        None
    }

    fn on_ack(&mut self, seq: Option<u8>, frame_pending: bool)
        requires
            old(self).wf(),
        ensures
            final(self).wf(),
            final(self)@ == old(self)@.ack_received(seq, frame_pending),
    {
        let matched = match &self.in_flight {
            Some(f) => f.ack_deadline.is_some() && seq == Some(f.seq),
            None => false,
        };
        if !matched {
            return;
        }
        if let Some(f) = self.in_flight.take() {
            self.finish_in_flight(f.kind, TxStatus::Success, frame_pending);
        }
    }

    fn store_power(&mut self, entry: PowerEntry)
        requires
            old(self).wf(),
        ensures
            final(self).wf(),
            final(self)@ == old(self)@.power_set(entry),
    {
        let _ = self.power.set(entry);
    }

    fn on_beacon<'a>(&mut self, frame: Frame<'a>, meta: RxMetadata) -> (r: RxDisposition<'a>)
        requires
            old(self).wf(),
        ensures
            final(self).wf(),
            final(self)@ == old(self)@.beacon_received(frame.header@, frame.payload@, meta),
            r@ == beacon_disposition(frame.header@, frame.payload@, meta),
    {
        reveal(MacServiceView::beacon_received);
        reveal(beacon_disposition);
        let h = frame.header;
        if matches!(h.frame_control.version(), FrameVersion::V2015) && h.frame_control.ie_present() {
            let eb = match EnhancedBeacon::parse(frame.payload) {
                Ok(eb) => eb,
                Err(_) => return RxDisposition::Handled,
            };
            if let (Some(p), MacAddress::Extended(e)) = (eb.tx_power, h.src) {
                if self.scan.is_some() {
                    self.store_power(
                        PowerEntry {
                            short: eb.sender_short,
                            extended: e,
                            tx_power_dbm: p,
                            last_rssi_dbm: meta.rssi_dbm,
                            nwk_negotiated: false,
                            created: self.now,
                        },
                    );
                }
            }
            let beacon = Beacon { superframe: eb.superframe, pending_short: 0, pending_extended: 0, payload: eb.beacon_payload };
            let empty: &'a [u8] = &[];
            assert(empty@ =~= Seq::<u8>::empty());
            let header = Header {
                frame_control: h.frame_control,
                sequence: h.sequence,
                dst_pan: None,
                dst: MacAddress::Absent,
                src_pan: h.src_pan,
                src: MacAddress::Short(eb.sender_short),
                header_ies: empty,
            };
            RxDisposition::Beacon { header, beacon, meta }
        } else {
            let beacon = match Beacon::decode_exact(frame.payload) {
                Ok(b) => b,
                Err(_) => return RxDisposition::Handled,
            };
            let src_pan_ok = match h.effective_src_pan() {
                Some(p) => p.0 == self.pib.pan_id.0,
                None => false,
            };
            if self.pib.pan_coordinator && beacon.superframe.pan_coordinator && src_pan_ok && self.scan.is_none() {
                let pan_id = self.pib.pan_id;
                self.push_event(MacEvent::PanIdConflict { pan_id });
            }
            RxDisposition::Beacon { header: h, beacon, meta }
        }
    }

    /// Processes a received frame. `bytes` excludes the FCS.
    ///
    /// Returns what the upper layer must handle; data and beacons are
    /// borrowed from `bytes`. Malformed frames are discarded.
    pub fn on_receive<'a>(&mut self, bytes: &'a [u8], meta: RxMetadata) -> (r: RxDisposition<'a>)
        requires
            old(self).wf(),
        ensures
            final(self).wf(),
            final(self)@ == old(self)@.received(bytes@, meta),
            r@ == old(self)@.disposition(bytes@, meta),
    {
        let frame = match Frame::decode_exact(bytes) {
            Ok(f) => f,
            Err(_) => return RxDisposition::Handled,
        };
        let h = frame.header;
        let t = h.frame_control.frame_type();
        if matches!(t, FrameType::Ack) {
            self.on_ack(h.sequence, h.frame_control.frame_pending());
            return RxDisposition::Handled;
        }
        if !self.addressed_to_me(&h) {
            return RxDisposition::Handled;
        }
        match t {
            FrameType::Beacon => self.on_beacon(frame, meta),
            FrameType::Data => {
                if h.frame_control.ack_request() && !h.dst.is_broadcast() {
                    let pending = self.has_indirect_for(h.src);
                    if let Some(seq) = h.sequence {
                        self.send_ack(seq, pending);
                    }
                }
                RxDisposition::Data { frame, meta }
            },
            FrameType::Command => self.on_command(frame, meta),
            _ => RxDisposition::Handled,
        }
    }

    fn on_command<'a>(&mut self, frame: Frame<'a>, meta: RxMetadata) -> (r: RxDisposition<'a>)
        requires
            old(self).wf(),
        ensures
            final(self).wf(),
            final(self)@ == old(self)@.command_received(frame.header@, frame.payload@, meta),
            r@ == command_disposition(frame.header@, frame.payload@, meta),
    {
        reveal(MacServiceView::command_received);
        reveal(command_disposition);
        let h = frame.header;
        if matches!(h.frame_control.version(), FrameVersion::V2015) && h.frame_control.ie_present() {
            if let Ok(ebr) = EnhancedBeaconRequest::parse(frame.payload) {
                self.on_enhanced_beacon_request(&ebr, &h, meta);
            }
            return RxDisposition::Handled;
        }
        let cmd = match MacCommand::decode_exact(frame.payload) {
            Ok(c) => c,
            Err(_) => return RxDisposition::Handled,
        };
        let other = matches!(cmd, MacCommand::Other { .. });
        self.handle_command(&h, cmd, meta);
        if other {
            RxDisposition::Other { frame, meta }
        } else {
            RxDisposition::Handled
        }
    }

    fn handle_command(&mut self, h: &Header, cmd: MacCommand, meta: RxMetadata)
        requires
            old(self).wf(),
        ensures
            final(self).wf(),
            final(self)@ == old(self)@.mac_command_received(h@, cmd@, meta),
    {
        match cmd {
            MacCommand::BeaconRequest => {
                if self.pib.beacon_capable && self.pib.pan_id.0 != PAN_BROADCAST_RAW && self.scan.is_none() {
                    self.send_beacon();
                }
            },
            MacCommand::AssociationRequest { capability } => self.on_association_request(h, capability, meta),
            MacCommand::AssociationResponse { short_address, status } => self.on_association_response(
                h,
                short_address,
                status,
            ),
            MacCommand::DataRequest => self.on_data_request(h),
            MacCommand::PanIdConflictNotification => self.on_conflict_notification(h),
            MacCommand::Other { .. } => {},
            _ => {
                if h.frame_control.ack_request() {
                    if let Some(seq) = h.sequence {
                        self.send_ack(seq, false);
                    }
                }
            },
        }
    }

    fn on_conflict_notification(&mut self, h: &Header)
        requires
            old(self).wf(),
        ensures
            final(self).wf(),
            final(self)@ == old(self)@.conflict_notified(h@),
    {
        if let Some(seq) = h.sequence {
            self.send_ack(seq, false);
        }
        if self.pib.pan_coordinator {
            let pan_id = self.pib.pan_id;
            self.push_event(MacEvent::PanIdConflict { pan_id });
        }
    }

    fn on_association_request(&mut self, h: &Header, capability: MacCapability, meta: RxMetadata)
        requires
            old(self).wf(),
        ensures
            final(self).wf(),
            final(self)@ == old(self)@.assoc_request_received(h@, capability, meta),
    {
        let seq = match h.sequence {
            Some(s) => s,
            None => return,
        };
        self.send_ack(seq, false);
        if let MacAddress::Extended(device) = h.src {
            if self.pib.association_permit {
                self.push_event(MacEvent::AssociateIndication { device, capability, lqi: meta.lqi });
            } else {
                let _ = self.associate_response(device, ShortAddress(NO_SHORT_ADDRESS_RAW), MacStatus::PanAccessDenied);
            }
        }
    }

    fn on_association_response(&mut self, h: &Header, short_address: ShortAddress, status: MacStatus)
        requires
            old(self).wf(),
        ensures
            final(self).wf(),
            final(self)@ == old(self)@.assoc_response_received(h@, short_address, status),
    {
        if let Some(seq) = h.sequence {
            self.send_ack(seq, false);
        }
        if let Some(a) = self.assoc {
            if let AssocPhase::Polling { .. } = a.phase {
                self.assoc = None;
                if status == MacStatus::Success {
                    self.pib.short_address = short_address;
                    if let MacAddress::Extended(e) = h.src {
                        self.pib.coord_extended_address = e;
                    }
                } else {
                    self.pib.pan_id = PanId(PAN_BROADCAST_RAW);
                }
                self.config_dirty = true;
                self.push_event(MacEvent::AssociateConfirm { short_address, status });
            }
        }
    }

    fn on_data_request(&mut self, h: &Header)
        requires
            old(self).wf(),
        ensures
            final(self).wf(),
            final(self)@ == old(self)@.poll_received(h@),
    {
        reveal(MacServiceView::poll_received);
        self.push_event(MacEvent::PollIndication { device: h.src });
        let idx = self.find_indirect(h.src);
        if let Some(seq) = h.sequence {
            self.send_ack(seq, idx.is_some());
        }
        let i = match idx {
            Some(i) => i,
            None => return,
        };
        self.serve_indirect(i);
    }

    fn serve_indirect(&mut self, i: usize)
        requires
            old(self).wf(),
            i < old(self)@.indirect.len(),
        ensures
            final(self).wf(),
            final(self)@ == old(self)@.indirect_served(i as int),
    {
        let ghost v1 = self@;
        let entry = self.indirect.swap_remove(i);
        assert(self@.indirect =~= v1.indirect.update(i as int, v1.indirect.last()).drop_last());
        assert(entry@ == v1.indirect[i as int]);
        self.update_pending_list();
        if let InFlightKind::DeferredData { handle } = entry.kind {
            self.push_event(MacEvent::IndirectReady { handle });
            return;
        }
        let p = self.power.tx_power_for(&entry.dst);
        let kind = entry.kind;
        let q = QueuedTx {
            kind,
            frame: entry.frame,
            seq: entry.seq,
            ack_request: true,
            options: TxOptions { ack_request: true, csma: true, tx_power_dbm: p },
        };
        if self.enqueue(q).is_err() {
            match kind {
                InFlightKind::IndirectData { handle } => {
                    self.push_event(
                        MacEvent::DataConfirm { handle, status: TxStatus::TransactionExpired, frame_pending: false },
                    );
                },
                InFlightKind::IndirectAssocResponse { device } => {
                    self.push_event(MacEvent::CommStatus { device, status: TxStatus::TransactionExpired });
                },
                _ => {},
            }
        }
    }

    fn send_beacon(&mut self)
        requires
            old(self).wf(),
        ensures
            final(self).wf(),
            final(self)@ == old(self)@.beacon_sent(),
    {
        let seq = self.next_bsn();
        let src = self.own_address();
        let header = Header::new(FrameType::Beacon, seq, PanId(PAN_BROADCAST_RAW), MacAddress::Absent, self.pib.pan_id, src);
        let mut body: Vec<u8> = Vec::new();
        {
            let beacon = Beacon::non_beacon(
                self.pib.pan_coordinator,
                self.pib.association_permit,
                self.pib.beacon_payload.as_slice(),
            );
            let _ = beacon.encode(&mut body);
        }
        if let Ok(frame) = build_frame(&header, body.as_slice()) {
            let _ = self.enqueue(
                QueuedTx {
                    kind: InFlightKind::Beacon,
                    frame,
                    seq,
                    ack_request: false,
                    options: TxOptions { ack_request: false, csma: true, tx_power_dbm: None },
                },
            );
        }
    }

    fn answers_ebr(&self, ebr: &EnhancedBeaconRequest, h: &Header, meta: RxMetadata) -> (b: bool)
        ensures
            b == self@.answers_ebr(*ebr, h@, meta),
    {
        if let Some(f) = ebr.filter {
            if f.permit_joining_on && !self.pib.association_permit {
                return false;
            }
            if let Some(q) = f.link_quality {
                if meta.lqi < q {
                    return false;
                }
            }
            match self.pib.joining_policy {
                JoiningPolicy::NoJoin => false,
                JoiningPolicy::AllJoin => true,
                JoiningPolicy::IeeeListJoin => match h.src {
                    MacAddress::Extended(e) => self.joining_list_contains(e),
                    _ => false,
                },
            }
        } else if let Some((epid, _)) = ebr.rejoin {
            if self.pib.beacon_payload.len() < 11 {
                return false;
            }
            match crate::codec::read_u64_le(self.pib.beacon_payload.as_slice(), 3) {
                Ok(v) => v == epid.0,
                Err(_) => false,
            }
        } else {
            false
        }
    }

    fn joining_list_contains(&self, e: ExtendedAddress) -> (b: bool)
        ensures
            b == self@.pib.joining_ieee_list.contains(e),
    {
        let mut i: usize = 0;
        while i < self.pib.joining_ieee_list.len()
            invariant
                i <= self.pib.joining_ieee_list@.len(),
                forall|j: int| 0 <= j < i ==> self.pib.joining_ieee_list@[j] != e,
            decreases self.pib.joining_ieee_list@.len() - i,
        {
            if self.pib.joining_ieee_list[i].0 == e.0 {
                return true;
            }
            i = i + 1;
        }
        false
    }

    /// Answers an Enhanced Beacon Request (Annex D.11.1.1-D.11.1.3): a
    /// joining request when joining is permitted, the link quality filter
    /// passes and `mibJoiningPolicy` admits the device; a rejoin request
    /// when its extended PAN ID is ours. The percent filter is not
    /// applied. The Enhanced Beacon goes out at the requester's announced
    /// power within the limits, which also seeds the entry of the link in
    /// the Power Control Information Table.
    fn on_enhanced_beacon_request(&mut self, ebr: &EnhancedBeaconRequest, h: &Header, meta: RxMetadata)
        requires
            old(self).wf(),
        ensures
            final(self).wf(),
            final(self)@ == old(self)@.ebr_received(*ebr, h@, meta),
    {
        reveal(MacServiceView::ebr_received);
        if !self.config.enhanced_beacons || !self.pib.beacon_capable || self.pib.pan_id.0 == PAN_BROADCAST_RAW
            || self.scan.is_some() {
            return;
        }
        if !self.answers_ebr(ebr, h, meta) {
            return;
        }
        let tx_power = match ebr.tx_power {
            Some(p) => Some(self.power.limits().clamp(p)),
            None => None,
        };
        if let Some(p) = tx_power {
            if let MacAddress::Extended(e) = h.src {
                let short = match ebr.rejoin {
                    Some((_, s)) => s,
                    None => ShortAddress(NO_SHORT_ADDRESS_RAW),
                };
                self.store_power(
                    PowerEntry {
                        short,
                        extended: e,
                        tx_power_dbm: p,
                        last_rssi_dbm: meta.rssi_dbm,
                        nwk_negotiated: false,
                        created: self.now,
                    },
                );
            }
        }
        self.send_enhanced_beacon(tx_power);
    }

    /// Sends an Enhanced Beacon (D.11.1.2): frame version 2, no
    /// destination, extended source with the PAN ID, the beacon
    /// information in the EB Payload IE and the TX Power IE.
    fn send_enhanced_beacon(&mut self, tx_power: Option<i8>)
        requires
            old(self).wf(),
        ensures
            final(self).wf(),
            final(self)@ == old(self)@.eb_sent(tx_power),
    {
        let ghost v0 = self@;
        let seq = self.next_bsn();
        let header = Header {
            frame_control: fc_v2_exec(FrameType::Beacon, AddressMode::Absent, AddressMode::Extended, false),
            sequence: Some(seq),
            dst_pan: None,
            dst: MacAddress::Absent,
            src_pan: Some(self.pib.pan_id),
            src: MacAddress::Extended(self.pib.extended_address),
            header_ies: ht1_bytes(),
        };
        let mut body: Vec<u8> = Vec::new();
        let written = {
            let eb = EnhancedBeacon {
                beacon_payload: self.pib.beacon_payload.as_slice(),
                superframe: SuperframeSpec::non_beacon(self.pib.pan_coordinator, self.pib.association_permit),
                sender_short: self.pib.short_address,
                tx_power,
            };
            assert(eb@ == v0.own_eb(tx_power));
            eb.write(&mut body).is_ok()
        };
        if !written {
            return;
        }
        if let Ok(frame) = build_frame(&header, body.as_slice()) {
            let _ = self.enqueue(
                QueuedTx {
                    kind: InFlightKind::Beacon,
                    frame,
                    seq,
                    ack_request: false,
                    options: TxOptions { ack_request: false, csma: true, tx_power_dbm: tx_power },
                },
            );
        }
    }
}


/// A header built by [`Header::new`], with the acknowledgement request
/// bit set as asked, is well formed: it decodes from its own encoding.
pub proof fn lemma_built_header_wf(
    ft: FrameType,
    seq: u8,
    dst_pan: PanId,
    dst: MacAddress,
    src_pan: PanId,
    src: MacAddress,
    ack: bool,
)
    ensures
        with_ack(HeaderView::spec_new(ft, seq, dst_pan, dst, src_pan, src), ack).wf(),
        with_ack(HeaderView::spec_new(ft, seq, dst_pan, dst, src_pan, src), ack).frame_control.0 & 7 == ft.spec_bits(),
        with_ack(HeaderView::spec_new(ft, seq, dst_pan, dst, src_pan, src), ack).frame_control.flag(FC_ACK_REQUEST)
            == ack,
{
    let h = with_ack(HeaderView::spec_new(ft, seq, dst_pan, dst, src_pan, src), ack);
    let t = ft.spec_bits();
    let d = dst.spec_mode().spec_bits();
    let sm = src.spec_mode().spec_bits();
    let both = !(dst is Absent) && !(src is Absent);
    let compress = both && dst_pan == src_pan;
    if let FrameType::Other(v) = ft {
        assert((v & 0x7) < 8) by (bit_vector);
    }
    assert(t < 8);
    assert(d < 4 && d != 1);
    assert(sm < 4 && sm != 1);
    let base = (((t | (0u16 << 12)) & !0x0C00u16) | (d << 10)) & !0xC000u16 | (sm << 14);
    let fc1 = spec_with_bit(base, crate::mac::frame::FC_PAN_ID_COMPRESSION, compress);
    let fc2 = spec_with_bit(fc1, FC_ACK_REQUEST, ack);
    assert(h.frame_control.0 == fc2);
    assert(((fc2 >> 10) & 3) == d && ((fc2 >> 14) & 3) == sm && ((fc2 >> 12) & 3) == 0 && (fc2 & 0x0008) == 0 && ((
    fc2 & 0x0040) != 0) == compress && (fc2 & 7) == t && ((fc2 & 0x0020) != 0) == ack) by (bit_vector)
        requires
            t < 8,
            d < 4,
            sm < 4,
            base == (((t | (0u16 << 12)) & !0x0C00u16) | (d << 10)) & !0xC000u16 | (sm << 14),
            fc1 == spec_with_bit(base, 0x0040u16, compress),
            fc2 == spec_with_bit(fc1, 0x0020u16, ack),
    ;
    assert(h.frame_control.spec_dst_mode() == dst.spec_mode());
    assert(h.frame_control.spec_src_mode() == src.spec_mode());
    assert(h.frame_control.spec_version() == FrameVersion::V2003);
    assert(h.header_ies.len() == 0);
}

/// The three octets of a software acknowledgement: frame control (type
/// acknowledgement, frame-pending bit as given) and the sequence number.
pub proof fn lemma_ack_frame_octets(seq: u8, frame_pending: bool)
    ensures
        ack_header(seq, frame_pending).spec_encode() == seq![if frame_pending { 0x12u8 } else { 0x02u8 }, 0x00u8, seq],
{
    let v = spec_with_bit(0x0002, crate::mac::frame::FC_FRAME_PENDING, frame_pending);
    assert(((v & 0xFF) as u8 == if frame_pending { 0x12u8 } else { 0x02u8 }) && ((v >> 8) as u8 == 0)) by (bit_vector)
        requires
            v == spec_with_bit(0x0002u16, 0x0010u16, frame_pending),
    ;
    assert(ack_header(seq, frame_pending).spec_encode() =~= seq![
        if frame_pending { 0x12u8 } else { 0x02u8 },
        0x00u8,
        seq,
    ]);
}

/// An accepted direct data request queues, behind the frames already
/// waiting, a frame that decodes to a data header addressed to `dst` from
/// this device with the next data sequence number and the
/// acknowledgement request bit set exactly for unicast requests that ask
/// for it, followed by the payload unchanged.
pub proof fn lemma_data_request_frame(
    v: MacServiceView,
    dst_pan: PanId,
    dst: MacAddress,
    payload: Seq<u8>,
    ack_request: bool,
)
    requires
        v.data_request(dst_pan, dst, payload, ack_request, false).1 is Ok,
    ensures
        ({
            let w = v.data_request(dst_pan, dst, payload, ack_request, false).0;
            &&& w.tx_queue.len() == v.tx_queue.len() + 1
            &&& w.tx_queue.take(v.tx_queue.len() as int) == v.tx_queue
            &&& match crate::mac::frame::spec_decode_frame(w.tx_queue.last().frame) {
                Ok((h, p)) => {
                    &&& p == payload
                    &&& h.dst == dst
                    &&& h.src == v.own_address()
                    &&& h.sequence == Some(v.pib.dsn)
                    &&& h.frame_control.spec_frame_type() == FrameType::Data
                    &&& h.frame_control.flag(FC_ACK_REQUEST) == (ack_request && dst != broadcast_dst())
                },
                Err(_) => false,
            }
        }),
{
    let ack = ack_request && dst != broadcast_dst();
    let h = with_ack(
        HeaderView::spec_new(FrameType::Data, v.pib.dsn, dst_pan, dst, v.pib.pan_id, v.own_address()),
        ack,
    );
    lemma_built_header_wf(FrameType::Data, v.pib.dsn, dst_pan, dst, v.pib.pan_id, v.own_address(), ack);
    crate::mac::frame::lemma_frame_round_trip(h, payload);
    let w = v.data_request(dst_pan, dst, payload, ack_request, false).0;
    assert(w.tx_queue.take(v.tx_queue.len() as int) =~= v.tx_queue);
}

/// An accepted poll queues, behind the frames already waiting, a Data
/// Request command (the single octet 0x04) to the coordinator (its short
/// address when known, else its extended address) from this device, with
/// the next data sequence number and the acknowledgement request bit set.
pub proof fn lemma_poll_frame(v: MacServiceView)
    requires
        v.poll().1 is Ok,
    ensures
        ({
            let w = v.poll().0;
            &&& w.tx_queue.len() == v.tx_queue.len() + 1
            &&& w.tx_queue.take(v.tx_queue.len() as int) == v.tx_queue
            &&& w.tx_queue.last().kind == InFlightKind::Poll
            &&& w.tx_queue.last().ack_request
            &&& match crate::mac::frame::spec_decode_frame(w.tx_queue.last().frame) {
                Ok((h, p)) => {
                    &&& p == seq![0x04u8]
                    &&& Some(h.dst) == v.poll_target()
                    &&& h.src == v.own_address()
                    &&& h.sequence == Some(v.pib.dsn)
                    &&& h.frame_control.spec_frame_type() == FrameType::Command
                    &&& h.frame_control.flag(FC_ACK_REQUEST)
                },
                Err(_) => false,
            }
        }),
{
    let dst = v.poll_target()->0;
    let h = with_ack(
        HeaderView::spec_new(FrameType::Command, v.pib.dsn, v.pib.pan_id, dst, v.pib.pan_id, v.own_address()),
        true,
    );
    lemma_built_header_wf(FrameType::Command, v.pib.dsn, v.pib.pan_id, dst, v.pib.pan_id, v.own_address(), true);
    crate::mac::frame::lemma_mac_command_first_octet(MacCommandView::DataRequest);
    crate::mac::frame::lemma_frame_round_trip(h, seq![0x04u8]);
    let w = v.poll().0;
    assert(w.tx_queue.take(v.tx_queue.len() as int) =~= v.tx_queue);
}

/// An accepted association request queues an Association Request command
/// (0x01 then the capability octet) to the coordinator on its PAN, from
/// this device's extended address on the broadcast PAN, with the
/// acknowledgement request bit set.
pub proof fn lemma_associate_frame(v: MacServiceView, pan_id: PanId, coordinator: MacAddress, capability: MacCapability)
    requires
        v.associate(pan_id, coordinator, capability).1 is Ok,
    ensures
        ({
            let w = v.associate(pan_id, coordinator, capability).0;
            &&& w.tx_queue.len() == v.tx_queue.len() + 1
            &&& w.tx_queue.last().kind == InFlightKind::AssocRequest
            &&& match crate::mac::frame::spec_decode_frame(w.tx_queue.last().frame) {
                Ok((h, p)) => {
                    &&& p == seq![0x01u8, capability.0]
                    &&& h.dst == coordinator
                    &&& h.dst_pan == Some(pan_id)
                    &&& h.src == MacAddress::Extended(v.pib.extended_address)
                    &&& h.frame_control.spec_frame_type() == FrameType::Command
                    &&& h.frame_control.flag(FC_ACK_REQUEST)
                },
                Err(_) => false,
            }
        }),
{
    let src = MacAddress::Extended(v.pib.extended_address);
    let h = with_ack(
        HeaderView::spec_new(FrameType::Command, v.pib.dsn, pan_id, coordinator, PanId(PAN_BROADCAST_RAW), src),
        true,
    );
    lemma_built_header_wf(FrameType::Command, v.pib.dsn, pan_id, coordinator, PanId(PAN_BROADCAST_RAW), src, true);
    let cmd = MacCommandView::AssociationRequest { capability };
    crate::mac::frame::lemma_mac_command_bodies(cmd);
    crate::mac::frame::lemma_frame_round_trip(h, cmd.spec_encode());
}

/// Transmission handles are never zero, and consecutive requests get
/// different handles.
pub proof fn lemma_data_request_handles(
    v: MacServiceView,
    dst_pan: PanId,
    dst: MacAddress,
    payload: Seq<u8>,
    ack_request: bool,
    indirect: bool,
)
    requires
        v.inv(),
    ensures
        ({
            let (w, r) = v.data_request(dst_pan, dst, payload, ack_request, indirect);
            r matches Ok(h) ==> h.0 != 0 && w.next_handle != h.0 && w.next_handle != 0
        }),
{
}

/// A direct data request while the transmit queue is full is refused
/// with `QueueFull` (or `FrameTooLong` when it would not fit anyway) and
/// queues nothing.
pub proof fn lemma_full_queue_refuses(v: MacServiceView, dst_pan: PanId, dst: MacAddress, payload: Seq<u8>, ack_request: bool)
    requires
        v.tx_queue.len() >= TX_QUEUE_CAPACITY,
    ensures
        ({
            let (w, r) = v.data_request(dst_pan, dst, payload, ack_request, false);
            &&& r == Err::<TxHandle, MacError>(MacError::QueueFull) || r == Err::<TxHandle, MacError>(
                MacError::FrameTooLong,
            )
            &&& w.tx_queue == v.tx_queue
        }),
{
}

/// A filter that drops nothing keeps the length; one that keeps every
/// element keeps the sequence.
proof fn lemma_filter_same_len(s: Seq<IndirectView>, keep: spec_fn(IndirectView) -> bool)
    requires
        s.filter(keep).len() == s.len(),
    ensures
        s.filter(keep) == s,
    decreases s.len(),
{
    reveal(Seq::filter);
    if s.len() > 0 {
        let t = s.drop_last();
        t.lemma_filter_len(keep);
        if keep(s.last()) {
            lemma_filter_same_len(t, keep);
            assert(s =~= t.push(s.last()));
        } else {
            assert(s.filter(keep) == t.filter(keep));
            assert(false);
        }
    } else {
        assert(s.filter(keep) =~= s);
    }
}

} // verus!
