//! The state of the network layer that its decisions work on: the NIB,
//! the neighbor table, the broadcast records, the scan, discovery and
//! formation records, and a join in progress, with one step function per
//! event.
use vstd::prelude::*;

use crate::nwk::address_map::{AddressMap, AddressPair};
use crate::nwk::beacon::BeaconPayload;
use crate::nwk::joining_list::{JoiningList, JoiningPolicy};
use crate::nwk::discovery::RouterInformation;
use crate::nwk::formation::{finish_formation, spec_formation_pan, spec_formation_short, FormationOutcome};
use crate::nwk::join::{JoinState, JoinStateView, ParentStep};
use crate::nwk::layer::NwkStats;
use crate::nwk::neighbor::{NeighborEntry, NeighborTable};
use crate::nwk::nib::constants::MAX_BROADCAST_JITTER_MS;
use crate::nwk::nib::Nib;
use crate::nwk::relay::{BroadcastDecision, BroadcastState, BroadcastStateView, OriginateOutcome};
use crate::nwk::scan::{BeaconInfo, ScanContext, ScanContextView};
use crate::types::{ExtendedAddress, Instant, PanId, ShortAddress, NO_SHORT_ADDRESS_RAW, PAN_BROADCAST_RAW};

verus! {

/// The state of the network layer.
#[derive(Clone, Debug)]
pub struct Nwk<const NB: usize, const BTT: usize, const D: usize, const AM: usize, const JL: usize> {
    /// Scalar NIB attributes.
    pub nib: Nib,
    /// Neighbor table.
    pub neighbors: NeighborTable<NB>,
    /// Broadcast records and buffers.
    pub broadcasts: BroadcastState<BTT>,
    /// Scan, discovery and formation records.
    pub scanning: ScanContext<D>,
    /// A join in progress.
    pub join: Option<JoinState>,
    /// Passive acknowledgement of broadcasts is used.
    pub passive_ack: bool,
    /// When the device started operating on its network.
    pub operating_since: Option<Instant>,
    /// Extended/short address pairs of devices known beyond the neighbors.
    pub address_map: AddressMap<AM>,
    /// Joining policy and IEEE joining list.
    pub joining_list: JoiningList<JL>,
    /// The network uses distributed security (no Trust Center).
    pub distributed_network: bool,
    /// Current time as last supplied to [`Nwk::poll_timers`].
    pub now: Instant,
    /// Joining is permitted until then.
    pub permit_until: Option<Instant>,
    /// Next link status transmission.
    pub link_status_due: Option<Instant>,
    /// Last time children were aged.
    pub child_age_last: Instant,
    /// Next keepalive of an end device.
    pub keepalive_due: Option<Instant>,
    /// Deadline of an outstanding End Device Timeout Request.
    pub timeout_request_deadline: Option<Instant>,
    /// NWK security is in use.
    pub security_enabled: bool,
    /// Diagnostic counters.
    pub stats: NwkStats,
    /// Identifier of the next data request.
    pub next_tx_id: u16,
}

/// The mathematical content of a [`Nwk`].
pub struct NwkStateView {
    /// NIB.
    pub nib: Nib,
    /// Neighbor entries.
    pub neighbors: Seq<NeighborEntry>,
    /// Broadcast records and buffers.
    pub broadcasts: BroadcastStateView,
    /// Scan, discovery and formation records.
    pub scanning: ScanContextView,
    /// A join in progress.
    pub join: Option<JoinStateView>,
    /// Passive acknowledgement.
    pub passive_ack: bool,
    /// Operating since.
    pub operating_since: Option<Instant>,
    /// Address map pairs.
    pub address_map: Seq<AddressPair>,
    /// IEEE joining list.
    pub joining: Seq<ExtendedAddress>,
    /// Joining policy.
    pub joining_policy: JoiningPolicy,
    /// Distributed security.
    pub distributed_network: bool,
    /// Current time.
    pub now: Instant,
    /// Permit joining deadline.
    pub permit_until: Option<Instant>,
    /// Next link status.
    pub link_status_due: Option<Instant>,
    /// Last child aging.
    pub child_age_last: Instant,
    /// Next keepalive.
    pub keepalive_due: Option<Instant>,
    /// Timeout request deadline.
    pub timeout_request_deadline: Option<Instant>,
    /// Security in use.
    pub security_enabled: bool,
    /// Counters.
    pub stats: NwkStats,
    /// Next data request identifier.
    pub next_tx_id: u16,
}

impl<const NB: usize, const BTT: usize, const D: usize, const AM: usize, const JL: usize> View for Nwk<
    NB,
    BTT,
    D,
    AM,
    JL,
> {
    type V = NwkStateView;

    open spec fn view(&self) -> NwkStateView {
        NwkStateView {
            nib: self.nib,
            neighbors: self.neighbors@,
            broadcasts: self.broadcasts@,
            scanning: self.scanning@,
            join: match self.join {
                Some(j) => Some(j@),
                None => None,
            },
            passive_ack: self.passive_ack,
            operating_since: self.operating_since,
            address_map: self.address_map@,
            joining: self.joining_list@,
            joining_policy: self.joining_list.spec_policy(),
            distributed_network: self.distributed_network,
            now: self.now,
            permit_until: self.permit_until,
            link_status_due: self.link_status_due,
            child_age_last: self.child_age_last,
            keepalive_due: self.keepalive_due,
            timeout_request_deadline: self.timeout_request_deadline,
            security_enabled: self.security_enabled,
            stats: self.stats,
            next_tx_id: self.next_tx_id,
        }
    }
}


impl NwkStateView {
    /// The NIB after a join ended without success: an initial join also
    /// forgets the PAN and the network address it was trying.
    pub open spec fn join_failed_nib(nib: Nib, rejoin: bool) -> Nib {
        if rejoin {
            nib
        } else {
            Nib { pan_id: PanId(PAN_BROADCAST_RAW), network_address: ShortAddress(NO_SHORT_ADDRESS_RAW), ..nib }
        }
    }

    /// Trying the next parent of the join in progress gave `st` and the
    /// state `new` (see [`JoinStateView::next_parent_tried`]); when no
    /// parent is left the join ends: its state is dropped, and an initial
    /// join also forgets the PAN and network address.
    pub open spec fn parent_tried(self, st: ParentStep, new: NwkStateView) -> bool {
        let j = self.join->0;
        if st is NoNetworks || st is NotPermitted {
            &&& exists|j1: JoinStateView|
                j.next_parent_tried(
                    self.nib,
                    self.scanning.discovery,
                    st,
                    j1,
                    self.nib,
                    self.scanning.discovery,
                )
            &&& new == (NwkStateView {
                nib: NwkStateView::join_failed_nib(self.nib, j.params.rejoin),
                join: None,
                ..self
            })
        } else {
            new.join matches Some(j1) && j.next_parent_tried(
                self.nib,
                self.scanning.discovery,
                st,
                j1,
                new.nib,
                new.scanning.discovery,
            ) && new == (NwkStateView {
                nib: new.nib,
                join: new.join,
                scanning: ScanContextView { discovery: new.scanning.discovery, ..self.scanning },
                ..self
            })
        }
    }
}

impl<const NB: usize, const BTT: usize, const D: usize, const AM: usize, const JL: usize> Nwk<NB, BTT, D, AM, JL> {
    /// Every table within its capacity.
    pub open spec fn wf(&self) -> bool {
        &&& self.neighbors.wf()
        &&& self.broadcasts.wf()
        &&& self.scanning.wf()
        &&& self.address_map.wf()
        &&& self.joining_list.wf()
    }

    /// A beacon was heard (see [`ScanContextView::beacon_received`]);
    /// returns the PAN identifier of a detected conflict.
    pub fn on_mac_beacon(&mut self, info: &BeaconInfo, payload: Option<BeaconPayload>, router_info: Option<
        RouterInformation,
    >) -> (conflict: Option<PanId>)
        requires
            old(self).wf(),
        ensures
            final(self).wf(),
            (final(self)@.scanning, conflict) == old(self)@.scanning.beacon_received(
                old(self).nib,
                *info,
                match payload {
                    Some(p) => Some(p@),
                    None => None,
                },
                router_info,
                D as int,
            ),
            final(self)@ == (NwkStateView { scanning: final(self)@.scanning, ..old(self)@ }),
    {
        self.scanning.on_mac_beacon(&self.nib, info, payload, router_info)
    }

    /// A broadcast was received (see
    /// [`BroadcastStateView::broadcast_received`]); `jitter_ms` is the
    /// random relay delay.
    pub fn on_broadcast_received(
        &mut self,
        now: Instant,
        src: ShortAddress,
        sequence: u8,
        dst: ShortAddress,
        radius: u8,
        mac_src: ShortAddress,
        buf: &[u8],
        header_len: usize,
        payload_start: usize,
        payload_end: usize,
        secured: bool,
        jitter_ms: u64,
    ) -> (d: BroadcastDecision)
        requires
            old(self).wf(),
            jitter_ms <= MAX_BROADCAST_JITTER_MS,
        ensures
            final(self).wf(),
            (final(self)@.broadcasts, d) == old(self)@.broadcasts.broadcast_received(
                old(self).nib,
                old(self)@.neighbors,
                old(self).passive_ack,
                old(self).operating_since,
                now,
                BTT as int,
                src,
                sequence,
                dst,
                radius,
                mac_src,
                buf@,
                header_len,
                payload_start,
                payload_end,
                secured,
                jitter_ms,
            ),
            final(self)@ == (NwkStateView { broadcasts: final(self)@.broadcasts, ..old(self)@ }),
    {
        self.broadcasts.on_broadcast_received(
            &self.nib,
            &self.neighbors,
            self.passive_ack,
            self.operating_since,
            now,
            src,
            sequence,
            dst,
            radius,
            mac_src,
            buf,
            header_len,
            payload_start,
            payload_end,
            secured,
            jitter_ms,
        )
    }

    /// Originates a broadcast whose plaintext NPDU is `npdu` (see
    /// [`BroadcastStateView::originated`]); `counter_pending`: securing it
    /// waits for a frame counter reservation.
    pub fn originate_broadcast(
        &mut self,
        now: Instant,
        counter_pending: bool,
        npdu: Vec<u8>,
        header_len: usize,
        secure: bool,
    ) -> (o: OriginateOutcome)
        requires
            old(self).wf(),
        ensures
            final(self).wf(),
            (final(self)@.broadcasts, o) == old(self)@.broadcasts.originated(
                old(self).nib,
                old(self)@.neighbors,
                old(self).passive_ack,
                now,
                BTT as int,
                counter_pending,
                npdu@,
                header_len,
                secure,
            ),
            final(self)@ == (NwkStateView { broadcasts: final(self)@.broadcasts, ..old(self)@ }),
    {
        self.broadcasts.originate(&self.nib, &self.neighbors, self.passive_ack, now, counter_pending, npdu, header_len, secure)
    }

    /// Tries the next potential parent of the join in progress (see
    /// [`JoinStateView::next_parent_tried`]). When no parent is left the
    /// join ends: its state is dropped, and an initial join also forgets
    /// the PAN and network address (see [`NwkStateView::join_failed_nib`]);
    /// the failure step is the status to confirm. `None`, changing
    /// nothing, when no join is in progress.
    #[verifier::rlimit(60)]
    pub fn try_next_parent(&mut self) -> (step: Option<ParentStep>)
        requires
            old(self).wf(),
        ensures
            final(self).wf(),
            match old(self)@.join {
                None => step is None && final(self)@ == old(self)@,
                Some(_) => step matches Some(st) && old(self)@.parent_tried(st, final(self)@),
            },
    {
        match self.join.take() {
            Some(mut j) => {
                let ghost j0 = j@;
                let rejoin = j.params.rejoin;
                let st = j.try_next_parent(&mut self.nib, &mut self.scanning.discovery);
                if st == ParentStep::NoNetworks || st == ParentStep::NotPermitted {
                    proof {
                        let j1 = j@;
                        crate::nwk::join::lemma_failed_step_keeps(
                            j0,
                            old(self).nib,
                            old(self)@.scanning.discovery,
                            st,
                            j1,
                            self.nib,
                            self@.scanning.discovery,
                        );
                        assert(j0.next_parent_tried(
                            old(self).nib,
                            old(self)@.scanning.discovery,
                            st,
                            j1,
                            old(self).nib,
                            old(self)@.scanning.discovery,
                        ));
                    }
                    if !rejoin {
                        self.nib.pan_id = PanId(PAN_BROADCAST_RAW);
                        self.nib.network_address = ShortAddress(NO_SHORT_ADDRESS_RAW);
                    }
                } else {
                    self.join = Some(j);
                }
                Some(st)
            },
            None => None,
        }
    }

    /// Completes the formation in progress once its scans are done (see
    /// [`finish_formation`]); `pan_draws`, `short_draws` and `ext_draw`
    /// are random values. The formation record is consumed; on success
    /// the device is operating from `now`. `None`, changing nothing, when
    /// no formation is in progress.
    pub fn finish_formation(&mut self, now: Instant, pan_draws: &[u16], short_draws: &[u16], ext_draw: u64) -> (o:
        Option<FormationOutcome>)
        requires
            old(self).wf(),
        ensures
            final(self).wf(),
            match old(self).scanning.formation {
                None => o is None && final(self)@ == old(self)@,
                Some(f) => {
                    &&& final(self).scanning.formation is None
                    &&& final(self)@.scanning == (ScanContextView { formation: None, ..old(self)@.scanning })
                    &&& match o {
                        Some(FormationOutcome::StartupFailure) => {
                            &&& ((forall|d: int| !f.considers(d)) || spec_formation_pan(f, pan_draws@) is None)
                            &&& final(self)@ == (NwkStateView { scanning: final(self)@.scanning, ..old(self)@ })
                        },
                        Some(FormationOutcome::Started { pan_id, channel, short, coordinator }) => {
                            &&& f.is_best_channel(channel.0 as int)
                            &&& spec_formation_pan(f, pan_draws@) == Some(pan_id)
                            &&& short == spec_formation_short(f, short_draws@)
                            &&& coordinator == !f.distributed
                            &&& final(self).nib == (Nib {
                                extended_pan_id: if old(self).nib.extended_pan_id.0 == 0 {
                                    if f.distributed {
                                        ExtendedAddress(ext_draw | 1)
                                    } else {
                                        old(self).nib.ieee_address
                                    }
                                } else {
                                    old(self).nib.extended_pan_id
                                },
                                pan_id,
                                channel,
                                network_address: short,
                                joined: true,
                                authenticated: true,
                                router_started: true,
                                depth: 0,
                                ..old(self).nib
                            })
                            &&& final(self)@ == (NwkStateView {
                                nib: final(self).nib,
                                scanning: final(self)@.scanning,
                                operating_since: Some(now),
                                ..old(self)@
                            })
                        },
                        None => false,
                    }
                },
            },
    {
        match self.scanning.formation.take() {
            Some(f) => {
                let o = finish_formation(&mut self.nib, &f, pan_draws, short_draws, ext_draw);
                if let FormationOutcome::Started { .. } = o {
                    self.operating_since = Some(now);
                }
                Some(o)
            },
            None => None,
        }
    }
}

} // verus!
