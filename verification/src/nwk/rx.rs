//! The reception path of the network layer: what happens to a frame the
//! MAC delivered, from header checks and the security gate through
//! address bookkeeping and lost-child examination to delivery, broadcast
//! handling and the relay decision.
//!
//! Removing NWK security is done by the caller, which hands in its
//! outcome; the frame then holds the plaintext payload.
use vstd::prelude::*;

use crate::nwk::address_map::{spec_record, AddressMapUpdate};
use crate::nwk::broadcast::{first_record, is_broadcast_of};
use crate::nwk::command::NwkCommandId;
use crate::nwk::frame::{spec_decode_header, FrameType, Header, HeaderView, FC_END_DEVICE_INITIATOR, FC_SECURITY, PROTOCOL_VERSION};
use crate::nwk::layer::NwkStats;
use crate::nwk::neighbor::{first_match, has_extended, has_short, LqaFilter, NeighborEntry, Relationship};
use crate::nwk::nib::constants::MAX_BROADCAST_JITTER_MS;
use crate::nwk::relay::{byte_or, range_or_empty, BroadcastDecision, BroadcastStateView};
use crate::nwk::state::{Nwk, NwkStateView};
use crate::types::{ExtendedAddress, ShortAddress, FIRST_NON_UNICAST_RAW};
use crate::nwk::layer::MAX_NPDU;

verus! {

/// What removing NWK security from a secured frame gave.
#[derive(Clone, Copy, PartialEq, Eq, Debug, Structural)]
pub struct Unsecured {
    /// The device that secured the frame (the previous hop).
    pub sender: ExtendedAddress,
    /// Start of the plaintext payload.
    pub payload_start: usize,
    /// End of the plaintext payload.
    pub payload_end: usize,
}

/// Why a secured frame could not be unsecured.
#[derive(Clone, Copy, PartialEq, Eq, Debug, Structural)]
pub enum SecurityFailure {
    /// The frame counter was not fresh (a replay).
    BadFrameCounter,
    /// Any other failure (no key, bad MIC, malformed auxiliary header).
    Failed,
}

/// What becomes of a received frame.
#[derive(Clone, Copy, PartialEq, Eq, Debug, Structural)]
pub enum RxOutcome {
    /// Consumed by the network layer (dropped, or a broadcast already
    /// seen).
    Consumed,
    /// An inter-PAN frame: the octets after the stub frame control go to
    /// the inter-PAN service.
    InterPan,
    /// A data frame for this device: `frame[payload_start..payload_end]`
    /// goes to the higher layer.
    Data {
        /// NWK source.
        src: ShortAddress,
        /// NWK destination (broadcast or this device).
        dst: ShortAddress,
        /// Source IEEE address from the header.
        src_ieee: Option<ExtendedAddress>,
        /// The device that secured the frame.
        secured_by: Option<ExtendedAddress>,
        /// NWK security was applied.
        secured: bool,
        /// Payload start.
        payload_start: usize,
        /// Payload end.
        payload_end: usize,
    },
    /// A NWK command for this device, at `frame[payload_start..payload_end]`.
    Command {
        /// NWK source.
        src: ShortAddress,
        /// NWK security was applied.
        secured: bool,
        /// The device that secured the frame.
        secured_by: Option<ExtendedAddress>,
        /// Payload start.
        payload_start: usize,
        /// Payload end.
        payload_end: usize,
    },
    /// A Network Status command for another device, to be relayed.
    RelayNetworkStatus,
    /// A Route Record command for another device, to be relayed.
    RelayRouteRecord,
    /// A data frame for another device, to be relayed: the plaintext copy
    /// is in [`RxDecision::relay_frame`].
    RelayUnicast {
        /// The frame was secured when received.
        secured: bool,
    },
}

/// A side effect of a reception the caller carries out.
#[derive(Clone, Copy, PartialEq, Eq, Debug, Structural)]
pub enum RxNote {
    /// Another device uses this device's network address.
    LocalAddressConflict,
    /// Two devices use this network address.
    RemoteAddressConflict(ShortAddress),
    /// An unknown end device sent through this router: tell it to leave
    /// and rejoin.
    LeaveToUnknownChild(ShortAddress),
    /// This end device child now talks through another parent.
    LostChild(ExtendedAddress),
}

/// The outcome of a reception, with the side effects in order.
pub struct RxDecision {
    /// What becomes of the frame.
    pub outcome: RxOutcome,
    /// Side effects.
    pub notes: Vec<RxNote>,
    /// For [`RxOutcome::RelayUnicast`], the plaintext copy to relay.
    pub relay_frame: Vec<u8>,
}

/// A frame that passed the header checks and the security gate.
pub struct Parsed {
    /// The header.
    pub h: HeaderView,
    /// Its length.
    pub header_len: int,
    /// Start of the plaintext payload.
    pub ps: int,
    /// End of the plaintext payload.
    pub pe: int,
    /// The device that secured the frame.
    pub secured_by: Option<ExtendedAddress>,
}

/// `v + 1`, saturating.
pub open spec fn inc32(v: u32) -> u32 {
    if v == u32::MAX {
        u32::MAX
    } else {
        (v + 1) as u32
    }
}

/// An IEEE address that names a device: neither all zeros nor all ones.
pub open spec fn valid_device_address(e: ExtendedAddress) -> bool {
    e.0 != 0 && e.0 != 0xFFFF_FFFF_FFFF_FFFF
}

/// The NWK command identifier at `i`, if the octet is there.
pub open spec fn command_at(frame: Seq<u8>, i: int) -> Option<NwkCommandId> {
    if 0 <= i < frame.len() {
        Some(NwkCommandId::spec_from_raw(frame[i]))
    } else {
        None
    }
}

impl NwkStateView {
    /// An unsecured frame may be processed while NWK security is in use:
    /// once authenticated, only a Rejoin or Commissioning Request for this
    /// device, or an APS command from one of its unauthenticated
    /// children; before, only a Rejoin or Commissioning Response to an
    /// unsecured attach in progress, or a data frame for this device that
    /// is an APS command, APS-secured, or comes from the parent of a
    /// joined device.
    pub open spec fn unsecured_allowed(self, frame: Seq<u8>, h: HeaderView, header_len: int) -> bool {
        let is_command = FrameType::spec_from_bits(h.frame_control.0) is Command;
        let for_me = h.dst == self.nib.network_address || h.dst.0 >= FIRST_NON_UNICAST_RAW;
        let cmd = if is_command { command_at(frame, header_len) } else { None };
        let aps_fc = byte_or(frame, header_len, 0);
        let aps_command = aps_fc & 0x03 == 0x01;
        let aps_secured = aps_fc & 0x20 != 0;
        if self.nib.joined && self.nib.authenticated {
            if is_command {
                (cmd == Some(NwkCommandId::RejoinRequest) || cmd == Some(NwkCommandId::CommissioningRequest)) && for_me
            } else {
                for_me && aps_command && (first_match(self.neighbors, has_short(h.src)) matches Some(k)
                    && self.neighbors[k].relationship is UnauthenticatedChild)
            }
        } else {
            match cmd {
                Some(NwkCommandId::RejoinResponse) | Some(NwkCommandId::CommissioningResponse) => self.join matches Some(
                    j,
                ) && !j.secure,
                Some(_) => false,
                None => for_me && (aps_command || aps_secured || (self.nib.joined && h.src == self.nib.parent_address)),
            }
        }
    }

    /// Header checks and the security gate: a frame whose header does not
    /// decode, or of another protocol version or a reserved type, counts
    /// as malformed; inter-PAN frames go to the inter-PAN service; a
    /// device neither joined nor joining ignores the rest; a secured
    /// frame is dropped when security is off, and counts as a replay or a
    /// security failure when it could not be unsecured; an unsecured one
    /// not allowed while security is in use counts as a security failure.
    pub open spec fn rx_screen(self, frame: Seq<u8>, security: Option<Result<Unsecured, SecurityFailure>>) -> Result<
        Parsed,
        (RxOutcome, NwkStats),
    > {
        let st = self.stats;
        match spec_decode_header(frame) {
            Err(_) => Err((RxOutcome::Consumed, NwkStats { malformed: inc32(st.malformed), ..st })),
            Ok((h, hl)) => {
                let fc = h.frame_control;
                let ft = FrameType::spec_from_bits(fc.0);
                if ft is InterPan {
                    Err((RxOutcome::InterPan, st))
                } else if (fc.0 >> 2) & 0xF != PROTOCOL_VERSION || ft is Reserved {
                    Err((RxOutcome::Consumed, NwkStats { malformed: inc32(st.malformed), ..st }))
                } else if !self.nib.joined && self.join is None {
                    Err((RxOutcome::Consumed, st))
                } else if fc.0 & FC_SECURITY != 0 {
                    if !self.security_enabled {
                        Err((RxOutcome::Consumed, st))
                    } else {
                        match security {
                            Some(Ok(u)) => Ok(
                                Parsed {
                                    h,
                                    header_len: hl,
                                    ps: u.payload_start as int,
                                    pe: u.payload_end as int,
                                    secured_by: Some(u.sender),
                                },
                            ),
                            Some(Err(SecurityFailure::BadFrameCounter)) => Err(
                                (RxOutcome::Consumed, NwkStats { replays: inc32(st.replays), ..st }),
                            ),
                            _ => Err(
                                (RxOutcome::Consumed, NwkStats { security_failures: inc32(st.security_failures), ..st }),
                            ),
                        }
                    }
                } else if self.security_enabled && !self.unsecured_allowed(frame, h, hl) {
                    Err((RxOutcome::Consumed, NwkStats { security_failures: inc32(st.security_failures), ..st }))
                } else {
                    Ok(Parsed { h, header_len: hl, ps: hl, pe: frame.len() as int, secured_by: None })
                }
            },
        }
    }

    /// Learning an address pair from a frame: only a device address with
    /// a unicast network address counts; a known device's neighbor entry
    /// takes the new network address when the frame was secured; a
    /// secured frame naming an address another valid device holds in the
    /// neighbor table is a conflict (and nothing is recorded); otherwise
    /// the pair is recorded in the address map, a conflict there being
    /// reported when the frame was secured.
    pub open spec fn address_noted(self, am_cap: int, ext: ExtendedAddress, short: ShortAddress, secured: bool) -> (
        NwkStateView,
        Seq<RxNote>,
    ) {
        if !valid_device_address(ext) || short.0 >= FIRST_NON_UNICAST_RAW {
            (self, Seq::empty())
        } else {
            let nb = self.neighbors;
            let (v1, stop) = match first_match(nb, has_extended(ext)) {
                Some(i) => (
                    if nb[i].short != short && secured {
                        NwkStateView { neighbors: nb.update(i, NeighborEntry { short, ..nb[i] }), ..self }
                    } else {
                        self
                    },
                    false,
                ),
                None => (
                    self,
                    first_match(nb, has_short(short)) matches Some(k) && nb[k].extended != ext && valid_device_address(
                        nb[k].extended,
                    ) && secured,
                ),
            };
            if stop {
                (v1, seq![RxNote::RemoteAddressConflict(short)])
            } else {
                let (m, u) = spec_record(v1.address_map, ext, short, am_cap);
                (
                    NwkStateView { address_map: m, ..v1 },
                    if u is Conflict && secured {
                        seq![RxNote::RemoteAddressConflict(short)]
                    } else {
                        Seq::empty()
                    },
                )
            }
        }
    }

    /// The previous hop's link quality is recorded: by the securing
    /// device's entry (which also takes the MAC source as its network
    /// address), else by the MAC source's entry; a router sending us a
    /// unicast frame counts as inbound activity.
    pub open spec fn hop_noted(self, secured_by: Option<ExtendedAddress>, mac_src: ShortAddress, dst: ShortAddress, lqi: u8) -> NwkStateView {
        let nb = self.neighbors;
        let nb1 = match secured_by {
            Some(sb) => match first_match(nb, has_extended(sb)) {
                Some(i) => nb.update(
                    i,
                    NeighborEntry {
                        lqa: nb[i].lqa.spec_push(lqi),
                        short: if nb[i].short != mac_src && mac_src.0 < FIRST_NON_UNICAST_RAW {
                            mac_src
                        } else {
                            nb[i].short
                        },
                        ..nb[i]
                    },
                ),
                None => nb,
            },
            None => match first_match(nb, has_short(mac_src)) {
                Some(i) => nb.update(i, NeighborEntry { lqa: nb[i].lqa.spec_push(lqi), ..nb[i] }),
                None => nb,
            },
        };
        let nb2 = match first_match(nb1, has_short(mac_src)) {
            Some(k) if nb1[k].spec_is_router() && dst.0 < FIRST_NON_UNICAST_RAW => nb1.update(
                k,
                NeighborEntry {
                    router_inbound_activity: if nb1[k].router_inbound_activity == 255 {
                        255u8
                    } else {
                        (nb1[k].router_inbound_activity + 1) as u8
                    },
                    ..nb1[k]
                },
            ),
            _ => nb1,
        };
        NwkStateView { neighbors: nb2, ..self }
    }

    /// Lost child examination: a secured frame from an end device child
    /// of this router that came through another device (and is not a
    /// broadcast already recorded) marks the child as lost.
    pub open spec fn lost_child_examined(self, src: ShortAddress, mac_src: ShortAddress, dst: ShortAddress, sequence: u8) -> (
        NwkStateView,
        Seq<RxNote>,
    ) {
        match first_match(self.neighbors, has_short(src)) {
            Some(k) => {
                let n = self.neighbors[k];
                if !(n.device_type is EndDevice) || !n.relationship.spec_is_child() || mac_src == src {
                    (self, Seq::empty())
                } else if dst.0 >= FIRST_NON_UNICAST_RAW && first_record(
                    self.broadcasts.btt,
                    is_broadcast_of(src, sequence),
                ) is Some {
                    (self, Seq::empty())
                } else {
                    (
                        NwkStateView {
                            neighbors: self.neighbors.update(k, NeighborEntry { relationship: Relationship::LostChild, ..n }),
                            ..self
                        },
                        seq![RxNote::LostChild(n.extended)],
                    )
                }
            },
            None => (self, Seq::empty()),
        }
    }
}

impl NwkStateView {
    /// The relay copy of a unicast frame for another device: header and
    /// plaintext payload, with the security bit cleared; `None` when it
    /// does not fit an NPDU or its header does not decode.
    pub open spec fn unicast_relay_copy(frame: Seq<u8>, header_len: int, ps: int, pe: int) -> Option<Seq<u8>> {
        let c = range_or_empty(frame, 0, header_len) + range_or_empty(frame, ps, pe);
        if c.len() > MAX_NPDU {
            None
        } else {
            let c1 = if c.len() > 1 { c.update(1, c[1] & 0xFD) } else { c };
            if spec_decode_header(c1) is Ok {
                Some(c1)
            } else {
                None
            }
        }
    }

    /// Where an accepted frame goes (after bookkeeping): a broadcast goes
    /// through broadcast reception (see
    /// [`BroadcastStateView::broadcast_received`]) and, when delivered, to
    /// the higher layer or the command processing; a frame for this device
    /// likewise, unless a router is only a relay of its source route; a
    /// frame for another device is relayed by a started router: Network
    /// Status and Route Record commands by their own procedures (other
    /// commands are dropped), data frames with radius left, when this
    /// device is the addressed relay of a source route, as a plaintext
    /// copy.
    pub open spec fn rx_dispatched(
        self,
        btt_cap: int,
        frame: Seq<u8>,
        p: Parsed,
        mac_src: ShortAddress,
        jitter_ms: u64,
    ) -> (NwkStateView, RxOutcome, Seq<RxNote>, Seq<u8>) {
        let h = p.h;
        let secured = h.frame_control.0 & FC_SECURITY != 0;
        let is_command = FrameType::spec_from_bits(h.frame_control.0) is Command;
        let router = !(self.nib.device_type is EndDevice);
        let my = self.nib.network_address;
        let deliver = if is_command {
            RxOutcome::Command { src: h.src, secured, secured_by: p.secured_by, payload_start: p.ps as usize, payload_end: p.pe as usize }
        } else {
            RxOutcome::Data {
                src: h.src,
                dst: h.dst,
                src_ieee: h.src_ieee,
                secured_by: p.secured_by,
                secured,
                payload_start: p.ps as usize,
                payload_end: p.pe as usize,
            }
        };
        if h.dst.0 >= FIRST_NON_UNICAST_RAW {
            let (b, d) = self.broadcasts.broadcast_received(
                self.nib,
                self.neighbors,
                self.passive_ack,
                self.operating_since,
                self.now,
                btt_cap,
                h.src,
                h.sequence,
                h.dst,
                h.radius,
                mac_src,
                frame,
                p.header_len as usize,
                p.ps as usize,
                p.pe as usize,
                secured,
                jitter_ms,
            );
            let v = NwkStateView { broadcasts: b, ..self };
            let notes = if d is AddressConflict { seq![RxNote::LocalAddressConflict] } else { Seq::empty() };
            if d is Deliver || d is DeliverAndRelay {
                (v, deliver, notes, Seq::empty())
            } else {
                (v, RxOutcome::Consumed, notes, Seq::empty())
            }
        } else if h.dst == my && !(h.source_route matches Some(sr) && sr.relay_index != 0 && router) {
            (self, deliver, Seq::empty(), Seq::empty())
        } else if !router || !self.nib.router_started {
            (self, RxOutcome::Consumed, Seq::empty(), Seq::empty())
        } else if is_command {
            let o = match command_at(frame, p.ps) {
                Some(NwkCommandId::NetworkStatus) => RxOutcome::RelayNetworkStatus,
                Some(NwkCommandId::RouteRecord) => RxOutcome::RelayRouteRecord,
                _ => RxOutcome::Consumed,
            };
            (self, o, Seq::empty(), Seq::empty())
        } else if h.radius <= 1 {
            (self, RxOutcome::Consumed, Seq::empty(), Seq::empty())
        } else if h.source_route matches Some(sr) && sr.relay_index != 0 && !(2 * sr.relay_index + 2 <= sr.relays.len()
            && crate::codec::le16(sr.relays, 2 * sr.relay_index) == my.0) {
            (self, RxOutcome::Consumed, Seq::empty(), Seq::empty())
        } else {
            match NwkStateView::unicast_relay_copy(frame, p.header_len, p.ps, p.pe) {
                Some(c) => (self, RxOutcome::RelayUnicast { secured }, Seq::empty(), c),
                None => (self, RxOutcome::Consumed, Seq::empty(), Seq::empty()),
            }
        }
    }

    /// The state, outcome, side effects and relay copy after the MAC
    /// delivered `frame` (plaintext once unsecured; `security` is the
    /// outcome of unsecuring it, for a secured frame) from `mac_src` with
    /// link quality `lqi`; `jitter_ms` is the random relay delay of a
    /// broadcast. See [`NwkStateView::rx_screen`],
    /// [`NwkStateView::address_noted`], [`NwkStateView::hop_noted`],
    /// [`NwkStateView::lost_child_examined`] and
    /// [`NwkStateView::rx_dispatched`]; in between, a secured frame for
    /// this router's address but another IEEE address is a local address
    /// conflict, and a frame an end device initiated is dropped by an end
    /// device and by a router that does not know it as an end device
    /// (which, for a secured frame, is told to rejoin).
    pub open spec fn mac_data_received(
        self,
        am_cap: int,
        btt_cap: int,
        frame: Seq<u8>,
        security: Option<Result<Unsecured, SecurityFailure>>,
        mac_src: ShortAddress,
        lqi: u8,
        jitter_ms: u64,
    ) -> (NwkStateView, RxOutcome, Seq<RxNote>, Seq<u8>) {
        match self.rx_screen(frame, security) {
            Err((o, st)) => (NwkStateView { stats: st, ..self }, o, Seq::empty(), Seq::empty()),
            Ok(p) => {
                let h = p.h;
                let secured = h.frame_control.0 & FC_SECURITY != 0;
                let router = !(self.nib.device_type is EndDevice);
                let (v1, n1) = match h.src_ieee {
                    Some(e) => self.address_noted(am_cap, e, h.src, secured),
                    None => (self, Seq::empty()),
                };
                let v2 = v1.hop_noted(p.secured_by, mac_src, h.dst, lqi);
                let n2 = if secured && h.dst == self.nib.network_address && (h.dst_ieee matches Some(di) && di
                    != self.nib.ieee_address) && router {
                    seq![RxNote::LocalAddressConflict]
                } else {
                    Seq::empty()
                };
                let notes = n1 + n2;
                let known_ed = first_match(v2.neighbors, has_short(h.src)) matches Some(k)
                    && v2.neighbors[k].device_type is EndDevice;
                if h.frame_control.0 & FC_END_DEVICE_INITIATOR != 0 && (!router || !known_ed) {
                    let n3 = if router && secured { seq![RxNote::LeaveToUnknownChild(h.src)] } else { Seq::empty() };
                    (v2, RxOutcome::Consumed, notes + n3, Seq::empty())
                } else {
                    let (v3, n3) = if router && secured {
                        v2.lost_child_examined(h.src, mac_src, h.dst, h.sequence)
                    } else {
                        (v2, Seq::empty())
                    };
                    let (v4, o, n4, c) = v3.rx_dispatched(btt_cap, frame, p, mac_src, jitter_ms);
                    (v4, o, notes + n3 + n4, c)
                }
            },
        }
    }
}

impl<const NB: usize, const BTT: usize, const D: usize, const AM: usize, const JL: usize> Nwk<NB, BTT, D, AM, JL> {
    /// Whether an unsecured frame may be processed.
    fn unsecured_allowed(&self, frame: &[u8], h: &Header, header_len: usize) -> (b: bool)
        ensures
            b == self@.unsecured_allowed(frame@, h@, header_len as int),
    {
        let is_command = h.frame_control.frame_type() == FrameType::Command;
        let for_me = h.dst == self.nib.network_address || h.dst.0 >= FIRST_NON_UNICAST_RAW;
        let cmd = if is_command && header_len < frame.len() {
            Some(NwkCommandId::from_raw(frame[header_len]))
        } else {
            None
        };
        let aps_fc = if header_len < frame.len() { frame[header_len] } else { 0 };
        let aps_command = aps_fc & 0x03 == 0x01;
        let aps_secured = aps_fc & 0x20 != 0;
        if self.nib.joined && self.nib.authenticated {
            if is_command {
                return (cmd == Some(NwkCommandId::RejoinRequest) || cmd == Some(NwkCommandId::CommissioningRequest))
                    && for_me;
            }
            let unauth_child = match self.neighbors.by_short(h.src) {
                Some(n) => matches!(n.relationship, Relationship::UnauthenticatedChild),
                None => false,
            };
            return for_me && aps_command && unauth_child;
        }
        match cmd {
            Some(NwkCommandId::RejoinResponse) | Some(NwkCommandId::CommissioningResponse) => match &self.join {
                Some(j) => !j.secure,
                None => false,
            },
            Some(_) => false,
            None => for_me && (aps_command || aps_secured || (self.nib.joined && h.src == self.nib.parent_address)),
        }
    }

    /// Learns an address pair (see [`NwkStateView::address_noted`]).
    fn note_address(&mut self, ext: ExtendedAddress, short: ShortAddress, secured: bool) -> (notes: Vec<RxNote>)
        requires
            old(self).wf(),
        ensures
            final(self).wf(),
            (final(self)@, notes@) == old(self)@.address_noted(AM as int, ext, short, secured),
    {
        let mut notes: Vec<RxNote> = Vec::new();
        if ext.0 == 0 || ext.0 == 0xFFFF_FFFF_FFFF_FFFF || short.0 >= FIRST_NON_UNICAST_RAW {
            return notes;
        }
        match self.neighbors.find_extended(ext) {
            Some(i) => {
                let mut n = self.neighbors.entries()[i];
                if n.short != short && secured {
                    n.short = short;
                    self.neighbors.set_entry(i, n);
                }
            },
            None => {
                let stop = match self.neighbors.by_short(short) {
                    Some(n) => n.extended != ext && n.extended.0 != 0 && n.extended.0 != 0xFFFF_FFFF_FFFF_FFFF && secured,
                    None => false,
                };
                if stop {
                    notes.push(RxNote::RemoteAddressConflict(short));
                    assert(notes@ =~= seq![RxNote::RemoteAddressConflict(short)]);
                    return notes;
                }
            },
        }
        let u = self.address_map.record(ext, short);
        let conflict = match u {
            AddressMapUpdate::Conflict { .. } => true,
            _ => false,
        };
        if conflict && secured {
            notes.push(RxNote::RemoteAddressConflict(short));
            assert(notes@ =~= seq![RxNote::RemoteAddressConflict(short)]);
        }
        notes
    }

    /// Records the previous hop (see [`NwkStateView::hop_noted`]).
    fn note_hop(&mut self, secured_by: Option<ExtendedAddress>, mac_src: ShortAddress, dst: ShortAddress, lqi: u8)
        requires
            old(self).wf(),
        ensures
            final(self).wf(),
            final(self)@ == old(self)@.hop_noted(secured_by, mac_src, dst, lqi),
    {
        let idx = match secured_by {
            Some(sb) => self.neighbors.find_extended(sb),
            None => self.neighbors.find_short(mac_src),
        };
        if let Some(i) = idx {
            let mut n = self.neighbors.entries()[i];
            n.lqa.push(lqi);
            if secured_by.is_some() && n.short != mac_src && mac_src.0 < FIRST_NON_UNICAST_RAW {
                n.short = mac_src;
            }
            self.neighbors.set_entry(i, n);
        }
        if let Some(k) = self.neighbors.find_short(mac_src) {
            let mut n = self.neighbors.entries()[k];
            if n.is_router() && dst.0 < FIRST_NON_UNICAST_RAW {
                n.router_inbound_activity = n.router_inbound_activity.saturating_add(1);
                self.neighbors.set_entry(k, n);
            }
        }
    }

    /// Lost child examination (see
    /// [`NwkStateView::lost_child_examined`]).
    fn examine_lost_child(&mut self, src: ShortAddress, mac_src: ShortAddress, dst: ShortAddress, sequence: u8) -> (notes:
        Vec<RxNote>)
        requires
            old(self).wf(),
        ensures
            final(self).wf(),
            (final(self)@, notes@) == old(self)@.lost_child_examined(src, mac_src, dst, sequence),
    {
        let mut notes: Vec<RxNote> = Vec::new();
        if let Some(k) = self.neighbors.find_short(src) {
            let mut n = self.neighbors.entries()[k];
            if !n.is_end_device() || !n.relationship.is_child() || mac_src == src {
                return notes;
            }
            if dst.0 >= FIRST_NON_UNICAST_RAW && self.broadcasts.btt.get(src, sequence).is_some() {
                return notes;
            }
            n.relationship = Relationship::LostChild;
            self.neighbors.set_entry(k, n);
            notes.push(RxNote::LostChild(n.extended));
            assert(notes@ =~= seq![RxNote::LostChild(n.extended)]);
        }
        notes
    }
}

impl<const NB: usize, const BTT: usize, const D: usize, const AM: usize, const JL: usize> Nwk<NB, BTT, D, AM, JL> {
    /// The relay copy of a unicast frame for another device.
    fn unicast_relay_copy(frame: &[u8], header_len: usize, ps: usize, pe: usize) -> (r: Option<Vec<u8>>)
        ensures
            match NwkStateView::unicast_relay_copy(frame@, header_len as int, ps as int, pe as int) {
                Some(c) => r matches Some(v) && v@ == c,
                None => r is None,
            },
    {
        let h_len: usize = if header_len <= frame.len() { header_len } else { 0 };
        let p_ok = ps <= pe && pe <= frame.len();
        let p_len: usize = if p_ok { pe - ps } else { 0 };
        let p_start: usize = if p_ok { ps } else { 0 };
        if h_len > MAX_NPDU || p_len > MAX_NPDU - h_len {
            return None;
        }
        let mut c: Vec<u8> = Vec::new();
        let mut i: usize = 0;
        while i < h_len
            invariant
                i <= h_len,
                h_len == 0 || h_len == header_len,
                h_len <= frame@.len(),
                c@ == frame@.subrange(0, i as int),
            decreases h_len - i,
        {
            c.push(frame[i]);
            assert(frame@.subrange(0, i + 1) =~= frame@.subrange(0, i as int).push(frame@[i as int]));
            i = i + 1;
        }
        let mut k: usize = 0;
        while k < p_len
            invariant
                k <= p_len,
                p_ok ==> (p_start == ps && ps <= pe && pe <= frame@.len() && p_len == pe - ps),
                !p_ok ==> p_start == 0 && p_len == 0,
                h_len <= frame@.len(),
                c@ == frame@.subrange(0, h_len as int) + frame@.subrange(p_start as int, p_start + k),
            decreases p_len - k,
        {
            c.push(frame[p_start + k]);
            assert(frame@.subrange(p_start as int, p_start + k + 1) =~= frame@.subrange(p_start as int, p_start + k).push(frame@[p_start + k]));
            k = k + 1;
        }
        proof {
            let hp = range_or_empty(frame@, 0, header_len as int);
            let pp = range_or_empty(frame@, ps as int, pe as int);
            assert(hp =~= frame@.subrange(0, h_len as int));
            assert(pp =~= frame@.subrange(p_start as int, p_start + p_len));
            assert(c@ =~= hp + pp);
        }
        if c.len() > 1 {
            let b = c[1] & 0xFD;
            c.set(1, b);
        }
        match Header::decode_prefix(c.as_slice()) {
            Ok(_) => {},
            Err(_) => {
                return None;
            },
        }
        Some(c)
    }

    /// Where an accepted frame goes (see [`NwkStateView::rx_dispatched`]).
    fn dispatch(
        &mut self,
        frame: &[u8],
        h: &Header,
        header_len: usize,
        ps: usize,
        pe: usize,
        secured_by: Option<ExtendedAddress>,
        mac_src: ShortAddress,
        jitter_ms: u64,
    ) -> (r: (RxOutcome, Vec<RxNote>, Vec<u8>))
        requires
            old(self).wf(),
            jitter_ms <= MAX_BROADCAST_JITTER_MS,
        ensures
            final(self).wf(),
            ({
                let p = Parsed { h: h@, header_len: header_len as int, ps: ps as int, pe: pe as int, secured_by };
                let (v, o, n, c) = old(self)@.rx_dispatched(BTT as int, frame@, p, mac_src, jitter_ms);
                final(self)@ == v && r.0 == o && r.1@ == n && r.2@ == c
            }),
    {
        let fc = h.frame_control;
        let secured = fc.security();
        let is_command = fc.frame_type() == FrameType::Command;
        let router = self.nib.is_router_or_coordinator();
        let my = self.nib.network_address;
        let deliver = if is_command {
            RxOutcome::Command { src: h.src, secured, secured_by, payload_start: ps, payload_end: pe }
        } else {
            RxOutcome::Data {
                src: h.src,
                dst: h.dst,
                src_ieee: h.src_ieee,
                secured_by,
                secured,
                payload_start: ps,
                payload_end: pe,
            }
        };
        let mut notes: Vec<RxNote> = Vec::new();
        if h.dst.0 >= FIRST_NON_UNICAST_RAW {
            let now = self.now;
            let d = self.broadcasts.on_broadcast_received(
                &self.nib,
                &self.neighbors,
                self.passive_ack,
                self.operating_since,
                now,
                h.src,
                h.sequence,
                h.dst,
                h.radius,
                mac_src,
                frame,
                header_len,
                ps,
                pe,
                secured,
                jitter_ms,
            );
            if d == BroadcastDecision::AddressConflict {
                notes.push(RxNote::LocalAddressConflict);
                assert(notes@ =~= seq![RxNote::LocalAddressConflict]);
            }
            if d == BroadcastDecision::Deliver || d == BroadcastDecision::DeliverAndRelay {
                return (deliver, notes, Vec::new());
            }
            return (RxOutcome::Consumed, notes, Vec::new());
        }
        let relay_index: Option<u8> = match &h.source_route {
            Some(sr) => Some(sr.next_relay_index()),
            None => None,
        };
        let passing = match relay_index {
            Some(i) => i != 0 && router,
            None => false,
        };
        if h.dst == my && !passing {
            return (deliver, notes, Vec::new());
        }
        if !router || !self.nib.router_started {
            return (RxOutcome::Consumed, notes, Vec::new());
        }
        if is_command {
            let o = if ps < frame.len() {
                match NwkCommandId::from_raw(frame[ps]) {
                    NwkCommandId::NetworkStatus => RxOutcome::RelayNetworkStatus,
                    NwkCommandId::RouteRecord => RxOutcome::RelayRouteRecord,
                    _ => RxOutcome::Consumed,
                }
            } else {
                RxOutcome::Consumed
            };
            return (o, notes, Vec::new());
        }
        if h.radius <= 1 {
            return (RxOutcome::Consumed, notes, Vec::new());
        }
        match &h.source_route {
            Some(sr) => {
                if sr.next_relay_index() != 0 {
                    let ok = match sr.next_relay() {
                        Some(r) => r == my,
                        None => false,
                    };
                    if !ok {
                        return (RxOutcome::Consumed, notes, Vec::new());
                    }
                }
            },
            None => {},
        }
        match Self::unicast_relay_copy(frame, header_len, ps, pe) {
            Some(c) => (RxOutcome::RelayUnicast { secured }, notes, c),
            None => (RxOutcome::Consumed, notes, Vec::new()),
        }
    }

    /// Handles a frame the MAC delivered (see
    /// [`NwkStateView::mac_data_received`]): `frame` is the NPDU, its
    /// payload in plaintext once unsecured; `security` is the outcome of
    /// unsecuring a secured frame.
    #[verifier::rlimit(40)]
    pub fn on_mac_data(
        &mut self,
        frame: &[u8],
        security: Option<Result<Unsecured, SecurityFailure>>,
        mac_src: ShortAddress,
        lqi: u8,
        jitter_ms: u64,
    ) -> (d: RxDecision)
        requires
            old(self).wf(),
            jitter_ms <= MAX_BROADCAST_JITTER_MS,
        ensures
            final(self).wf(),
            ({
                let (v, o, n, c) = old(self)@.mac_data_received(
                    AM as int,
                    BTT as int,
                    frame@,
                    security,
                    mac_src,
                    lqi,
                    jitter_ms,
                );
                final(self)@ == v && d.outcome == o && d.notes@ == n && d.relay_frame@ == c
            }),
    {
        let (h, hl) = match Header::decode_prefix(frame) {
            Ok(v) => v,
            Err(_) => {
                self.stats.malformed = self.stats.malformed.saturating_add(1);
                return RxDecision { outcome: RxOutcome::Consumed, notes: Vec::new(), relay_frame: Vec::new() };
            },
        };
        let fc = h.frame_control;
        let ft = fc.frame_type();
        if ft == FrameType::InterPan {
            return RxDecision { outcome: RxOutcome::InterPan, notes: Vec::new(), relay_frame: Vec::new() };
        }
        if fc.protocol_version() != PROTOCOL_VERSION || ft == FrameType::Reserved {
            self.stats.malformed = self.stats.malformed.saturating_add(1);
            return RxDecision { outcome: RxOutcome::Consumed, notes: Vec::new(), relay_frame: Vec::new() };
        }
        if !self.nib.joined && self.join.is_none() {
            return RxDecision { outcome: RxOutcome::Consumed, notes: Vec::new(), relay_frame: Vec::new() };
        }
        let secured = fc.security();
        let (ps, pe, secured_by) = if secured {
            if !self.security_enabled {
                return RxDecision { outcome: RxOutcome::Consumed, notes: Vec::new(), relay_frame: Vec::new() };
            }
            match security {
                Some(Ok(u)) => (u.payload_start, u.payload_end, Some(u.sender)),
                Some(Err(SecurityFailure::BadFrameCounter)) => {
                    self.stats.replays = self.stats.replays.saturating_add(1);
                    return RxDecision { outcome: RxOutcome::Consumed, notes: Vec::new(), relay_frame: Vec::new() };
                },
                _ => {
                    self.stats.security_failures = self.stats.security_failures.saturating_add(1);
                    return RxDecision { outcome: RxOutcome::Consumed, notes: Vec::new(), relay_frame: Vec::new() };
                },
            }
        } else {
            if self.security_enabled && !self.unsecured_allowed(frame, &h, hl) {
                self.stats.security_failures = self.stats.security_failures.saturating_add(1);
                return RxDecision { outcome: RxOutcome::Consumed, notes: Vec::new(), relay_frame: Vec::new() };
            }
            (hl, frame.len(), None)
        };
        let router = self.nib.is_router_or_coordinator();
        let mut notes: Vec<RxNote> = match h.src_ieee {
            Some(e) => self.note_address(e, h.src, secured),
            None => Vec::new(),
        };
        self.note_hop(secured_by, mac_src, h.dst, lqi);
        let local_conflict = match h.dst_ieee {
            Some(di) => secured && h.dst == self.nib.network_address && di != self.nib.ieee_address && router,
            None => false,
        };
        if local_conflict {
            notes.push(RxNote::LocalAddressConflict);
        }
        if fc.end_device_initiator() {
            let known_ed = match self.neighbors.by_short(h.src) {
                Some(n) => n.is_end_device(),
                None => false,
            };
            if !router || !known_ed {
                if router && secured {
                    notes.push(RxNote::LeaveToUnknownChild(h.src));
                }
                return RxDecision { outcome: RxOutcome::Consumed, notes, relay_frame: Vec::new() };
            }
        }
        if router && secured {
            let mut n3 = self.examine_lost_child(h.src, mac_src, h.dst, h.sequence);
            notes.append(&mut n3);
        }
        let (o, mut n4, c) = self.dispatch(frame, &h, hl, ps, pe, secured_by, mac_src, jitter_ms);
        notes.append(&mut n4);
        RxDecision { outcome: o, notes, relay_frame: c }
    }
}

} // verus!
