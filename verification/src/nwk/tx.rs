//! The transmission decision of the network layer: NLDE-DATA.request
//! checks, NPDU construction and where the frame goes next.
//!
//! What the routing and source route tables hold for the destination is
//! handed in as a [`RoutingInfo`]; securing the frame and queueing it for
//! the MAC follow the decision and are done by the caller.
use vstd::prelude::*;

use crate::codec::push_bytes;
use crate::nwk::frame::{lemma_nwk_frame_round_trip, spec_decode_frame};
use crate::codec::CodecError;
use crate::nwk::frame::{
    DiscoverRoute, FrameControl, FrameType, Header, HeaderView, SourceRouteView, FC_END_DEVICE_INITIATOR,
    FC_SECURITY, FC_SOURCE_ROUTE, FC_SRC_IEEE, MAX_SOURCE_ROUTE_RELAYS, spec_with_bit,
};
use crate::nwk::layer::{alloc_id, next_nonzero, TxId, MAX_NPDU};
use crate::nwk::neighbor::{first_match, has_short, NeighborEntry};
use crate::nwk::nib::constants::DEFAULT_RADIUS;
use crate::nwk::nib::Nib;
use crate::nwk::relay::OriginateOutcome;
use crate::nwk::state::{Nwk, NwkStateView};
use crate::types::{ShortAddress, FIRST_NON_UNICAST_RAW, NO_SHORT_ADDRESS_RAW};

verus! {

/// Errors of the network layer's requests.
#[derive(Clone, Copy, PartialEq, Eq, Debug, Structural)]
pub enum NwkError {
    /// The request is invalid in the current state.
    InvalidRequest,
    /// A parameter is out of range.
    InvalidParameter,
    /// The payload does not fit in an NPDU.
    FrameTooLong,
    /// A queue or table is full; retry later.
    Busy,
    /// Security processing failed, with the NWK status code.
    Security(u8),
    /// No route and route discovery not permitted.
    RouteError,
    /// The device is not joined.
    NotJoined,
    /// The outgoing frame counter is waiting for its reservation.
    CounterPending,
}

/// The state of the routing table entry for a destination.
#[derive(Clone, Copy, PartialEq, Eq, Debug, Structural)]
pub enum RouteState {
    /// An active route through this next hop.
    Active(ShortAddress),
    /// A route discovery is underway.
    DiscoveryUnderway,
    /// No entry, or one that cannot be used.
    Unusable,
}

/// What the routing tables hold for the destination of a request.
#[derive(Clone, Debug)]
pub struct RoutingInfo {
    /// The routing table entry's state.
    pub route: RouteState,
    /// The entry is a many-to-one route whose concentrator wants a Route
    /// Record before data.
    pub route_record_required: bool,
    /// The relays of the source route table entry (nearest the
    /// destination first), empty when there is none.
    pub source_relays: Vec<ShortAddress>,
}

/// Where a unicast frame goes next.
#[derive(Clone, Copy, PartialEq, Eq, Debug, Structural)]
pub enum RouteDecision {
    /// Transmit directly (neighbor, child or parent) to this address.
    Direct(ShortAddress),
    /// Forward via the routing table's next hop.
    NextHop(ShortAddress),
    /// A discovery is underway or must be started; hold the frame.
    Discover,
    /// No route and discovery not permitted.
    NoRoute,
}

/// What happens to an accepted data request's frame.
#[derive(Clone, Copy, PartialEq, Eq, Debug, Structural)]
pub enum TxPlan {
    /// A broadcast, as broadcast origination took it.
    Broadcast(OriginateOutcome),
    /// Source routed: sent to the relay nearest this device.
    SourceRouted { first_hop: ShortAddress },
    /// Sent to `next_hop`; `indirect` for a sleepy end-device child;
    /// `route_record_first` when a Route Record must precede it.
    Unicast { next_hop: ShortAddress, indirect: bool, route_record_first: bool },
    /// Held until route discovery ends.
    AwaitRoute,
}

/// An accepted data request: its identifier, the plaintext NPDU and its
/// header length, whether it is to be secured, and where it goes.
#[derive(Clone, Debug)]
pub struct TxDecision {
    /// Identifier echoed in the confirm.
    pub id: TxId,
    /// Plaintext NPDU.
    pub npdu: Vec<u8>,
    /// Length of its NWK header.
    pub header_len: usize,
    /// The frame is to be secured.
    pub secure: bool,
    /// Where it goes.
    pub plan: TxPlan,
}

/// A destination no request may name: "no address" and the reserved
/// broadcast values `0xFFF8..=0xFFFB`.
pub open spec fn invalid_destination(dst: ShortAddress) -> bool {
    dst.0 == NO_SHORT_ADDRESS_RAW || (FIRST_NON_UNICAST_RAW <= dst.0 && dst.0 <= 0xFFFB)
}

/// The little-endian octets of a relay list.
pub open spec fn relay_bytes(relays: Seq<ShortAddress>) -> Seq<u8>
    decreases relays.len(),
{
    if relays.len() == 0 {
        Seq::empty()
    } else {
        let r = relays.last();
        relay_bytes(relays.drop_last()) + seq![(r.0 & 0xFF) as u8, (r.0 >> 8) as u8]
    }
}

/// A relay list takes two octets per relay.
pub proof fn lemma_relay_bytes_len(relays: Seq<ShortAddress>)
    ensures
        relay_bytes(relays).len() == 2 * relays.len(),
    decreases relays.len(),
{
    if relays.len() > 0 {
        lemma_relay_bytes_len(relays.drop_last());
    }
}

/// The plaintext NPDU of `h` and `payload` with its header length: too
/// long past [`MAX_NPDU`] octets, invalid when the header cannot be
/// encoded.
pub open spec fn npdu_built(h: HeaderView, payload: Seq<u8>) -> Result<(Seq<u8>, int), NwkError> {
    if h.spec_encode().len() + payload.len() > MAX_NPDU {
        Err(NwkError::FrameTooLong)
    } else if h.spec_encode_error() is Some {
        Err(NwkError::InvalidParameter)
    } else {
        Ok((h.spec_encode() + payload, h.spec_encode().len() as int))
    }
}

/// The header of a data frame from `src` with sequence number `seq`:
/// secured as asked, route discovery enabled for a unicast destination
/// when asked, the end device initiator bit on an end device with parent
/// information, and the source IEEE address while the device is not yet
/// authenticated (unless it sends under an alias).
#[verifier::opaque]
pub open spec fn data_header(
    nib: Nib,
    dst: ShortAddress,
    src: ShortAddress,
    radius: u8,
    seq: u8,
    discover_route: bool,
    secure: bool,
    aliased: bool,
) -> HeaderView {
    let fc0 = FrameType::Data.spec_bits() | 0x0008u16;
    let fc1 = spec_with_bit(fc0, FC_SECURITY, secure);
    let d = if discover_route && dst.0 < FIRST_NON_UNICAST_RAW {
        DiscoverRoute::Enable
    } else {
        DiscoverRoute::Suppress
    };
    let fc2 = (fc1 & !0x00C0u16) | (d.spec_bits() << 6);
    let fc3 = if nib.device_type is EndDevice && nib.parent_information.0 != 0 {
        spec_with_bit(fc2, FC_END_DEVICE_INITIATOR, true)
    } else {
        fc2
    };
    let ieee = !nib.authenticated && !aliased;
    let fc4 = if ieee { spec_with_bit(fc3, FC_SRC_IEEE, true) } else { fc3 };
    HeaderView {
        frame_control: FrameControl(fc4),
        dst,
        src,
        radius,
        sequence: seq,
        dst_ieee: None,
        src_ieee: if ieee { Some(nib.ieee_address) } else { None },
        source_route: None,
    }
}

/// The header of a data frame decodes back from the frame: a data frame
/// (type 0, protocol version 2) from `src` to `dst` with the given radius
/// and sequence number, the security flag (bit 9) as asked, route discovery
/// (bits 6-7) enabled exactly for a unicast destination when asked, the
/// end device initiator flag (bit 13) on an end device with parent
/// information, the source IEEE flag (bit 12) with the device's address
/// while unauthenticated and not aliased, no destination IEEE address and
/// no source route; the payload follows unchanged.
pub proof fn lemma_data_frame_decodes(
    nib: Nib,
    dst: ShortAddress,
    src: ShortAddress,
    radius: u8,
    seq: u8,
    discover_route: bool,
    secure: bool,
    aliased: bool,
    payload: Seq<u8>,
)
    ensures
        ({
            let h = data_header(nib, dst, src, radius, seq, discover_route, secure, aliased);
            let fc = h.frame_control.0;
            let ieee = !nib.authenticated && !aliased;
            &&& spec_decode_frame(h.spec_encode() + payload) == Ok::<(HeaderView, Seq<u8>), CodecError>((h, payload))
            &&& h.dst == dst && h.src == src && h.radius == radius && h.sequence == seq
            &&& fc & 0x3 == 0
            &&& (fc >> 2u16) & 0xF == 2
            &&& (fc & 0x0200 != 0) == secure
            &&& (fc >> 6u16) & 0x3 == (if discover_route && dst.0 < FIRST_NON_UNICAST_RAW { 1u16 } else { 0u16 })
            &&& (fc & 0x2000 != 0) == (nib.device_type is EndDevice && nib.parent_information.0 != 0)
            &&& (fc & 0x1000 != 0) == ieee
            &&& h.src_ieee == (if ieee { Some(nib.ieee_address) } else { None })
            &&& fc & 0x0800 == 0 && h.dst_ieee is None
            &&& fc & 0x0400 == 0 && h.source_route is None
        }),
{
    reveal(data_header);
    let h = data_header(nib, dst, src, radius, seq, discover_route, secure, aliased);
    let d: u16 = if discover_route && dst.0 < FIRST_NON_UNICAST_RAW { 1 } else { 0 };
    let e = nib.device_type is EndDevice && nib.parent_information.0 != 0;
    let ieee = !nib.authenticated && !aliased;
    let t = FrameType::Data.spec_bits();
    assert(t == 0);
    let fc1 = spec_with_bit(t | 0x0008u16, 0x0200u16, secure);
    let fc2 = (fc1 & !0x00C0u16) | (d << 6);
    let fc3 = if e { spec_with_bit(fc2, 0x2000u16, true) } else { fc2 };
    let fc4 = if ieee { spec_with_bit(fc3, 0x1000u16, true) } else { fc3 };
    assert(h.frame_control.0 == fc4);
    assert(fc4 & 0x3 == 0 && (fc4 >> 2u16) & 0xF == 2 && (fc4 & 0x0200 != 0) == secure && (fc4 >> 6u16) & 0x3 == d && (fc4
        & 0x2000 != 0) == e && (fc4 & 0x1000 != 0) == ieee && fc4 & 0x0800 == 0 && fc4 & 0x0400 == 0) by (bit_vector)
        requires
            d < 2,
            t == 0,
            fc1 == spec_with_bit(t | 0x0008u16, 0x0200u16, secure),
            fc2 == (fc1 & !0x00C0u16) | (d << 6),
            fc3 == (if e { spec_with_bit(fc2, 0x2000u16, true) } else { fc2 }),
            fc4 == (if ieee { spec_with_bit(fc3, 0x1000u16, true) } else { fc3 }),
    ;
    assert(h.wf());
    lemma_nwk_frame_round_trip(h, payload);
}

/// `h` with a source route subframe of `relays`.
pub open spec fn with_source_route(h: HeaderView, relays: Seq<ShortAddress>) -> HeaderView {
    let n = if relays.len() <= MAX_SOURCE_ROUTE_RELAYS { relays.len() } else { MAX_SOURCE_ROUTE_RELAYS as nat };
    HeaderView {
        frame_control: FrameControl(spec_with_bit(h.frame_control.0, FC_SOURCE_ROUTE, true)),
        source_route: Some(
            SourceRouteView { relay_index: (n - 1) as u8, relays: relay_bytes(relays.subrange(0, n as int)) },
        ),
        ..h
    }
}

impl NwkStateView {
    /// Where a unicast for `dst` goes: an end device sends to its parent
    /// (no route without one); a router sends directly to a child, or to
    /// a router neighbor with a usable link; otherwise an active route's
    /// next hop; discovery when one is underway or asked for; as a last
    /// resort directly to any neighbor.
    pub open spec fn unicast_route(self, dst: ShortAddress, discover: bool, route: RouteState) -> RouteDecision {
        if self.nib.device_type is EndDevice {
            if self.nib.parent_address.0 == NO_SHORT_ADDRESS_RAW {
                RouteDecision::NoRoute
            } else {
                RouteDecision::Direct(self.nib.parent_address)
            }
        } else {
            let found = first_match(self.neighbors, has_short(dst));
            let direct = match found {
                Some(i) => {
                    let n = self.neighbors[i];
                    n.relationship.spec_is_child() || (n.spec_is_router() && n.outgoing_cost != 0
                        && n.transmit_failure < 3)
                },
                None => false,
            };
            if direct {
                RouteDecision::Direct(dst)
            } else {
                match route {
                    RouteState::Active(hop) => RouteDecision::NextHop(hop),
                    RouteState::DiscoveryUnderway => RouteDecision::Discover,
                    RouteState::Unusable => if discover {
                        RouteDecision::Discover
                    } else if found is Some {
                        RouteDecision::Direct(dst)
                    } else {
                        RouteDecision::NoRoute
                    },
                }
            }
        }
    }

    /// The next hop's outbound activity counter, counted (saturating).
    pub open spec fn outbound_counted(self, hop: ShortAddress) -> NwkStateView {
        match first_match(self.neighbors, has_short(hop)) {
            Some(k) => NwkStateView {
                neighbors: self.neighbors.update(
                    k,
                    NeighborEntry {
                        router_outbound_activity: if self.neighbors[k].router_outbound_activity == 255 {
                            255u8
                        } else {
                            (self.neighbors[k].router_outbound_activity + 1) as u8
                        },
                        ..self.neighbors[k]
                    },
                ),
                ..self
            },
            None => self,
        }
    }

    /// Routing a unicast (see [`Self::unicast_route`]); a next hop
    /// counts the frame in its neighbor entry.
    pub open spec fn unicast_routed(self, dst: ShortAddress, discover: bool, route: RouteState) -> (
        NwkStateView,
        RouteDecision,
    ) {
        let d = self.unicast_route(dst, discover, route);
        match d {
            RouteDecision::NextHop(h) => (self.outbound_counted(h), d),
            _ => (self, d),
        }
    }

    /// A frame to `hop` is delivered indirectly: `hop` is a sleepy end
    /// device child.
    pub open spec fn indirect_to(self, hop: ShortAddress) -> bool {
        match first_match(self.neighbors, has_short(hop)) {
            Some(i) => {
                let n = self.neighbors[i];
                n.relationship.spec_is_child() && n.device_type is EndDevice && !n.rx_on_when_idle
            },
            None => false,
        }
    }

    /// NLDE-DATA.request, optionally under an alias source address and
    /// sequence number: refused when not joined, for an alias that is not
    /// a unicast address and for an invalid destination. Otherwise the
    /// frame takes the next sequence number (the alias's when aliased),
    /// is secured when asked and security is in use, and gets a radius of
    /// at least 1 (the default when none is given). A broadcast goes to
    /// broadcast origination (busy when it has no room); a concentrator
    /// with a source route for the destination sends source routed; any
    /// other unicast is routed (see [`Self::unicast_routed`]), and with no
    /// route fails, counted.
    pub open spec fn data_requested(
        self,
        btt_cap: int,
        dst: ShortAddress,
        payload: Seq<u8>,
        radius: Option<u8>,
        discover_route: bool,
        secure: bool,
        alias: Option<(ShortAddress, u8)>,
        counter_pending: bool,
        route: RouteState,
        route_record_required: bool,
        source_relays: Seq<ShortAddress>,
    ) -> (NwkStateView, Result<(TxId, Seq<u8>, int, bool, TxPlan), NwkError>) {
        if !self.nib.joined {
            (self, Err(NwkError::NotJoined))
        } else if alias matches Some((a, _)) && a.0 >= FIRST_NON_UNICAST_RAW {
            (self, Err(NwkError::InvalidParameter))
        } else if invalid_destination(dst) {
            (self, Err(NwkError::InvalidParameter))
        } else {
            let sec = secure && self.security_enabled;
            let r0 = match radius {
                Some(r) => r,
                None => DEFAULT_RADIUS,
            };
            let rad: u8 = if r0 < 1 { 1 } else { r0 };
            self.data_accepted(
                btt_cap,
                dst,
                payload,
                rad,
                discover_route,
                sec,
                alias,
                counter_pending,
                route,
                route_record_required,
                source_relays,
            )
        }
    }

    /// The source address and sequence number of a data frame: the
    /// alias's, or this device's address and the next sequence number.
    #[verifier::opaque]
    pub open spec fn sequence_taken(self, alias: Option<(ShortAddress, u8)>) -> (NwkStateView, ShortAddress, u8) {
        match alias {
            Some((a, s)) => (self, a, s),
            None => (
                NwkStateView {
                    nib: Nib {
                        sequence_number: if self.nib.sequence_number == 255 {
                            0u8
                        } else {
                            (self.nib.sequence_number + 1) as u8
                        },
                        ..self.nib
                    },
                    ..self
                },
                self.nib.network_address,
                self.nib.sequence_number,
            ),
        }
    }

    /// An accepted data request with its radius and security settled:
    /// the sequence number is taken (unless aliased), the header built
    /// and the frame sent as a broadcast, source routed or routed.
    #[verifier::opaque]
    pub open spec fn data_accepted(
        self,
        btt_cap: int,
        dst: ShortAddress,
        payload: Seq<u8>,
        rad: u8,
        discover_route: bool,
        sec: bool,
        alias: Option<(ShortAddress, u8)>,
        counter_pending: bool,
        route: RouteState,
        route_record_required: bool,
        source_relays: Seq<ShortAddress>,
    ) -> (NwkStateView, Result<(TxId, Seq<u8>, int, bool, TxPlan), NwkError>) {
        let (s1, src, seq) = self.sequence_taken(alias);
        let h = data_header(s1.nib, dst, src, rad, seq, discover_route, sec, alias is Some);
        if dst.0 >= FIRST_NON_UNICAST_RAW {
            s1.broadcast_data(btt_cap, h, payload, sec, counter_pending)
        } else if self.nib.is_concentrator && alias is None && source_relays.len() > 0 {
            s1.source_routed_data(h, payload, sec, source_relays)
        } else {
            s1.routed_data(h, payload, sec, dst, discover_route, route, route_record_required)
        }
    }

    /// A broadcast data frame: built, then handed to broadcast
    /// origination (an identifier is taken once the frame is built).
    #[verifier::opaque]
    pub open spec fn broadcast_data(
        self,
        btt_cap: int,
        h: HeaderView,
        payload: Seq<u8>,
        sec: bool,
        counter_pending: bool,
    ) -> (NwkStateView, Result<(TxId, Seq<u8>, int, bool, TxPlan), NwkError>) {
        match npdu_built(h, payload) {
            Err(e) => (self, Err(e)),
            Ok((b, hl)) => {
                let (bv, o) = self.broadcasts.originated(
                    self.nib,
                    self.neighbors,
                    self.passive_ack,
                    self.now,
                    btt_cap,
                    counter_pending,
                    b,
                    hl as usize,
                    sec,
                );
                let s2 = NwkStateView { broadcasts: bv, next_tx_id: next_nonzero(self.next_tx_id), ..self };
                if o is Busy {
                    (s2, Err(NwkError::Busy))
                } else {
                    (s2, Ok((TxId(self.next_tx_id), b, hl, sec, TxPlan::Broadcast(o))))
                }
            },
        }
    }

    /// A source routed data frame to the relay nearest this device (an
    /// identifier is taken first).
    #[verifier::opaque]
    pub open spec fn source_routed_data(self, h: HeaderView, payload: Seq<u8>, sec: bool, source_relays: Seq<
        ShortAddress,
    >) -> (NwkStateView, Result<(TxId, Seq<u8>, int, bool, TxPlan), NwkError>) {
        let s2 = NwkStateView { next_tx_id: next_nonzero(self.next_tx_id), ..self };
        match npdu_built(with_source_route(h, source_relays), payload) {
            Err(e) => (s2, Err(e)),
            Ok((b, hl)) => (
                s2,
                Ok((TxId(self.next_tx_id), b, hl, sec, TxPlan::SourceRouted { first_hop: source_relays.last() })),
            ),
        }
    }

    /// A routed unicast data frame (an identifier is taken first; see
    /// [`Self::unicast_routed`]); no route is counted.
    #[verifier::opaque]
    pub open spec fn routed_data(
        self,
        h: HeaderView,
        payload: Seq<u8>,
        sec: bool,
        dst: ShortAddress,
        discover_route: bool,
        route: RouteState,
        route_record_required: bool,
    ) -> (NwkStateView, Result<(TxId, Seq<u8>, int, bool, TxPlan), NwkError>) {
        let id = TxId(self.next_tx_id);
        let s1 = NwkStateView { next_tx_id: next_nonzero(self.next_tx_id), ..self };
        match npdu_built(h, payload) {
            Err(e) => (s1, Err(e)),
            Ok((b, hl)) => {
                let (s2, d) = s1.unicast_routed(dst, discover_route, route);
                match d {
                    RouteDecision::Direct(hop) | RouteDecision::NextHop(hop) => (
                        s2,
                        Ok(
                            (
                                id,
                                b,
                                hl,
                                sec,
                                TxPlan::Unicast {
                                    next_hop: hop,
                                    indirect: s2.indirect_to(hop),
                                    route_record_first: route_record_required,
                                },
                            ),
                        ),
                    ),
                    RouteDecision::Discover => (s2, Ok((id, b, hl, sec, TxPlan::AwaitRoute))),
                    RouteDecision::NoRoute => (
                        NwkStateView {
                            stats: crate::nwk::layer::NwkStats {
                                no_route: if s2.stats.no_route == u32::MAX {
                                    u32::MAX
                                } else {
                                    (s2.stats.no_route + 1) as u32
                                },
                                ..s2.stats
                            },
                            ..s2
                        },
                        Err(NwkError::RouteError),
                    ),
                }
            },
        }
    }
}

/// `o` is the exec form of the spec outcome `r`.
pub open spec fn decision_is(o: Result<TxDecision, NwkError>, r: Result<(TxId, Seq<u8>, int, bool, TxPlan), NwkError>) -> bool {
    match r {
        Ok((id, b, hl, sec, plan)) => o matches Ok(t) && t.id == id && t.npdu@ == b && t.header_len == hl && t.secure
            == sec && t.plan == plan,
        Err(e) => o == Err::<TxDecision, NwkError>(e),
    }
}

/// The plaintext NPDU of `header` and `payload` (see [`npdu_built`]).
pub fn build_npdu(header: &Header, payload: &[u8]) -> (r: Result<(Vec<u8>, usize), NwkError>)
    requires
        header.source_route matches Some(sr) ==> sr@.relays.len() <= 2 * MAX_SOURCE_ROUTE_RELAYS,
    ensures
        match npdu_built(header@, payload@) {
            Ok((b, hl)) => r matches Ok((v, n)) && v@ == b && n == hl,
            Err(e) => r == Err::<(Vec<u8>, usize), NwkError>(e),
        },
{
    let hl = header.encoded_len();
    if payload.len() > MAX_NPDU || hl > MAX_NPDU - payload.len() {
        return Err(NwkError::FrameTooLong);
    }
    let mut out: Vec<u8> = Vec::new();
    match header.encode(&mut out) {
        Ok(()) => {},
        Err(_) => {
            return Err(NwkError::InvalidParameter);
        },
    }
    push_bytes(&mut out, payload);
    assert(out@ =~= header@.spec_encode() + payload@);
    Ok((out, hl))
}

/// The little-endian octets of the first `n` relays.
fn relay_list_bytes(relays: &[ShortAddress], n: usize) -> (v: Vec<u8>)
    requires
        n <= relays@.len(),
    ensures
        v@ == relay_bytes(relays@.subrange(0, n as int)),
{
    let mut v: Vec<u8> = Vec::new();
    let mut i: usize = 0;
    while i < n
        invariant
            i <= n,
            n <= relays@.len(),
            v@ == relay_bytes(relays@.subrange(0, i as int)),
        decreases n - i,
    {
        let r = relays[i];
        v.push((r.0 & 0xFF) as u8);
        v.push((r.0 >> 8) as u8);
        assert(relays@.subrange(0, i + 1).drop_last() =~= relays@.subrange(0, i as int));
        assert(v@ =~= relay_bytes(relays@.subrange(0, i as int)) + seq![(r.0 & 0xFF) as u8, (r.0 >> 8) as u8]);
        i = i + 1;
    }
    v
}

impl<const NB: usize, const BTT: usize, const D: usize, const AM: usize, const JL: usize> Nwk<NB, BTT, D, AM, JL> {
    /// Routes a unicast for `dst` (see [`NwkStateView::unicast_routed`]).
    pub fn route_unicast(&mut self, dst: ShortAddress, discover: bool, route: RouteState) -> (d: RouteDecision)
        requires
            old(self).wf(),
        ensures
            final(self).wf(),
            (final(self)@, d) == old(self)@.unicast_routed(dst, discover, route),
    {
        if self.nib.is_end_device() {
            let parent = self.nib.parent_address;
            return if parent.0 == NO_SHORT_ADDRESS_RAW {
                RouteDecision::NoRoute
            } else {
                RouteDecision::Direct(parent)
            };
        }
        let found = self.neighbors.find_short(dst);
        let direct = match found {
            Some(i) => {
                let n = self.neighbors.entries()[i];
                n.relationship.is_child() || (n.is_router() && n.outgoing_cost != 0 && n.transmit_failure < 3)
            },
            None => false,
        };
        if direct {
            return RouteDecision::Direct(dst);
        }
        match route {
            RouteState::Active(hop) => {
                if let Some(k) = self.neighbors.find_short(hop) {
                    let mut n = self.neighbors.entries()[k];
                    n.router_outbound_activity = n.router_outbound_activity.saturating_add(1);
                    self.neighbors.set_entry(k, n);
                }
                RouteDecision::NextHop(hop)
            },
            RouteState::DiscoveryUnderway => RouteDecision::Discover,
            RouteState::Unusable => if discover {
                RouteDecision::Discover
            } else if found.is_some() {
                RouteDecision::Direct(dst)
            } else {
                RouteDecision::NoRoute
            },
        }
    }

    /// A broadcast data frame (see [`NwkStateView::broadcast_data`]).
    fn send_broadcast_data(&mut self, header: &Header, payload: &[u8], sec: bool, counter_pending: bool) -> (o: Result<
        TxDecision,
        NwkError,
    >)
        requires
            old(self).wf(),
            header.source_route is None,
        ensures
            final(self).wf(),
            ({
                let (v, r) = old(self)@.broadcast_data(BTT as int, header@, payload@, sec, counter_pending);
                final(self)@ == v && decision_is(o, r)
            }),
    {
        proof {
            reveal(NwkStateView::broadcast_data);
        }
        let (frame, hl) = match build_npdu(header, payload) {
            Ok(v) => v,
            Err(e) => {
                return Err(e);
            },
        };
        let id = TxId(alloc_id(&mut self.next_tx_id));
        let copy = frame.clone();
        assert(copy@ =~= frame@);
        let o = self.broadcasts.originate(
            &self.nib,
            &self.neighbors,
            self.passive_ack,
            self.now,
            counter_pending,
            copy,
            hl,
            sec,
        );
        if o == OriginateOutcome::Busy {
            return Err(NwkError::Busy);
        }
        Ok(TxDecision { id, npdu: frame, header_len: hl, secure: sec, plan: TxPlan::Broadcast(o) })
    }

    /// A source routed data frame (see
    /// [`NwkStateView::source_routed_data`]).
    fn send_source_routed_data(&mut self, header: &Header, payload: &[u8], sec: bool, relays: &[ShortAddress]) -> (o:
        Result<TxDecision, NwkError>)
        requires
            old(self).wf(),
            header.source_route is None,
            relays@.len() > 0,
        ensures
            final(self).wf(),
            ({
                let (v, r) = old(self)@.source_routed_data(header@, payload@, sec, relays@);
                final(self)@ == v && decision_is(o, r)
            }),
    {
        proof {
            reveal(NwkStateView::source_routed_data);
        }
        let id = TxId(alloc_id(&mut self.next_tx_id));
        let n_relays = relays.len();
        let n: usize = if n_relays <= MAX_SOURCE_ROUTE_RELAYS { n_relays } else { MAX_SOURCE_ROUTE_RELAYS };
        let relay_vec = relay_list_bytes(relays, n);
        proof {
            lemma_relay_bytes_len(relays@.subrange(0, n as int));
        }
        let idx: u8 = (n - 1) as u8;
        let h2 = header.with_source_route(idx, relay_vec.as_slice());
        assert(h2@ == with_source_route(header@, relays@));
        let (frame, hl) = match build_npdu(&h2, payload) {
            Ok(v) => v,
            Err(e) => {
                return Err(e);
            },
        };
        let first_hop = relays[n_relays - 1];
        Ok(TxDecision { id, npdu: frame, header_len: hl, secure: sec, plan: TxPlan::SourceRouted { first_hop } })
    }

    /// A routed unicast data frame (see [`NwkStateView::routed_data`]).
    fn send_routed_data(
        &mut self,
        header: &Header,
        payload: &[u8],
        sec: bool,
        dst: ShortAddress,
        discover_route: bool,
        route: RouteState,
        route_record_required: bool,
    ) -> (o: Result<TxDecision, NwkError>)
        requires
            old(self).wf(),
            header.source_route is None,
        ensures
            final(self).wf(),
            ({
                let (v, r) = old(self)@.routed_data(header@, payload@, sec, dst, discover_route, route, route_record_required);
                final(self)@ == v && decision_is(o, r)
            }),
    {
        proof {
            reveal(NwkStateView::routed_data);
        }
        let id = TxId(alloc_id(&mut self.next_tx_id));
        let (frame, hl) = match build_npdu(header, payload) {
            Ok(v) => v,
            Err(e) => {
                return Err(e);
            },
        };
        let rd = self.route_unicast(dst, discover_route, route);
        match rd {
            RouteDecision::Direct(hop) | RouteDecision::NextHop(hop) => {
                let indirect = self.is_indirect(hop);
                Ok(
                    TxDecision {
                        id,
                        npdu: frame,
                        header_len: hl,
                        secure: sec,
                        plan: TxPlan::Unicast { next_hop: hop, indirect, route_record_first: route_record_required },
                    },
                )
            },
            RouteDecision::Discover => Ok(TxDecision { id, npdu: frame, header_len: hl, secure: sec, plan: TxPlan::AwaitRoute }),
            RouteDecision::NoRoute => {
                self.stats.no_route = self.stats.no_route.saturating_add(1);
                Err(NwkError::RouteError)
            },
        }
    }

    /// The header of a data frame (see [`data_header`]).
    fn build_data_header<'a>(
        nib: &Nib,
        dst: ShortAddress,
        src: ShortAddress,
        rad: u8,
        seq: u8,
        discover_route: bool,
        sec: bool,
        aliased: bool,
    ) -> (h: Header<'a>)
        ensures
            h@ == data_header(*nib, dst, src, rad, seq, discover_route, sec, aliased),
            h.source_route is None,
    {
        proof {
            reveal(data_header);
        }
        let d = if discover_route && dst.0 < FIRST_NON_UNICAST_RAW {
            DiscoverRoute::Enable
        } else {
            DiscoverRoute::Suppress
        };
        let mut header = Header::new(FrameType::Data, dst, src, rad, seq).secured(sec).with_discover_route(d);
        if nib.is_end_device() && nib.parent_information.0 != 0 {
            header = header.with_end_device_initiator(true);
        }
        if !nib.authenticated && !aliased {
            header = header.with_src_ieee(nib.ieee_address);
        }
        header
    }

    /// NLDE-DATA.request under an optional alias (see
    /// [`NwkStateView::data_requested`]). `counter_pending`: the frame
    /// counter reservation is not committed yet; `routing`: what the
    /// routing tables hold for `dst`.
    pub fn data_request_aliased(
        &mut self,
        dst: ShortAddress,
        payload: &[u8],
        radius: Option<u8>,
        discover_route: bool,
        secure: bool,
        alias: Option<(ShortAddress, u8)>,
        counter_pending: bool,
        routing: &RoutingInfo,
    ) -> (o: Result<TxDecision, NwkError>)
        requires
            old(self).wf(),
        ensures
            final(self).wf(),
            ({
                let (v, r) = old(self)@.data_requested(
                    BTT as int,
                    dst,
                    payload@,
                    radius,
                    discover_route,
                    secure,
                    alias,
                    counter_pending,
                    routing.route,
                    routing.route_record_required,
                    routing.source_relays@,
                );
                final(self)@ == v && decision_is(o, r)
            }),
    {
        if !self.nib.joined {
            return Err(NwkError::NotJoined);
        }
        if let Some((a, _)) = alias {
            if a.0 >= FIRST_NON_UNICAST_RAW {
                return Err(NwkError::InvalidParameter);
            }
        }
        if dst.0 == NO_SHORT_ADDRESS_RAW || (dst.0 >= FIRST_NON_UNICAST_RAW && dst.0 <= 0xFFFB) {
            return Err(NwkError::InvalidParameter);
        }
        let sec = secure && self.security_enabled;
        let r0 = match radius {
            Some(r) => r,
            None => DEFAULT_RADIUS,
        };
        let rad: u8 = if r0 < 1 { 1 } else { r0 };
        self.accept_data(dst, payload, rad, discover_route, sec, alias, counter_pending, routing)
    }

    /// Takes the source address and sequence number of a data frame (see
    /// [`NwkStateView::sequence_taken`]).
    fn take_sequence(&mut self, alias: Option<(ShortAddress, u8)>) -> (r: (ShortAddress, u8))
        requires
            old(self).wf(),
        ensures
            final(self).wf(),
            (final(self)@, r.0, r.1) == old(self)@.sequence_taken(alias),
    {
        proof {
            reveal(NwkStateView::sequence_taken);
        }
        match alias {
            Some((a, s)) => (a, s),
            None => (self.nib.network_address, self.nib.next_sequence()),
        }
    }

    /// An accepted data request (see [`NwkStateView::data_accepted`]).
    fn accept_data(
        &mut self,
        dst: ShortAddress,
        payload: &[u8],
        rad: u8,
        discover_route: bool,
        sec: bool,
        alias: Option<(ShortAddress, u8)>,
        counter_pending: bool,
        routing: &RoutingInfo,
    ) -> (o: Result<TxDecision, NwkError>)
        requires
            old(self).wf(),
        ensures
            final(self).wf(),
            ({
                let (v, r) = old(self)@.data_accepted(
                    BTT as int,
                    dst,
                    payload@,
                    rad,
                    discover_route,
                    sec,
                    alias,
                    counter_pending,
                    routing.route,
                    routing.route_record_required,
                    routing.source_relays@,
                );
                final(self)@ == v && decision_is(o, r)
            }),
    {
        proof {
            reveal(NwkStateView::data_accepted);
        }
        let use_sr = self.nib.is_concentrator && alias.is_none() && routing.source_relays.len() > 0;
        let (src, seq) = self.take_sequence(alias);
        let header = Self::build_data_header(&self.nib, dst, src, rad, seq, discover_route, sec, alias.is_some());
        if dst.0 >= FIRST_NON_UNICAST_RAW {
            self.send_broadcast_data(&header, payload, sec, counter_pending)
        } else if use_sr {
            self.send_source_routed_data(&header, payload, sec, routing.source_relays.as_slice())
        } else {
            self.send_routed_data(&header, payload, sec, dst, discover_route, routing.route, routing.route_record_required)
        }
    }

    /// NLDE-DATA.request without an alias.
    pub fn data_request(
        &mut self,
        dst: ShortAddress,
        payload: &[u8],
        radius: Option<u8>,
        discover_route: bool,
        secure: bool,
        counter_pending: bool,
        routing: &RoutingInfo,
    ) -> (o: Result<TxDecision, NwkError>)
        requires
            old(self).wf(),
        ensures
            final(self).wf(),
            ({
                let (v, r) = old(self)@.data_requested(
                    BTT as int,
                    dst,
                    payload@,
                    radius,
                    discover_route,
                    secure,
                    None,
                    counter_pending,
                    routing.route,
                    routing.route_record_required,
                    routing.source_relays@,
                );
                final(self)@ == v && decision_is(o, r)
            }),
    {
        self.data_request_aliased(dst, payload, radius, discover_route, secure, None, counter_pending, routing)
    }

    /// A frame to `hop` goes indirectly (see [`NwkStateView::indirect_to`]).
    pub fn is_indirect(&self, hop: ShortAddress) -> (b: bool)
        ensures
            b == self@.indirect_to(hop),
    {
        match self.neighbors.by_short(hop) {
            Some(n) => n.relationship.is_child() && n.is_end_device() && !n.rx_on_when_idle,
            None => false,
        }
    }
}

} // verus!
