//! NWK command frames: each command has a strict decoder and a
//! deterministic encoder; unknown identifiers are preserved raw.
use vstd::prelude::*;
use crate::codec::{
    copy_to_slice, le16, le64, push_bytes, push_u16_le, push_u64_le, push_u8, read_u16_le,
    read_u64_le, read_u8, truncated, u16_bytes, u64_bytes, CodecError, Field,
};
use crate::codec::{lemma_le16_octets, lemma_u16_octets, lemma_wire_bits};
use crate::codec::{lemma_le16_at, lemma_le64_at, lemma_u16_bytes_of_le16, lemma_u64_bytes_of_le64};
use crate::mac::frame::exact;
use crate::nwk::beacon::{tlv_chain_ok, TlvError, TlvSet};
use crate::types::{ExtendedAddress, MacCapability, MacStatus, PanId, ShortAddress};

verus! {

broadcast use vstd::slice::group_slice_axioms;

/// NWK command identifiers.
#[derive(Clone, Copy, PartialEq, Eq, Hash, Debug, Structural)]
pub enum NwkCommandId {
    /// Route Request (0x01).
    RouteRequest,
    /// Route Reply (0x02).
    RouteReply,
    /// Network Status (0x03).
    NetworkStatus,
    /// Leave (0x04).
    Leave,
    /// Route Record (0x05).
    RouteRecord,
    /// Rejoin Request (0x06).
    RejoinRequest,
    /// Rejoin Response (0x07).
    RejoinResponse,
    /// Link Status (0x08).
    LinkStatus,
    /// Network Report (0x09).
    NetworkReport,
    /// Network Update (0x0A).
    NetworkUpdate,
    /// End Device Timeout Request (0x0B).
    EndDeviceTimeoutRequest,
    /// End Device Timeout Response (0x0C).
    EndDeviceTimeoutResponse,
    /// Link Power Delta (0x0D).
    LinkPowerDelta,
    /// Network Commissioning Request (0x0E).
    CommissioningRequest,
    /// Network Commissioning Response (0x0F).
    CommissioningResponse,
    /// Any other identifier.
    Unknown(u8),
}

impl NwkCommandId {
    /// Wire value of an identifier.
    pub open spec fn spec_raw(self) -> u8 {
        match self {
            NwkCommandId::RouteRequest => 0x01,
            NwkCommandId::RouteReply => 0x02,
            NwkCommandId::NetworkStatus => 0x03,
            NwkCommandId::Leave => 0x04,
            NwkCommandId::RouteRecord => 0x05,
            NwkCommandId::RejoinRequest => 0x06,
            NwkCommandId::RejoinResponse => 0x07,
            NwkCommandId::LinkStatus => 0x08,
            NwkCommandId::NetworkReport => 0x09,
            NwkCommandId::NetworkUpdate => 0x0A,
            NwkCommandId::EndDeviceTimeoutRequest => 0x0B,
            NwkCommandId::EndDeviceTimeoutResponse => 0x0C,
            NwkCommandId::LinkPowerDelta => 0x0D,
            NwkCommandId::CommissioningRequest => 0x0E,
            NwkCommandId::CommissioningResponse => 0x0F,
            NwkCommandId::Unknown(v) => v,
        }
    }

    /// Identifier a wire value denotes.
    pub open spec fn spec_from_raw(v: u8) -> NwkCommandId {
        if v == 0x01 {
            NwkCommandId::RouteRequest
        } else if v == 0x02 {
            NwkCommandId::RouteReply
        } else if v == 0x03 {
            NwkCommandId::NetworkStatus
        } else if v == 0x04 {
            NwkCommandId::Leave
        } else if v == 0x05 {
            NwkCommandId::RouteRecord
        } else if v == 0x06 {
            NwkCommandId::RejoinRequest
        } else if v == 0x07 {
            NwkCommandId::RejoinResponse
        } else if v == 0x08 {
            NwkCommandId::LinkStatus
        } else if v == 0x09 {
            NwkCommandId::NetworkReport
        } else if v == 0x0A {
            NwkCommandId::NetworkUpdate
        } else if v == 0x0B {
            NwkCommandId::EndDeviceTimeoutRequest
        } else if v == 0x0C {
            NwkCommandId::EndDeviceTimeoutResponse
        } else if v == 0x0D {
            NwkCommandId::LinkPowerDelta
        } else if v == 0x0E {
            NwkCommandId::CommissioningRequest
        } else if v == 0x0F {
            NwkCommandId::CommissioningResponse
        } else {
            NwkCommandId::Unknown(v)
        }
    }

    /// Wire value.
    pub fn raw(self) -> (v: u8)
        ensures
            v == self.spec_raw(),
    {
        match self {
            NwkCommandId::RouteRequest => 0x01,
            NwkCommandId::RouteReply => 0x02,
            NwkCommandId::NetworkStatus => 0x03,
            NwkCommandId::Leave => 0x04,
            NwkCommandId::RouteRecord => 0x05,
            NwkCommandId::RejoinRequest => 0x06,
            NwkCommandId::RejoinResponse => 0x07,
            NwkCommandId::LinkStatus => 0x08,
            NwkCommandId::NetworkReport => 0x09,
            NwkCommandId::NetworkUpdate => 0x0A,
            NwkCommandId::EndDeviceTimeoutRequest => 0x0B,
            NwkCommandId::EndDeviceTimeoutResponse => 0x0C,
            NwkCommandId::LinkPowerDelta => 0x0D,
            NwkCommandId::CommissioningRequest => 0x0E,
            NwkCommandId::CommissioningResponse => 0x0F,
            NwkCommandId::Unknown(v) => v,
        }
    }

    /// Parses a wire value.
    pub fn from_raw(v: u8) -> (id: NwkCommandId)
        ensures
            id == Self::spec_from_raw(v),
    {
        if v == 0x01 {
            NwkCommandId::RouteRequest
        } else if v == 0x02 {
            NwkCommandId::RouteReply
        } else if v == 0x03 {
            NwkCommandId::NetworkStatus
        } else if v == 0x04 {
            NwkCommandId::Leave
        } else if v == 0x05 {
            NwkCommandId::RouteRecord
        } else if v == 0x06 {
            NwkCommandId::RejoinRequest
        } else if v == 0x07 {
            NwkCommandId::RejoinResponse
        } else if v == 0x08 {
            NwkCommandId::LinkStatus
        } else if v == 0x09 {
            NwkCommandId::NetworkReport
        } else if v == 0x0A {
            NwkCommandId::NetworkUpdate
        } else if v == 0x0B {
            NwkCommandId::EndDeviceTimeoutRequest
        } else if v == 0x0C {
            NwkCommandId::EndDeviceTimeoutResponse
        } else if v == 0x0D {
            NwkCommandId::LinkPowerDelta
        } else if v == 0x0E {
            NwkCommandId::CommissioningRequest
        } else if v == 0x0F {
            NwkCommandId::CommissioningResponse
        } else {
            NwkCommandId::Unknown(v)
        }
    }

    /// True when NWK encryption is required for this command: every
    /// command but Route Record (security optional), Rejoin Request (may
    /// be sent unsecured for a trust-center rejoin) and Commissioning
    /// Request (may be sent unsecured for an initial join).
    pub fn requires_security(self) -> (b: bool)
        ensures
            b == !(self is RouteRecord || self is RejoinRequest || self is CommissioningRequest),
    {
        !matches!(
            self,
            NwkCommandId::RouteRecord
                | NwkCommandId::RejoinRequest
                | NwkCommandId::CommissioningRequest
        )
    }
}

/// Every wire value parses to an identifier whose wire value it is.
pub proof fn lemma_nwk_command_id_raw(v: u8)
    ensures
        NwkCommandId::spec_from_raw(v).spec_raw() == v,
{
}

/// Many-to-one sub-field of the Route Request options.
#[derive(Clone, Copy, PartialEq, Eq, Hash, Debug, Structural)]
pub enum ManyToOne {
    /// Not a many-to-one request.
    No,
    /// Many-to-one; the concentrator keeps a route record table.
    WithRouteCache,
    /// Many-to-one; the concentrator has no route record table.
    NoRouteCache,
    /// Reserved value 3.
    Reserved,
}

impl ManyToOne {
    /// The sub-field value the low two bits of `v` denote.
    pub open spec fn spec_from_bits(v: u8) -> ManyToOne {
        let b = v & 0x3;
        if b == 0 {
            ManyToOne::No
        } else if b == 1 {
            ManyToOne::WithRouteCache
        } else if b == 2 {
            ManyToOne::NoRouteCache
        } else {
            ManyToOne::Reserved
        }
    }

    /// The two-bit code of a sub-field value.
    pub open spec fn spec_bits(self) -> u8 {
        match self {
            ManyToOne::No => 0,
            ManyToOne::WithRouteCache => 1,
            ManyToOne::NoRouteCache => 2,
            ManyToOne::Reserved => 3,
        }
    }

    fn from_bits(v: u8) -> (m: ManyToOne)
        ensures
            m == Self::spec_from_bits(v),
    {
        let b = v & 0x3;
        if b == 0 {
            ManyToOne::No
        } else if b == 1 {
            ManyToOne::WithRouteCache
        } else if b == 2 {
            ManyToOne::NoRouteCache
        } else {
            ManyToOne::Reserved
        }
    }

    fn bits(self) -> (b: u8)
        ensures
            b == self.spec_bits(),
    {
        match self {
            ManyToOne::No => 0,
            ManyToOne::WithRouteCache => 1,
            ManyToOne::NoRouteCache => 2,
            ManyToOne::Reserved => 3,
        }
    }

    /// True for either many-to-one variant.
    pub fn is_many_to_one(self) -> (b: bool)
        ensures
            b == (self is WithRouteCache || self is NoRouteCache),
    {
        matches!(self, ManyToOne::WithRouteCache | ManyToOne::NoRouteCache)
    }
}

/// The octets of an optional IEEE address.
pub open spec fn opt_ieee(o: Option<ExtendedAddress>) -> Seq<u8> {
    match o {
        Some(a) => u64_bytes(a.0),
        None => Seq::empty(),
    }
}

/// 1 for true, 0 for false.
pub open spec fn bit8(b: bool) -> u8 {
    if b {
        1
    } else {
        0
    }
}

/// An optional IEEE address at `pos`.
pub open spec fn read_opt_ieee_spec(s: Seq<u8>, pos: int, present: bool) -> Result<(Option<ExtendedAddress>, int), CodecError> {
    if !present {
        Ok((None, pos))
    } else if pos + 8 <= s.len() {
        Ok((Some(ExtendedAddress(le64(s, pos))), pos + 8))
    } else {
        Err(truncated(s, pos, 8))
    }
}

fn read_opt_ieee(s: &[u8], pos: usize, present: bool) -> (r: Result<(Option<ExtendedAddress>, usize), CodecError>)
    requires
        pos <= s@.len(),
    ensures
        match r {
            Ok((v, p)) => read_opt_ieee_spec(s@, pos as int, present) == Ok::<(Option<ExtendedAddress>, int), CodecError>((v, p as int)) && p <= s@.len(),
            Err(e) => read_opt_ieee_spec(s@, pos as int, present) == Err::<(Option<ExtendedAddress>, int), CodecError>(e),
        },
{
    if !present {
        Ok((None, pos))
    } else {
        match read_u64_le(s, pos) {
            Ok(v) => Ok((Some(ExtendedAddress(v)), pos + 8)),
            Err(e) => Err(e),
        }
    }
}

fn push_opt_ieee(out: &mut Vec<u8>, o: Option<ExtendedAddress>)
    ensures
        final(out)@ == old(out)@ + opt_ieee(o),
{
    match o {
        Some(a) => push_u64_le(out, a.0),
        None => {
            assert(out@ =~= old(out)@ + opt_ieee(o));
        },
    }
}

/// Route Request command.
#[derive(Clone, Copy, PartialEq, Eq, Debug)]
pub struct RouteRequest<'a> {
    /// Many-to-one sub-field.
    pub many_to_one: ManyToOne,
    /// Route request identifier.
    pub id: u8,
    /// Destination address (a broadcast address for many-to-one).
    pub dst: ShortAddress,
    /// Accumulated path cost.
    pub path_cost: u8,
    /// Destination IEEE address, when known.
    pub dst_ieee: Option<ExtendedAddress>,
    /// Trailing TLVs (unvalidated raw octets; empty when none).
    pub tlvs: &'a [u8],
}

/// The mathematical content of a [`RouteRequest`].
pub struct RouteRequestView {
    /// Many-to-one sub-field.
    pub many_to_one: ManyToOne,
    /// Route request identifier.
    pub id: u8,
    /// Destination address.
    pub dst: ShortAddress,
    /// Path cost.
    pub path_cost: u8,
    /// Destination IEEE address.
    pub dst_ieee: Option<ExtendedAddress>,
    /// TLV octets.
    pub tlvs: Seq<u8>,
}

impl<'a> View for RouteRequest<'a> {
    type V = RouteRequestView;

    open spec fn view(&self) -> RouteRequestView {
        RouteRequestView {
            many_to_one: self.many_to_one,
            id: self.id,
            dst: self.dst,
            path_cost: self.path_cost,
            dst_ieee: self.dst_ieee,
            tlvs: self.tlvs@,
        }
    }
}

impl RouteRequestView {
    /// The options octet.
    pub open spec fn options(self) -> u8 {
        ((self.many_to_one.spec_bits() << 3) | (bit8(self.dst_ieee.is_some()) << 5)) as u8
    }

    /// The wire octets (without the command identifier).
    pub open spec fn spec_encode(self) -> Seq<u8> {
        seq![self.options(), self.id] + u16_bytes(self.dst.0) + seq![self.path_cost] + opt_ieee(self.dst_ieee) + self.tlvs
    }
}

/// The Route Request body a sequence of octets decodes to; the TLVs are
/// every remaining octet.
pub open spec fn spec_decode_route_request(s: Seq<u8>) -> Result<RouteRequestView, CodecError> {
    if s.len() < 1 {
        Err(truncated(s, 0, 1))
    } else if s.len() < 2 {
        Err(truncated(s, 1, 1))
    } else if s.len() < 4 {
        Err(truncated(s, 2, 2))
    } else if s.len() < 5 {
        Err(truncated(s, 4, 1))
    } else {
        let options = s[0];
        match read_opt_ieee_spec(s, 5, options & 0x20 != 0) {
            Err(e) => Err(e),
            Ok((dst_ieee, p)) => Ok(RouteRequestView {
                many_to_one: ManyToOne::spec_from_bits(options >> 3),
                id: s[1],
                dst: ShortAddress(le16(s, 2)),
                path_cost: s[4],
                dst_ieee,
                tlvs: s.subrange(p, s.len() as int),
            }),
        }
    }
}

impl<'a> RouteRequest<'a> {
    /// Decodes the body; the TLVs take every remaining octet.
    pub fn decode(bytes: &'a [u8]) -> (r: Result<RouteRequest<'a>, CodecError>)
        ensures
            match r {
                Ok(c) => spec_decode_route_request(bytes@) == Ok::<RouteRequestView, CodecError>(c@),
                Err(e) => spec_decode_route_request(bytes@) == Err::<RouteRequestView, CodecError>(e),
            },
    {
        let options = match read_u8(bytes, 0) {
            Ok(v) => v,
            Err(e) => return Err(e),
        };
        let id = match read_u8(bytes, 1) {
            Ok(v) => v,
            Err(e) => return Err(e),
        };
        let dst = match read_u16_le(bytes, 2) {
            Ok(v) => ShortAddress(v),
            Err(e) => return Err(e),
        };
        let path_cost = match read_u8(bytes, 4) {
            Ok(v) => v,
            Err(e) => return Err(e),
        };
        let (dst_ieee, p) = match read_opt_ieee(bytes, 5, options & 0x20 != 0) {
            Ok(v) => v,
            Err(e) => return Err(e),
        };
        let tlvs = vstd::slice::slice_subrange(bytes, p, bytes.len());
        Ok(RouteRequest { many_to_one: ManyToOne::from_bits(options >> 3), id, dst, path_cost, dst_ieee, tlvs })
    }

    /// Serialised length.
    pub fn encoded_len(&self) -> (n: usize)
        requires
            self.tlvs@.len() <= usize::MAX - 16,
        ensures
            n == self@.spec_encode().len(),
    {
        let d: usize = if self.dst_ieee.is_some() { 8 } else { 0 };
        5 + d + self.tlvs.len()
    }

    /// Appends the body's octets to `out`.
    pub fn encode(&self, out: &mut Vec<u8>)
        ensures
            final(out)@ == old(out)@ + self@.spec_encode(),
    {
        let p: u8 = if self.dst_ieee.is_some() { 1 } else { 0 };
        let options = (self.many_to_one.bits() << 3) | (p << 5);
        push_u8(out, options);
        push_u8(out, self.id);
        push_u16_le(out, self.dst.0);
        push_u8(out, self.path_cost);
        push_opt_ieee(out, self.dst_ieee);
        push_bytes(out, self.tlvs);
        assert(out@ =~= old(out)@ + self@.spec_encode());
    }
}

/// Route Reply command. Both IEEE addresses are always present on
/// transmit but tolerated absent on receive.
#[derive(Clone, Copy, PartialEq, Eq, Debug)]
pub struct RouteReply<'a> {
    /// Route request identifier being answered.
    pub id: u8,
    /// Originator of the route request.
    pub originator: ShortAddress,
    /// Responder (destination of the request).
    pub responder: ShortAddress,
    /// Accumulated path cost.
    pub path_cost: u8,
    /// Originator IEEE address.
    pub originator_ieee: Option<ExtendedAddress>,
    /// Responder IEEE address.
    pub responder_ieee: Option<ExtendedAddress>,
    /// Trailing TLVs.
    pub tlvs: &'a [u8],
}

/// The mathematical content of a [`RouteReply`].
pub struct RouteReplyView {
    /// Route request identifier.
    pub id: u8,
    /// Originator.
    pub originator: ShortAddress,
    /// Responder.
    pub responder: ShortAddress,
    /// Path cost.
    pub path_cost: u8,
    /// Originator IEEE address.
    pub originator_ieee: Option<ExtendedAddress>,
    /// Responder IEEE address.
    pub responder_ieee: Option<ExtendedAddress>,
    /// TLV octets.
    pub tlvs: Seq<u8>,
}

impl<'a> View for RouteReply<'a> {
    type V = RouteReplyView;

    open spec fn view(&self) -> RouteReplyView {
        RouteReplyView {
            id: self.id,
            originator: self.originator,
            responder: self.responder,
            path_cost: self.path_cost,
            originator_ieee: self.originator_ieee,
            responder_ieee: self.responder_ieee,
            tlvs: self.tlvs@,
        }
    }
}

impl RouteReplyView {
    /// The options octet.
    pub open spec fn options(self) -> u8 {
        ((bit8(self.originator_ieee.is_some()) << 4) | (bit8(self.responder_ieee.is_some()) << 5)) as u8
    }

    /// The wire octets (without the command identifier).
    pub open spec fn spec_encode(self) -> Seq<u8> {
        seq![self.options(), self.id] + u16_bytes(self.originator.0) + u16_bytes(self.responder.0)
            + seq![self.path_cost] + opt_ieee(self.originator_ieee) + opt_ieee(self.responder_ieee)
            + self.tlvs
    }
}

/// The Route Reply body a sequence of octets decodes to.
pub open spec fn spec_decode_route_reply(s: Seq<u8>) -> Result<RouteReplyView, CodecError> {
    if s.len() < 1 {
        Err(truncated(s, 0, 1))
    } else if s.len() < 2 {
        Err(truncated(s, 1, 1))
    } else if s.len() < 4 {
        Err(truncated(s, 2, 2))
    } else if s.len() < 6 {
        Err(truncated(s, 4, 2))
    } else if s.len() < 7 {
        Err(truncated(s, 6, 1))
    } else {
        let options = s[0];
        match read_opt_ieee_spec(s, 7, options & 0x10 != 0) {
            Err(e) => Err(e),
            Ok((originator_ieee, p1)) => match read_opt_ieee_spec(s, p1, options & 0x20 != 0) {
                Err(e) => Err(e),
                Ok((responder_ieee, p2)) => Ok(RouteReplyView {
                    id: s[1],
                    originator: ShortAddress(le16(s, 2)),
                    responder: ShortAddress(le16(s, 4)),
                    path_cost: s[6],
                    originator_ieee,
                    responder_ieee,
                    tlvs: s.subrange(p2, s.len() as int),
                }),
            },
        }
    }
}

impl<'a> RouteReply<'a> {
    /// Decodes the body; the TLVs take every remaining octet.
    pub fn decode(bytes: &'a [u8]) -> (r: Result<RouteReply<'a>, CodecError>)
        ensures
            match r {
                Ok(c) => spec_decode_route_reply(bytes@) == Ok::<RouteReplyView, CodecError>(c@),
                Err(e) => spec_decode_route_reply(bytes@) == Err::<RouteReplyView, CodecError>(e),
            },
    {
        let options = match read_u8(bytes, 0) {
            Ok(v) => v,
            Err(e) => return Err(e),
        };
        let id = match read_u8(bytes, 1) {
            Ok(v) => v,
            Err(e) => return Err(e),
        };
        let originator = match read_u16_le(bytes, 2) {
            Ok(v) => ShortAddress(v),
            Err(e) => return Err(e),
        };
        let responder = match read_u16_le(bytes, 4) {
            Ok(v) => ShortAddress(v),
            Err(e) => return Err(e),
        };
        let path_cost = match read_u8(bytes, 6) {
            Ok(v) => v,
            Err(e) => return Err(e),
        };
        let (originator_ieee, p1) = match read_opt_ieee(bytes, 7, options & 0x10 != 0) {
            Ok(v) => v,
            Err(e) => return Err(e),
        };
        let (responder_ieee, p2) = match read_opt_ieee(bytes, p1, options & 0x20 != 0) {
            Ok(v) => v,
            Err(e) => return Err(e),
        };
        let tlvs = vstd::slice::slice_subrange(bytes, p2, bytes.len());
        Ok(RouteReply { id, originator, responder, path_cost, originator_ieee, responder_ieee, tlvs })
    }

    /// Serialised length.
    pub fn encoded_len(&self) -> (n: usize)
        requires
            self.tlvs@.len() <= usize::MAX - 32,
        ensures
            n == self@.spec_encode().len(),
    {
        let a: usize = if self.originator_ieee.is_some() { 8 } else { 0 };
        let b: usize = if self.responder_ieee.is_some() { 8 } else { 0 };
        7 + a + b + self.tlvs.len()
    }

    /// Appends the body's octets to `out`.
    pub fn encode(&self, out: &mut Vec<u8>)
        ensures
            final(out)@ == old(out)@ + self@.spec_encode(),
    {
        let a: u8 = if self.originator_ieee.is_some() { 1 } else { 0 };
        let b: u8 = if self.responder_ieee.is_some() { 1 } else { 0 };
        push_u8(out, (a << 4) | (b << 5));
        push_u8(out, self.id);
        push_u16_le(out, self.originator.0);
        push_u16_le(out, self.responder.0);
        push_u8(out, self.path_cost);
        push_opt_ieee(out, self.originator_ieee);
        push_opt_ieee(out, self.responder_ieee);
        push_bytes(out, self.tlvs);
        assert(out@ =~= old(out)@ + self@.spec_encode());
    }
}

/// A Route Reply body is laid out as the options octet (bit 4: the
/// originator IEEE address follows, bit 5: the responder's), the route
/// request identifier, the originator's network address (least
/// significant octet first), the responder's, then the path cost.
pub proof fn lemma_route_reply_layout(v: RouteReplyView)
    ensures
        ({
            let s = v.spec_encode();
            &&& s.len() >= 7
            &&& (s[0] & 0x10 != 0) == v.originator_ieee.is_some()
            &&& (s[0] & 0x20 != 0) == v.responder_ieee.is_some()
            &&& s[1] == v.id
            &&& s[2] as int + 256 * (s[3] as int) == v.originator.0 as int
            &&& s[4] as int + 256 * (s[5] as int) == v.responder.0 as int
            &&& s[6] == v.path_cost
        }),
{
    let s = v.spec_encode();
    let o = v.originator.0;
    let r = v.responder.0;
    assert(s[2] == (o & 0xFF) as u8 && s[3] == (o >> 8) as u8);
    assert(s[4] == (r & 0xFF) as u8 && s[5] == (r >> 8) as u8);
    lemma_u16_octets(o);
    lemma_u16_octets(r);
    let a: u8 = if v.originator_ieee.is_some() { 1 } else { 0 };
    let b: u8 = if v.responder_ieee.is_some() { 1 } else { 0 };
    let opt = s[0];
    assert(opt == ((a << 4) | (b << 5)) as u8);
    lemma_wire_bits(a, b, 0, 0, 0, 0, 0, 0, 0, 0, 0, 0, 0);
}

/// A decoded Route Reply takes the identifier from octet 1, the
/// originator from octets 2..4, the responder from octets 4..6 (least
/// significant first) and the path cost from octet 6.
pub proof fn lemma_route_reply_decoded_fields(s: Seq<u8>)
    ensures
        spec_decode_route_reply(s) matches Ok(r) ==> {
            &&& s.len() >= 7
            &&& r.id == s[1]
            &&& r.originator.0 as int == s[2] as int + 256 * (s[3] as int)
            &&& r.responder.0 as int == s[4] as int + 256 * (s[5] as int)
            &&& r.path_cost == s[6]
        },
{
    if s.len() >= 7 {
        lemma_le16_octets(s, 2);
        lemma_le16_octets(s, 4);
    }
}

/// Network Status command status codes.
#[derive(Clone, Copy, PartialEq, Eq, Hash, Debug, Structural)]
pub enum NetworkStatusCode {
    /// Legacy no route available (0x00); treated as link failure.
    LegacyNoRoute,
    /// Legacy link failure (0x01); treated as link failure.
    LegacyLinkFailure,
    /// Link failure (0x02).
    LinkFailure,
    /// Parent link failure (0x09), local use only.
    ParentLinkFailure,
    /// Source route failure (0x0B).
    SourceRouteFailure,
    /// Many-to-one route failure (0x0C).
    ManyToOneRouteFailure,
    /// Address conflict (0x0D).
    AddressConflict,
    /// PAN identifier update (0x0F), local use only.
    PanIdUpdate,
    /// Network address update (0x10), local use only.
    NetworkAddressUpdate,
    /// Unknown command (0x13).
    UnknownCommand,
    /// PAN ID conflict report (0x14), local use only.
    PanIdConflictReport,
    /// Deprecated or reserved value.
    Other(u8),
}

impl NetworkStatusCode {
    /// Wire value of a status code.
    pub open spec fn spec_raw(self) -> u8 {
        match self {
            NetworkStatusCode::LegacyNoRoute => 0x00,
            NetworkStatusCode::LegacyLinkFailure => 0x01,
            NetworkStatusCode::LinkFailure => 0x02,
            NetworkStatusCode::ParentLinkFailure => 0x09,
            NetworkStatusCode::SourceRouteFailure => 0x0B,
            NetworkStatusCode::ManyToOneRouteFailure => 0x0C,
            NetworkStatusCode::AddressConflict => 0x0D,
            NetworkStatusCode::PanIdUpdate => 0x0F,
            NetworkStatusCode::NetworkAddressUpdate => 0x10,
            NetworkStatusCode::UnknownCommand => 0x13,
            NetworkStatusCode::PanIdConflictReport => 0x14,
            NetworkStatusCode::Other(v) => v,
        }
    }

    /// Status code a wire value denotes.
    pub open spec fn spec_from_raw(v: u8) -> NetworkStatusCode {
        if v == 0x00 {
            NetworkStatusCode::LegacyNoRoute
        } else if v == 0x01 {
            NetworkStatusCode::LegacyLinkFailure
        } else if v == 0x02 {
            NetworkStatusCode::LinkFailure
        } else if v == 0x09 {
            NetworkStatusCode::ParentLinkFailure
        } else if v == 0x0B {
            NetworkStatusCode::SourceRouteFailure
        } else if v == 0x0C {
            NetworkStatusCode::ManyToOneRouteFailure
        } else if v == 0x0D {
            NetworkStatusCode::AddressConflict
        } else if v == 0x0F {
            NetworkStatusCode::PanIdUpdate
        } else if v == 0x10 {
            NetworkStatusCode::NetworkAddressUpdate
        } else if v == 0x13 {
            NetworkStatusCode::UnknownCommand
        } else if v == 0x14 {
            NetworkStatusCode::PanIdConflictReport
        } else {
            NetworkStatusCode::Other(v)
        }
    }

    /// A value `from_raw` can produce.
    pub open spec fn wf(self) -> bool {
        self matches NetworkStatusCode::Other(v) ==> NetworkStatusCode::spec_from_raw(v) == NetworkStatusCode::Other(v)
    }

    /// Wire value.
    pub fn raw(self) -> (v: u8)
        ensures
            v == self.spec_raw(),
    {
        match self {
            NetworkStatusCode::LegacyNoRoute => 0x00,
            NetworkStatusCode::LegacyLinkFailure => 0x01,
            NetworkStatusCode::LinkFailure => 0x02,
            NetworkStatusCode::ParentLinkFailure => 0x09,
            NetworkStatusCode::SourceRouteFailure => 0x0B,
            NetworkStatusCode::ManyToOneRouteFailure => 0x0C,
            NetworkStatusCode::AddressConflict => 0x0D,
            NetworkStatusCode::PanIdUpdate => 0x0F,
            NetworkStatusCode::NetworkAddressUpdate => 0x10,
            NetworkStatusCode::UnknownCommand => 0x13,
            NetworkStatusCode::PanIdConflictReport => 0x14,
            NetworkStatusCode::Other(v) => v,
        }
    }

    /// Parses a wire value.
    pub fn from_raw(v: u8) -> (c: NetworkStatusCode)
        ensures
            c == Self::spec_from_raw(v),
    {
        if v == 0x00 {
            NetworkStatusCode::LegacyNoRoute
        } else if v == 0x01 {
            NetworkStatusCode::LegacyLinkFailure
        } else if v == 0x02 {
            NetworkStatusCode::LinkFailure
        } else if v == 0x09 {
            NetworkStatusCode::ParentLinkFailure
        } else if v == 0x0B {
            NetworkStatusCode::SourceRouteFailure
        } else if v == 0x0C {
            NetworkStatusCode::ManyToOneRouteFailure
        } else if v == 0x0D {
            NetworkStatusCode::AddressConflict
        } else if v == 0x0F {
            NetworkStatusCode::PanIdUpdate
        } else if v == 0x10 {
            NetworkStatusCode::NetworkAddressUpdate
        } else if v == 0x13 {
            NetworkStatusCode::UnknownCommand
        } else if v == 0x14 {
            NetworkStatusCode::PanIdConflictReport
        } else {
            NetworkStatusCode::Other(v)
        }
    }

    /// True for the three codes that all mean "link failure" on receipt.
    pub fn is_link_failure(self) -> (b: bool)
        ensures
            b == (self is LegacyNoRoute || self is LegacyLinkFailure || self is LinkFailure),
    {
        matches!(
            self,
            NetworkStatusCode::LegacyNoRoute | NetworkStatusCode::LegacyLinkFailure | NetworkStatusCode::LinkFailure
        )
    }
}

/// Network Status command.
#[derive(Clone, Copy, PartialEq, Eq, Debug)]
pub struct NetworkStatus<'a> {
    /// Status code.
    pub status: NetworkStatusCode,
    /// The address the status refers to.
    pub dst: ShortAddress,
    /// Trailing TLVs.
    pub tlvs: &'a [u8],
}

/// The mathematical content of a [`NetworkStatus`].
pub struct NetworkStatusView {
    /// Status code.
    pub status: NetworkStatusCode,
    /// Address.
    pub dst: ShortAddress,
    /// TLV octets.
    pub tlvs: Seq<u8>,
}

impl<'a> View for NetworkStatus<'a> {
    type V = NetworkStatusView;

    open spec fn view(&self) -> NetworkStatusView {
        NetworkStatusView { status: self.status, dst: self.dst, tlvs: self.tlvs@ }
    }
}

impl NetworkStatusView {
    /// The wire octets (without the command identifier).
    pub open spec fn spec_encode(self) -> Seq<u8> {
        seq![self.status.spec_raw()] + u16_bytes(self.dst.0) + self.tlvs
    }
}

/// The Network Status body a sequence of octets decodes to.
pub open spec fn spec_decode_network_status(s: Seq<u8>) -> Result<NetworkStatusView, CodecError> {
    if s.len() < 1 {
        Err(truncated(s, 0, 1))
    } else if s.len() < 3 {
        Err(truncated(s, 1, 2))
    } else {
        Ok(NetworkStatusView {
            status: NetworkStatusCode::spec_from_raw(s[0]),
            dst: ShortAddress(le16(s, 1)),
            tlvs: s.subrange(3, s.len() as int),
        })
    }
}

impl<'a> NetworkStatus<'a> {
    /// Decodes the body; the TLVs take every remaining octet.
    pub fn decode(bytes: &'a [u8]) -> (r: Result<NetworkStatus<'a>, CodecError>)
        ensures
            match r {
                Ok(c) => spec_decode_network_status(bytes@) == Ok::<NetworkStatusView, CodecError>(c@),
                Err(e) => spec_decode_network_status(bytes@) == Err::<NetworkStatusView, CodecError>(e),
            },
    {
        let st = match read_u8(bytes, 0) {
            Ok(v) => v,
            Err(e) => return Err(e),
        };
        let dst = match read_u16_le(bytes, 1) {
            Ok(v) => ShortAddress(v),
            Err(e) => return Err(e),
        };
        let tlvs = vstd::slice::slice_subrange(bytes, 3, bytes.len());
        Ok(NetworkStatus { status: NetworkStatusCode::from_raw(st), dst, tlvs })
    }

    /// Serialised length.
    pub fn encoded_len(&self) -> (n: usize)
        requires
            self.tlvs@.len() <= usize::MAX - 16,
        ensures
            n == self@.spec_encode().len(),
    {
        3 + self.tlvs.len()
    }

    /// Appends the body's octets to `out`.
    pub fn encode(&self, out: &mut Vec<u8>)
        ensures
            final(out)@ == old(out)@ + self@.spec_encode(),
    {
        push_u8(out, self.status.raw());
        push_u16_le(out, self.dst.0);
        push_bytes(out, self.tlvs);
        assert(out@ =~= old(out)@ + self@.spec_encode());
    }
}

/// Leave command.
#[derive(Clone, Copy, PartialEq, Eq, Debug, Structural)]
pub struct Leave {
    /// The leaving device intends to rejoin.
    pub rejoin: bool,
    /// A request for the recipient to leave rather than an announcement.
    pub request: bool,
    /// Children of the leaving device must also leave.
    pub remove_children: bool,
}

impl Leave {
    /// The options octet.
    pub open spec fn spec_octet(self) -> u8 {
        ((bit8(self.rejoin) << 5) | (bit8(self.request) << 6) | (bit8(self.remove_children) << 7)) as u8
    }

    /// The Leave body an options octet denotes.
    pub open spec fn spec_from_octet(o: u8) -> Leave {
        Leave { rejoin: o & 0x20 != 0, request: o & 0x40 != 0, remove_children: o & 0x80 != 0 }
    }

    /// Decodes the body.
    pub fn decode(bytes: &[u8]) -> (r: Result<Leave, CodecError>)
        ensures
            bytes@.len() >= 1 ==> r == Ok::<Leave, CodecError>(Self::spec_from_octet(bytes@[0])),
            bytes@.len() < 1 ==> r == Err::<Leave, CodecError>(truncated(bytes@, 0, 1)),
    {
        let o = match read_u8(bytes, 0) {
            Ok(v) => v,
            Err(e) => return Err(e),
        };
        Ok(Leave { rejoin: o & 0x20 != 0, request: o & 0x40 != 0, remove_children: o & 0x80 != 0 })
    }

    /// Serialised length.
    pub fn encoded_len(&self) -> (n: usize)
        ensures
            n == 1,
    {
        1
    }

    /// Appends the body's octet to `out`.
    pub fn encode(&self, out: &mut Vec<u8>)
        ensures
            final(out)@ == old(out)@.push(self.spec_octet()),
    {
        let a: u8 = if self.rejoin { 1 } else { 0 };
        let b: u8 = if self.request { 1 } else { 0 };
        let c: u8 = if self.remove_children { 1 } else { 0 };
        push_u8(out, (a << 5) | (b << 6) | (c << 7));
    }
}

/// The options octet of a Leave reads back as the same flags.
pub proof fn lemma_leave_round_trip(l: Leave)
    ensures
        Leave::spec_from_octet(l.spec_octet()) == l,
{
    let a = bit8(l.rejoin);
    let b = bit8(l.request);
    let c = bit8(l.remove_children);
    let o = l.spec_octet();
    assert((o & 0x20 != 0) == (a == 1) && (o & 0x40 != 0) == (b == 1) && (o & 0x80 != 0) == (c == 1))
        by (bit_vector)
        requires
            a < 2,
            b < 2,
            c < 2,
            o == ((a << 5) | (b << 6) | (c << 7)) as u8,
    ;
}

/// Route Record command: relay list accumulated toward the concentrator
/// (raw little-endian 16-bit addresses).
#[derive(Clone, Copy, PartialEq, Eq, Debug)]
pub struct RouteRecord<'a> {
    relays: &'a [u8],
}

impl<'a> View for RouteRecord<'a> {
    type V = Seq<u8>;

    closed spec fn view(&self) -> Seq<u8> {
        self.relays@
    }
}

/// The octets of a relay count and list.
pub open spec fn spec_route_record_encode(relays: Seq<u8>) -> Seq<u8> {
    seq![(relays.len() / 2) as u8] + relays
}

/// The Route Record body a sequence of octets decodes to, with the
/// octets it occupies.
pub open spec fn spec_decode_route_record(s: Seq<u8>) -> Result<(Seq<u8>, int), CodecError> {
    if s.len() < 1 {
        Err(truncated(s, 0, 1))
    } else {
        let count = s[0] as int;
        if 1 + 2 * count > s.len() {
            Err(truncated(s, 1, 2 * count))
        } else {
            Ok((s.subrange(1, 1 + 2 * count), 1 + 2 * count))
        }
    }
}

impl<'a> RouteRecord<'a> {
    /// Builds from a raw relay list (a multiple of 2 octets).
    pub fn from_raw(relays: &'a [u8]) -> (r: RouteRecord<'a>)
        ensures
            r@ == relays@,
    {
        RouteRecord { relays }
    }

    /// Raw relay octets.
    pub fn raw(&self) -> (r: &'a [u8])
        ensures
            r@ == self@,
    {
        self.relays
    }

    /// Number of relays.
    pub fn relay_count(&self) -> (n: usize)
        ensures
            n == self@.len() / 2,
    {
        self.relays.len() / 2
    }

    /// The relays in the order they were appended.
    pub fn relays(&self) -> (v: Vec<ShortAddress>)
        ensures
            v@.len() == self@.len() / 2,
            forall|i: int| 0 <= i < v@.len() ==> v@[i] == ShortAddress(le16(self@, 2 * i)),
    {
        let mut v: Vec<ShortAddress> = Vec::new();
        let len = self.relays.len();
        let n = len / 2;
        let mut i: usize = 0;
        while i < n
            invariant
                len == self.relays@.len(),
                n == len / 2,
                n * 2 <= len,
                i <= n,
                v@.len() == i,
                forall|j: int| 0 <= j < i ==> v@[j] == ShortAddress(le16(self.relays@, 2 * j)),
            decreases n - i,
        {
            let k = 2 * i;
            v.push(ShortAddress(((self.relays[k] as u16) | ((self.relays[k + 1] as u16) << 8)) as u16));
            i = i + 1;
        }
        v
    }

    /// Decodes the body, with the octets it occupies.
    pub fn decode(bytes: &'a [u8]) -> (r: Result<(RouteRecord<'a>, usize), CodecError>)
        ensures
            match r {
                Ok((c, n)) => spec_decode_route_record(bytes@) == Ok::<(Seq<u8>, int), CodecError>((c@, n as int)) && n <= bytes@.len(),
                Err(e) => spec_decode_route_record(bytes@) == Err::<(Seq<u8>, int), CodecError>(e),
            },
    {
        let count = match read_u8(bytes, 0) {
            Ok(v) => v as usize,
            Err(e) => return Err(e),
        };
        if bytes.len() - 1 < 2 * count {
            return Err(CodecError::Truncated { needed: 2 * count, available: bytes.len() - 1 });
        }
        let relays = vstd::slice::slice_subrange(bytes, 1, 1 + 2 * count);
        Ok((RouteRecord { relays }, 1 + 2 * count))
    }

    /// Serialised length.
    pub fn encoded_len(&self) -> (n: usize)
        requires
            self@.len() < usize::MAX,
        ensures
            n == 1 + self@.len(),
    {
        1 + self.relays.len()
    }

    /// Appends the body's octets to `out`; the relay count must fit its
    /// octet.
    pub fn encode(&self, out: &mut Vec<u8>) -> (r: Result<(), CodecError>)
        ensures
            self@.len() / 2 > 255 ==> r == Err::<(), CodecError>(CodecError::Unrepresentable { field: Field::RelayCount })
                && final(out)@ == old(out)@,
            self@.len() / 2 <= 255 ==> r is Ok && final(out)@ == old(out)@ + spec_route_record_encode(self@),
    {
        let count = self.relays.len() / 2;
        if count > 255 {
            return Err(CodecError::Unrepresentable { field: Field::RelayCount });
        }
        push_u8(out, count as u8);
        push_bytes(out, self.relays);
        assert(out@ =~= old(out)@ + spec_route_record_encode(self@));
        Ok(())
    }
}

/// Rejoin Request command.
#[derive(Clone, Copy, PartialEq, Eq, Debug, Structural)]
pub struct RejoinRequest {
    /// Capability information of the rejoining device.
    pub capability: MacCapability,
}

impl RejoinRequest {
    /// Decodes the body.
    pub fn decode(bytes: &[u8]) -> (r: Result<RejoinRequest, CodecError>)
        ensures
            bytes@.len() >= 1 ==> r == Ok::<RejoinRequest, CodecError>(RejoinRequest { capability: MacCapability(bytes@[0]) }),
            bytes@.len() < 1 ==> r == Err::<RejoinRequest, CodecError>(truncated(bytes@, 0, 1)),
    {
        match read_u8(bytes, 0) {
            Ok(v) => Ok(RejoinRequest { capability: MacCapability::from_raw(v) }),
            Err(e) => Err(e),
        }
    }

    /// Appends the body's octet to `out`.
    pub fn encode(&self, out: &mut Vec<u8>)
        ensures
            final(out)@ == old(out)@.push(self.capability.0),
    {
        push_u8(out, self.capability.raw());
    }
}

/// Rejoin Response command.
#[derive(Clone, Copy, PartialEq, Eq, Debug, Structural)]
pub struct RejoinResponse {
    /// Network address assigned (or confirmed) for the child.
    pub address: ShortAddress,
    /// Association status.
    pub status: MacStatus,
}

impl RejoinResponse {
    /// The wire octets of the body.
    pub open spec fn spec_encode(self) -> Seq<u8> {
        u16_bytes(self.address.0) + seq![self.status.spec_raw()]
    }

    /// Decodes the body.
    pub fn decode(bytes: &[u8]) -> (r: Result<RejoinResponse, CodecError>)
        ensures
            bytes@.len() >= 3 ==> r == Ok::<RejoinResponse, CodecError>(
                RejoinResponse { address: ShortAddress(le16(bytes@, 0)), status: MacStatus::spec_from_raw(bytes@[2]) },
            ),
            bytes@.len() < 2 ==> r == Err::<RejoinResponse, CodecError>(truncated(bytes@, 0, 2)),
            bytes@.len() == 2 ==> r == Err::<RejoinResponse, CodecError>(truncated(bytes@, 2, 1)),
    {
        let a = match read_u16_le(bytes, 0) {
            Ok(v) => v,
            Err(e) => return Err(e),
        };
        let st = match read_u8(bytes, 2) {
            Ok(v) => v,
            Err(e) => return Err(e),
        };
        Ok(RejoinResponse { address: ShortAddress(a), status: MacStatus::from_raw(st) })
    }

    /// Appends the body's octets to `out`.
    pub fn encode(&self, out: &mut Vec<u8>)
        ensures
            final(out)@ == old(out)@ + self.spec_encode(),
    {
        push_u16_le(out, self.address.0);
        push_u8(out, self.status.raw());
        assert(out@ =~= old(out)@ + self.spec_encode());
    }
}

/// One entry of a Link Status list.
#[derive(Clone, Copy, PartialEq, Eq, Debug, Structural)]
pub struct LinkStatusEntry {
    /// Neighbor network address.
    pub address: ShortAddress,
    /// Incoming cost (1–7) as measured by the sender.
    pub incoming_cost: u8,
    /// Outgoing cost as reported by the neighbor (0 = unknown).
    pub outgoing_cost: u8,
}

/// The entry three octets at `pos` denote.
pub open spec fn spec_link_status_entry(s: Seq<u8>, pos: int) -> LinkStatusEntry {
    LinkStatusEntry {
        address: ShortAddress(le16(s, pos)),
        incoming_cost: s[pos + 2] & 0x7,
        outgoing_cost: (s[pos + 2] >> 4) & 0x7,
    }
}

/// Link Status command.
#[derive(Clone, Copy, PartialEq, Eq, Debug)]
pub struct LinkStatus<'a> {
    /// First frame of the sender's link status.
    pub first_frame: bool,
    /// Last frame of the sender's link status.
    pub last_frame: bool,
    entries: &'a [u8],
}

/// The mathematical content of a [`LinkStatus`].
pub struct LinkStatusView {
    /// First frame.
    pub first_frame: bool,
    /// Last frame.
    pub last_frame: bool,
    /// Raw entry octets (3 per entry).
    pub entries: Seq<u8>,
}

impl<'a> View for LinkStatus<'a> {
    type V = LinkStatusView;

    closed spec fn view(&self) -> LinkStatusView {
        LinkStatusView { first_frame: self.first_frame, last_frame: self.last_frame, entries: self.entries@ }
    }
}

/// Maximum link status entries per frame (5-bit count).
pub const LINK_STATUS_MAX_ENTRIES: usize = 31;

impl LinkStatusView {
    /// The options octet.
    pub open spec fn options(self) -> u8 {
        (((self.entries.len() / 3) as u8) | (bit8(self.first_frame) << 5) | (bit8(self.last_frame) << 6)) as u8
    }

    /// The wire octets (without the command identifier).
    pub open spec fn spec_encode(self) -> Seq<u8> {
        seq![self.options()] + self.entries
    }
}

/// The Link Status body a sequence of octets decodes to, with the octets
/// it occupies.
pub open spec fn spec_decode_link_status(s: Seq<u8>) -> Result<(LinkStatusView, int), CodecError> {
    if s.len() < 1 {
        Err(truncated(s, 0, 1))
    } else {
        let o = s[0];
        let count = (o & 0x1F) as int;
        if 1 + 3 * count > s.len() {
            Err(truncated(s, 1, 3 * count))
        } else {
            Ok((
                LinkStatusView { first_frame: o & 0x20 != 0, last_frame: o & 0x40 != 0, entries: s.subrange(1, 1 + 3 * count) },
                1 + 3 * count,
            ))
        }
    }
}

impl<'a> LinkStatus<'a> {
    /// Builds from raw entry octets (3 per entry).
    pub fn from_raw(first_frame: bool, last_frame: bool, entries: &'a [u8]) -> (l: LinkStatus<'a>)
        ensures
            l@ == (LinkStatusView { first_frame, last_frame, entries: entries@ }),
    {
        LinkStatus { first_frame, last_frame, entries }
    }

    /// Number of entries.
    pub fn entry_count(&self) -> (n: usize)
        ensures
            n == self@.entries.len() / 3,
    {
        self.entries.len() / 3
    }

    /// The entries in order.
    pub fn entries(&self) -> (v: Vec<LinkStatusEntry>)
        ensures
            v@.len() == self@.entries.len() / 3,
            forall|i: int| 0 <= i < v@.len() ==> v@[i] == spec_link_status_entry(self@.entries, 3 * i),
    {
        let mut v: Vec<LinkStatusEntry> = Vec::new();
        let len = self.entries.len();
        let n = len / 3;
        let mut i: usize = 0;
        while i < n
            invariant
                len == self.entries@.len(),
                n == len / 3,
                n * 3 <= len,
                i <= n,
                v@.len() == i,
                forall|j: int| 0 <= j < i ==> v@[j] == spec_link_status_entry(self.entries@, 3 * j),
            decreases n - i,
        {
            let k = 3 * i;
            let c = self.entries[k + 2];
            v.push(LinkStatusEntry {
                address: ShortAddress(((self.entries[k] as u16) | ((self.entries[k + 1] as u16) << 8)) as u16),
                incoming_cost: c & 0x7,
                outgoing_cost: (c >> 4) & 0x7,
            });
            i = i + 1;
        }
        v
    }

    /// Serialises one entry into three octets.
    pub fn encode_entry(e: &LinkStatusEntry) -> (b: [u8; 3])
        ensures
            b@ == u16_bytes(e.address.0) + seq![((e.incoming_cost & 0x7) | ((e.outgoing_cost & 0x7) << 4)) as u8],
    {
        let a = e.address.0;
        let r = [(a & 0xFF) as u8, (a >> 8) as u8, (e.incoming_cost & 0x7) | ((e.outgoing_cost & 0x7) << 4)];
        assert(r@ =~= u16_bytes(e.address.0) + seq![((e.incoming_cost & 0x7) | ((e.outgoing_cost & 0x7) << 4)) as u8]);
        r
    }

    /// Decodes the body, with the octets it occupies.
    pub fn decode(bytes: &'a [u8]) -> (r: Result<(LinkStatus<'a>, usize), CodecError>)
        ensures
            match r {
                Ok((c, n)) => spec_decode_link_status(bytes@) == Ok::<(LinkStatusView, int), CodecError>((c@, n as int)) && n <= bytes@.len(),
                Err(e) => spec_decode_link_status(bytes@) == Err::<(LinkStatusView, int), CodecError>(e),
            },
    {
        let o = match read_u8(bytes, 0) {
            Ok(v) => v,
            Err(e) => return Err(e),
        };
        let count = (o & 0x1F) as usize;
        if bytes.len() - 1 < 3 * count {
            return Err(CodecError::Truncated { needed: 3 * count, available: bytes.len() - 1 });
        }
        let entries = vstd::slice::slice_subrange(bytes, 1, 1 + 3 * count);
        Ok((LinkStatus { first_frame: o & 0x20 != 0, last_frame: o & 0x40 != 0, entries }, 1 + 3 * count))
    }

    /// Serialised length.
    pub fn encoded_len(&self) -> (n: usize)
        requires
            self@.entries.len() < usize::MAX,
        ensures
            n == 1 + self@.entries.len(),
    {
        1 + self.entries.len()
    }

    /// Appends the body's octets to `out`; at most 31 entries fit.
    pub fn encode(&self, out: &mut Vec<u8>) -> (r: Result<(), CodecError>)
        ensures
            self@.entries.len() / 3 > 31 ==> r == Err::<(), CodecError>(CodecError::Unrepresentable { field: Field::LinkStatusCount })
                && final(out)@ == old(out)@,
            self@.entries.len() / 3 <= 31 ==> r is Ok && final(out)@ == old(out)@ + self@.spec_encode(),
    {
        let count = self.entry_count();
        if count > LINK_STATUS_MAX_ENTRIES {
            return Err(CodecError::Unrepresentable { field: Field::LinkStatusCount });
        }
        let a: u8 = if self.first_frame { 1 } else { 0 };
        let b: u8 = if self.last_frame { 1 } else { 0 };
        push_u8(out, (count as u8) | (a << 5) | (b << 6));
        push_bytes(out, self.entries);
        assert(out@ =~= old(out)@ + self@.spec_encode());
        Ok(())
    }
}

/// Network Report command; only the PAN identifier conflict report
/// (identifier 0) is defined.
#[derive(Clone, Copy, PartialEq, Eq, Debug)]
pub struct NetworkReport<'a> {
    /// Report command identifier (0 = PAN ID conflict).
    pub report_id: u8,
    /// Extended PAN ID of the reporting device's network.
    pub epid: ExtendedAddress,
    /// Raw report information; for PAN ID conflict reports a list of
    /// conflicting PAN IDs (2 octets each).
    pub info: &'a [u8],
}

/// The mathematical content of a [`NetworkReport`].
pub struct NetworkReportView {
    /// Report identifier.
    pub report_id: u8,
    /// Extended PAN identifier.
    pub epid: ExtendedAddress,
    /// Report information octets.
    pub info: Seq<u8>,
}

impl<'a> View for NetworkReport<'a> {
    type V = NetworkReportView;

    open spec fn view(&self) -> NetworkReportView {
        NetworkReportView { report_id: self.report_id, epid: self.epid, info: self.info@ }
    }
}

/// Report identifier for PAN ID conflicts.
pub const REPORT_PAN_ID_CONFLICT: u8 = 0;

impl NetworkReportView {
    /// The count the options octet carries.
    pub open spec fn count(self) -> int {
        if self.report_id == REPORT_PAN_ID_CONFLICT {
            (self.info.len() / 2) as int
        } else {
            0
        }
    }

    /// The wire octets (without the command identifier).
    pub open spec fn spec_encode(self) -> Seq<u8> {
        seq![((self.count() as u8) | ((self.report_id << 5) as u8)) as u8] + u64_bytes(self.epid.0) + self.info
    }
}

/// The Network Report body a sequence of octets decodes to, with the
/// octets it occupies: a PAN ID conflict report takes its counted list,
/// any other report every remaining octet.
pub open spec fn spec_decode_network_report(s: Seq<u8>) -> Result<(NetworkReportView, int), CodecError> {
    if s.len() < 1 {
        Err(truncated(s, 0, 1))
    } else if s.len() < 9 {
        Err(truncated(s, 1, 8))
    } else {
        let o = s[0];
        let count = (o & 0x1F) as int;
        let report_id = o >> 5;
        let epid = ExtendedAddress(le64(s, 1));
        if report_id == REPORT_PAN_ID_CONFLICT {
            if 9 + 2 * count > s.len() {
                Err(truncated(s, 9, 2 * count))
            } else {
                Ok((NetworkReportView { report_id, epid, info: s.subrange(9, 9 + 2 * count) }, 9 + 2 * count))
            }
        } else {
            Ok((NetworkReportView { report_id, epid, info: s.subrange(9, s.len() as int) }, s.len() as int))
        }
    }
}

impl<'a> NetworkReport<'a> {
    /// The conflicting PAN identifiers (for a PAN ID conflict report).
    pub fn pan_ids(&self) -> (v: Vec<PanId>)
        ensures
            v@.len() == self.info@.len() / 2,
            forall|i: int| 0 <= i < v@.len() ==> v@[i] == PanId(le16(self.info@, 2 * i)),
    {
        let mut v: Vec<PanId> = Vec::new();
        let len = self.info.len();
        let n = len / 2;
        let mut i: usize = 0;
        while i < n
            invariant
                len == self.info@.len(),
                n == len / 2,
                n * 2 <= len,
                i <= n,
                v@.len() == i,
                forall|j: int| 0 <= j < i ==> v@[j] == PanId(le16(self.info@, 2 * j)),
            decreases n - i,
        {
            let k = 2 * i;
            v.push(PanId(((self.info[k] as u16) | ((self.info[k + 1] as u16) << 8)) as u16));
            i = i + 1;
        }
        v
    }

    /// Decodes the body, with the octets it occupies.
    pub fn decode(bytes: &'a [u8]) -> (r: Result<(NetworkReport<'a>, usize), CodecError>)
        ensures
            match r {
                Ok((c, n)) => spec_decode_network_report(bytes@) == Ok::<(NetworkReportView, int), CodecError>((c@, n as int)) && n <= bytes@.len(),
                Err(e) => spec_decode_network_report(bytes@) == Err::<(NetworkReportView, int), CodecError>(e),
            },
    {
        let o = match read_u8(bytes, 0) {
            Ok(v) => v,
            Err(e) => return Err(e),
        };
        let epid = match read_u64_le(bytes, 1) {
            Ok(v) => ExtendedAddress(v),
            Err(e) => return Err(e),
        };
        let count = (o & 0x1F) as usize;
        let report_id = o >> 5;
        if report_id == REPORT_PAN_ID_CONFLICT {
            if bytes.len() - 9 < 2 * count {
                return Err(CodecError::Truncated { needed: 2 * count, available: bytes.len() - 9 });
            }
            let info = vstd::slice::slice_subrange(bytes, 9, 9 + 2 * count);
            Ok((NetworkReport { report_id, epid, info }, 9 + 2 * count))
        } else {
            let info = vstd::slice::slice_subrange(bytes, 9, bytes.len());
            Ok((NetworkReport { report_id, epid, info }, bytes.len()))
        }
    }

    /// Serialised length.
    pub fn encoded_len(&self) -> (n: usize)
        requires
            self.info@.len() <= usize::MAX - 9,
        ensures
            n == 9 + self.info@.len(),
    {
        9 + self.info.len()
    }

    /// Appends the body's octets to `out`; a PAN ID conflict list holds
    /// at most 31 identifiers.
    pub fn encode(&self, out: &mut Vec<u8>) -> (r: Result<(), CodecError>)
        ensures
            self@.count() > 0x1F ==> r == Err::<(), CodecError>(CodecError::Unrepresentable { field: Field::ReportCount })
                && final(out)@ == old(out)@,
            self@.count() <= 0x1F ==> r is Ok && final(out)@ == old(out)@ + self@.spec_encode(),
    {
        let count: usize = if self.report_id == REPORT_PAN_ID_CONFLICT { self.info.len() / 2 } else { 0 };
        if count > 0x1F {
            return Err(CodecError::Unrepresentable { field: Field::ReportCount });
        }
        push_u8(out, (count as u8) | (self.report_id << 5));
        push_u64_le(out, self.epid.0);
        push_bytes(out, self.info);
        assert(out@ =~= old(out)@ + self@.spec_encode());
        Ok(())
    }
}

/// Network Update command; only the PAN identifier update (identifier
/// 0) is defined.
#[derive(Clone, Copy, PartialEq, Eq, Debug, Structural)]
pub struct NetworkUpdate {
    /// Update command identifier (0 = PAN ID update).
    pub update_id: u8,
    /// Extended PAN ID of the network being updated.
    pub epid: ExtendedAddress,
    /// The new `nwkUpdateId`.
    pub nwk_update_id: u8,
    /// New PAN identifier (for update identifier 0).
    pub new_pan_id: PanId,
}

/// Update identifier for PAN ID changes.
pub const UPDATE_PAN_ID: u8 = 0;

impl NetworkUpdate {
    /// The wire octets of the body.
    pub open spec fn spec_encode(self) -> Seq<u8> {
        seq![(1u8 | ((self.update_id << 5) as u8)) as u8] + u64_bytes(self.epid.0) + seq![self.nwk_update_id] + u16_bytes(self.new_pan_id.0)
    }

    /// Decodes the body: only a PAN identifier update with one entry is
    /// supported.
    pub fn decode(bytes: &[u8]) -> (r: Result<NetworkUpdate, CodecError>)
        ensures
            ({
                let s = bytes@;
                if s.len() < 1 {
                    r == Err::<NetworkUpdate, CodecError>(truncated(s, 0, 1))
                } else if s.len() < 9 {
                    r == Err::<NetworkUpdate, CodecError>(truncated(s, 1, 8))
                } else if s.len() < 10 {
                    r == Err::<NetworkUpdate, CodecError>(truncated(s, 9, 1))
                } else if (s[0] >> 5) != UPDATE_PAN_ID || (s[0] & 0x1F) != 1 {
                    r == Err::<NetworkUpdate, CodecError>(CodecError::Unsupported { what: Field::NetworkUpdateType })
                } else if s.len() < 12 {
                    r == Err::<NetworkUpdate, CodecError>(truncated(s, 10, 2))
                } else {
                    r == Ok::<NetworkUpdate, CodecError>(NetworkUpdate {
                        update_id: s[0] >> 5,
                        epid: ExtendedAddress(le64(s, 1)),
                        nwk_update_id: s[9],
                        new_pan_id: PanId(le16(s, 10)),
                    })
                }
            }),
    {
        let o = match read_u8(bytes, 0) {
            Ok(v) => v,
            Err(e) => return Err(e),
        };
        let epid = match read_u64_le(bytes, 1) {
            Ok(v) => ExtendedAddress(v),
            Err(e) => return Err(e),
        };
        let nwk_update_id = match read_u8(bytes, 9) {
            Ok(v) => v,
            Err(e) => return Err(e),
        };
        let count = o & 0x1F;
        let update_id = o >> 5;
        if update_id != UPDATE_PAN_ID || count != 1 {
            return Err(CodecError::Unsupported { what: Field::NetworkUpdateType });
        }
        let pan = match read_u16_le(bytes, 10) {
            Ok(v) => PanId(v),
            Err(e) => return Err(e),
        };
        Ok(NetworkUpdate { update_id, epid, nwk_update_id, new_pan_id: pan })
    }

    /// Appends the body's octets to `out`.
    pub fn encode(&self, out: &mut Vec<u8>)
        ensures
            final(out)@ == old(out)@ + self.spec_encode(),
    {
        push_u8(out, 1 | (self.update_id << 5));
        push_u64_le(out, self.epid.0);
        push_u8(out, self.nwk_update_id);
        push_u16_le(out, self.new_pan_id.0);
        assert(out@ =~= old(out)@ + self.spec_encode());
    }
}

/// Requested timeout enumeration.
#[derive(Clone, Copy, PartialEq, Eq, Hash, Debug, Structural)]
pub struct TimeoutIndex(pub u8);

/// Highest valid timeout enumeration value.
pub const TIMEOUT_INDEX_MAX: u8 = 14;
/// Default `nwkEndDeviceTimeoutDefault` (index 8 = 256 minutes).
pub const TIMEOUT_INDEX_DEFAULT: u8 = 8;

/// 2 to the power `n`.
pub open spec fn pow2(n: nat) -> nat
    decreases n,
{
    if n == 0 {
        1
    } else {
        2 * pow2((n - 1) as nat)
    }
}

impl TimeoutIndex {
    /// Timeout in seconds of an enumeration value.
    pub open spec fn spec_seconds(self) -> Option<u32> {
        if self.0 == 0 {
            Some(10)
        } else if self.0 <= 14 {
            Some((60 * pow2(self.0 as nat)) as u32)
        } else {
            None
        }
    }

    /// Actual timeout in seconds, or `None` for invalid values: index 0 is
    /// 10 seconds, index `n` in 1..=14 is `60 * 2^n` seconds.
    pub fn seconds(self) -> (s: Option<u32>)
        ensures
            s == self.spec_seconds(),
    {
        if self.0 == 0 {
            return Some(10);
        }
        if self.0 > 14 {
            return None;
        }
        let mut p: u32 = 1;
        let mut i: u8 = 0;
        while i < self.0
            invariant
                i <= self.0 <= 14,
                p == pow2(i as nat),
                p <= 16384,
            decreases self.0 - i,
        {
            proof {
                assert(pow2((i + 1) as nat) == 2 * pow2(i as nat));
                lemma_pow2_bound(i as nat);
            }
            p = p * 2;
            i = i + 1;
        }
        Some(60 * p)
    }

    /// True for a defined enumeration value.
    pub fn is_valid(self) -> (b: bool)
        ensures
            b == (self.0 <= TIMEOUT_INDEX_MAX),
    {
        self.0 <= TIMEOUT_INDEX_MAX
    }
}

/// Powers of two below 2^14 stay at most 2^13.
proof fn lemma_pow2_bound(i: nat)
    requires
        i < 14,
    ensures
        pow2(i) <= 8192,
{
    reveal_with_fuel(pow2, 15);
}

/// End Device Timeout Request command.
#[derive(Clone, Copy, PartialEq, Eq, Debug, Structural)]
pub struct EndDeviceTimeoutRequest {
    /// Requested timeout.
    pub timeout: TimeoutIndex,
    /// End device configuration bitmask.
    pub configuration: u8,
}

impl EndDeviceTimeoutRequest {
    /// Decodes the body.
    pub fn decode(bytes: &[u8]) -> (r: Result<EndDeviceTimeoutRequest, CodecError>)
        ensures
            bytes@.len() >= 2 ==> r == Ok::<EndDeviceTimeoutRequest, CodecError>(
                EndDeviceTimeoutRequest { timeout: TimeoutIndex(bytes@[0]), configuration: bytes@[1] },
            ),
            bytes@.len() < 1 ==> r == Err::<EndDeviceTimeoutRequest, CodecError>(truncated(bytes@, 0, 1)),
            bytes@.len() == 1 ==> r == Err::<EndDeviceTimeoutRequest, CodecError>(truncated(bytes@, 1, 1)),
    {
        let t = match read_u8(bytes, 0) {
            Ok(v) => v,
            Err(e) => return Err(e),
        };
        let c = match read_u8(bytes, 1) {
            Ok(v) => v,
            Err(e) => return Err(e),
        };
        Ok(EndDeviceTimeoutRequest { timeout: TimeoutIndex(t), configuration: c })
    }

    /// Appends the body's octets to `out`.
    pub fn encode(&self, out: &mut Vec<u8>)
        ensures
            final(out)@ == old(out)@ + seq![self.timeout.0, self.configuration],
    {
        push_u8(out, self.timeout.0);
        push_u8(out, self.configuration);
        assert(out@ =~= old(out)@ + seq![self.timeout.0, self.configuration]);
    }
}

/// End Device Timeout Response status.
#[derive(Clone, Copy, PartialEq, Eq, Hash, Debug, Structural)]
pub enum TimeoutResponseStatus {
    /// Accepted.
    Success,
    /// Timeout value out of range.
    IncorrectValue,
    /// A requested configuration feature is unsupported.
    UnsupportedFeature,
    /// Reserved.
    Other(u8),
}

impl TimeoutResponseStatus {
    /// Wire value of a status.
    pub open spec fn spec_raw(self) -> u8 {
        match self {
            TimeoutResponseStatus::Success => 0,
            TimeoutResponseStatus::IncorrectValue => 1,
            TimeoutResponseStatus::UnsupportedFeature => 2,
            TimeoutResponseStatus::Other(v) => v,
        }
    }

    /// Status a wire value denotes.
    pub open spec fn spec_from_raw(v: u8) -> TimeoutResponseStatus {
        if v == 0 {
            TimeoutResponseStatus::Success
        } else if v == 1 {
            TimeoutResponseStatus::IncorrectValue
        } else if v == 2 {
            TimeoutResponseStatus::UnsupportedFeature
        } else {
            TimeoutResponseStatus::Other(v)
        }
    }

    /// Wire value.
    pub fn raw(self) -> (v: u8)
        ensures
            v == self.spec_raw(),
    {
        match self {
            TimeoutResponseStatus::Success => 0,
            TimeoutResponseStatus::IncorrectValue => 1,
            TimeoutResponseStatus::UnsupportedFeature => 2,
            TimeoutResponseStatus::Other(v) => v,
        }
    }

    /// Parses a wire value.
    pub fn from_raw(v: u8) -> (s: TimeoutResponseStatus)
        ensures
            s == Self::spec_from_raw(v),
    {
        if v == 0 {
            TimeoutResponseStatus::Success
        } else if v == 1 {
            TimeoutResponseStatus::IncorrectValue
        } else if v == 2 {
            TimeoutResponseStatus::UnsupportedFeature
        } else {
            TimeoutResponseStatus::Other(v)
        }
    }
}

/// Parent information bitmask, stored in `nwkParentInformation`.
#[derive(Clone, Copy, PartialEq, Eq, Hash, Debug, Default, Structural)]
pub struct ParentInformation(pub u8);

/// Bit 0: MAC data poll keepalive supported.
pub const PARENT_MAC_DATA_POLL_KEEPALIVE: u8 = 0x01;
/// Bit 1: End Device Timeout Request keepalive supported.
pub const PARENT_TIMEOUT_REQUEST_KEEPALIVE: u8 = 0x02;
/// Bit 2: Power negotiation supported.
pub const PARENT_POWER_NEGOTIATION: u8 = 0x04;

impl ParentInformation {
    /// MAC data poll keepalive supported.
    pub fn mac_data_poll_keepalive(self) -> (b: bool)
        ensures
            b == (self.0 & PARENT_MAC_DATA_POLL_KEEPALIVE != 0),
    {
        self.0 & PARENT_MAC_DATA_POLL_KEEPALIVE != 0
    }

    /// Timeout request keepalive supported.
    pub fn timeout_request_keepalive(self) -> (b: bool)
        ensures
            b == (self.0 & PARENT_TIMEOUT_REQUEST_KEEPALIVE != 0),
    {
        self.0 & PARENT_TIMEOUT_REQUEST_KEEPALIVE != 0
    }

    /// Power negotiation supported.
    pub fn power_negotiation(self) -> (b: bool)
        ensures
            b == (self.0 & PARENT_POWER_NEGOTIATION != 0),
    {
        self.0 & PARENT_POWER_NEGOTIATION != 0
    }
}

/// End Device Timeout Response command.
#[derive(Clone, Copy, PartialEq, Eq, Debug, Structural)]
pub struct EndDeviceTimeoutResponse {
    /// Status.
    pub status: TimeoutResponseStatus,
    /// Parent information bitmask.
    pub parent_info: ParentInformation,
}

impl EndDeviceTimeoutResponse {
    /// Decodes the body.
    pub fn decode(bytes: &[u8]) -> (r: Result<EndDeviceTimeoutResponse, CodecError>)
        ensures
            bytes@.len() >= 2 ==> r == Ok::<EndDeviceTimeoutResponse, CodecError>(EndDeviceTimeoutResponse {
                status: TimeoutResponseStatus::spec_from_raw(bytes@[0]),
                parent_info: ParentInformation(bytes@[1]),
            }),
            bytes@.len() < 1 ==> r == Err::<EndDeviceTimeoutResponse, CodecError>(truncated(bytes@, 0, 1)),
            bytes@.len() == 1 ==> r == Err::<EndDeviceTimeoutResponse, CodecError>(truncated(bytes@, 1, 1)),
    {
        let s = match read_u8(bytes, 0) {
            Ok(v) => v,
            Err(e) => return Err(e),
        };
        let p = match read_u8(bytes, 1) {
            Ok(v) => v,
            Err(e) => return Err(e),
        };
        Ok(EndDeviceTimeoutResponse { status: TimeoutResponseStatus::from_raw(s), parent_info: ParentInformation(p) })
    }

    /// Appends the body's octets to `out`.
    pub fn encode(&self, out: &mut Vec<u8>)
        ensures
            final(out)@ == old(out)@ + seq![self.status.spec_raw(), self.parent_info.0],
    {
        push_u8(out, self.status.raw());
        push_u8(out, self.parent_info.0);
        assert(out@ =~= old(out)@ + seq![self.status.spec_raw(), self.parent_info.0]);
    }
}

/// Link Power Delta command type.
#[derive(Clone, Copy, PartialEq, Eq, Hash, Debug, Structural)]
pub enum LinkPowerDeltaType {
    /// Notification.
    Notification,
    /// Request.
    Request,
    /// Response.
    Response,
    /// Reserved.
    Reserved,
}

impl LinkPowerDeltaType {
    /// The two-bit code of a type.
    pub open spec fn spec_bits(self) -> u8 {
        match self {
            LinkPowerDeltaType::Notification => 0,
            LinkPowerDeltaType::Request => 1,
            LinkPowerDeltaType::Response => 2,
            LinkPowerDeltaType::Reserved => 3,
        }
    }

    /// The type the low two bits of `o` denote.
    pub open spec fn spec_from_bits(o: u8) -> LinkPowerDeltaType {
        let b = o & 0x3;
        if b == 0 {
            LinkPowerDeltaType::Notification
        } else if b == 1 {
            LinkPowerDeltaType::Request
        } else if b == 2 {
            LinkPowerDeltaType::Response
        } else {
            LinkPowerDeltaType::Reserved
        }
    }
}

/// Link Power Delta command.
#[derive(Clone, Copy, PartialEq, Eq, Debug)]
pub struct LinkPowerDelta<'a> {
    /// Command type.
    pub kind: LinkPowerDeltaType,
    entries: &'a [u8],
}

/// The mathematical content of a [`LinkPowerDelta`].
pub struct LinkPowerDeltaView {
    /// Command type.
    pub kind: LinkPowerDeltaType,
    /// Raw power list: 3 octets per entry.
    pub entries: Seq<u8>,
}

impl<'a> View for LinkPowerDelta<'a> {
    type V = LinkPowerDeltaView;

    closed spec fn view(&self) -> LinkPowerDeltaView {
        LinkPowerDeltaView { kind: self.kind, entries: self.entries@ }
    }
}

impl LinkPowerDeltaView {
    /// The wire octets (without the command identifier).
    pub open spec fn spec_encode(self) -> Seq<u8> {
        seq![self.kind.spec_bits(), (self.entries.len() / 3) as u8] + self.entries
    }
}

/// The Link Power Delta body a sequence of octets decodes to, with the
/// octets it occupies.
pub open spec fn spec_decode_link_power_delta(s: Seq<u8>) -> Result<(LinkPowerDeltaView, int), CodecError> {
    if s.len() < 1 {
        Err(truncated(s, 0, 1))
    } else if s.len() < 2 {
        Err(truncated(s, 1, 1))
    } else {
        let count = s[1] as int;
        if 2 + 3 * count > s.len() {
            Err(truncated(s, 2, 3 * count))
        } else {
            Ok((LinkPowerDeltaView { kind: LinkPowerDeltaType::spec_from_bits(s[0]), entries: s.subrange(2, 2 + 3 * count) }, 2 + 3 * count))
        }
    }
}

impl<'a> LinkPowerDelta<'a> {
    /// Builds from a raw entry list.
    pub fn from_raw(kind: LinkPowerDeltaType, entries: &'a [u8]) -> (l: LinkPowerDelta<'a>)
        ensures
            l@ == (LinkPowerDeltaView { kind, entries: entries@ }),
    {
        LinkPowerDelta { kind, entries }
    }

    /// The `(address, power delta dB)` pairs.
    pub fn entries(&self) -> (v: Vec<(ShortAddress, i8)>)
        ensures
            v@.len() == self@.entries.len() / 3,
            forall|i: int| 0 <= i < v@.len() ==> v@[i] == (ShortAddress(le16(self@.entries, 3 * i)), self@.entries[3 * i + 2] as i8),
    {
        let mut v: Vec<(ShortAddress, i8)> = Vec::new();
        let len = self.entries.len();
        let n = len / 3;
        let mut i: usize = 0;
        while i < n
            invariant
                len == self.entries@.len(),
                n == len / 3,
                n * 3 <= len,
                i <= n,
                v@.len() == i,
                forall|j: int| 0 <= j < i ==> v@[j] == (ShortAddress(le16(self.entries@, 3 * j)), self.entries@[3 * j + 2] as i8),
            decreases n - i,
        {
            let k = 3 * i;
            let a = ShortAddress(((self.entries[k] as u16) | ((self.entries[k + 1] as u16) << 8)) as u16);
            v.push((a, self.entries[k + 2] as i8));
            i = i + 1;
        }
        v
    }

    /// Decodes the body, with the octets it occupies.
    pub fn decode(bytes: &'a [u8]) -> (r: Result<(LinkPowerDelta<'a>, usize), CodecError>)
        ensures
            match r {
                Ok((c, n)) => spec_decode_link_power_delta(bytes@) == Ok::<(LinkPowerDeltaView, int), CodecError>((c@, n as int)) && n <= bytes@.len(),
                Err(e) => spec_decode_link_power_delta(bytes@) == Err::<(LinkPowerDeltaView, int), CodecError>(e),
            },
    {
        let o = match read_u8(bytes, 0) {
            Ok(v) => v,
            Err(e) => return Err(e),
        };
        let kind = if o & 0x3 == 0 {
            LinkPowerDeltaType::Notification
        } else if o & 0x3 == 1 {
            LinkPowerDeltaType::Request
        } else if o & 0x3 == 2 {
            LinkPowerDeltaType::Response
        } else {
            LinkPowerDeltaType::Reserved
        };
        let count = match read_u8(bytes, 1) {
            Ok(v) => v as usize,
            Err(e) => return Err(e),
        };
        if bytes.len() - 2 < 3 * count {
            return Err(CodecError::Truncated { needed: 3 * count, available: bytes.len() - 2 });
        }
        let entries = vstd::slice::slice_subrange(bytes, 2, 2 + 3 * count);
        Ok((LinkPowerDelta { kind, entries }, 2 + 3 * count))
    }

    /// Serialised length.
    pub fn encoded_len(&self) -> (n: usize)
        requires
            self@.entries.len() <= usize::MAX - 2,
        ensures
            n == 2 + self@.entries.len(),
    {
        2 + self.entries.len()
    }

    /// Appends the body's octets to `out`; the list holds at most 255
    /// entries.
    pub fn encode(&self, out: &mut Vec<u8>) -> (r: Result<(), CodecError>)
        ensures
            self@.entries.len() / 3 > 255 ==> r == Err::<(), CodecError>(CodecError::Unrepresentable { field: Field::PowerListCount })
                && final(out)@ == old(out)@,
            self@.entries.len() / 3 <= 255 ==> r is Ok && final(out)@ == old(out)@ + self@.spec_encode(),
    {
        let count = self.entries.len() / 3;
        if count > 255 {
            return Err(CodecError::Unrepresentable { field: Field::PowerListCount });
        }
        let k: u8 = match self.kind {
            LinkPowerDeltaType::Notification => 0,
            LinkPowerDeltaType::Request => 1,
            LinkPowerDeltaType::Response => 2,
            LinkPowerDeltaType::Reserved => 3,
        };
        push_u8(out, k);
        push_u8(out, count as u8);
        push_bytes(out, self.entries);
        assert(out@ =~= old(out)@ + self@.spec_encode());
        Ok(())
    }
}

/// Network Commissioning type.
#[derive(Clone, Copy, PartialEq, Eq, Hash, Debug, Structural)]
pub enum CommissioningType {
    /// Initial join (with key negotiation).
    InitialJoin,
    /// Rejoin.
    Rejoin,
    /// Establish trusted link (Zigbee Direct).
    EstablishTrustedLink,
    /// Reserved.
    Other(u8),
}

impl CommissioningType {
    /// Wire value of a commissioning type.
    pub open spec fn spec_raw(self) -> u8 {
        match self {
            CommissioningType::InitialJoin => 0,
            CommissioningType::Rejoin => 1,
            CommissioningType::EstablishTrustedLink => 2,
            CommissioningType::Other(v) => v,
        }
    }

    /// Commissioning type a wire value denotes.
    pub open spec fn spec_from_raw(v: u8) -> CommissioningType {
        if v == 0 {
            CommissioningType::InitialJoin
        } else if v == 1 {
            CommissioningType::Rejoin
        } else if v == 2 {
            CommissioningType::EstablishTrustedLink
        } else {
            CommissioningType::Other(v)
        }
    }

    fn raw(self) -> (v: u8)
        ensures
            v == self.spec_raw(),
    {
        match self {
            CommissioningType::InitialJoin => 0,
            CommissioningType::Rejoin => 1,
            CommissioningType::EstablishTrustedLink => 2,
            CommissioningType::Other(v) => v,
        }
    }

    fn from_raw(v: u8) -> (t: CommissioningType)
        ensures
            t == Self::spec_from_raw(v),
    {
        if v == 0 {
            CommissioningType::InitialJoin
        } else if v == 1 {
            CommissioningType::Rejoin
        } else if v == 2 {
            CommissioningType::EstablishTrustedLink
        } else {
            CommissioningType::Other(v)
        }
    }
}

/// Network Commissioning Request command.
#[derive(Clone, Copy, PartialEq, Eq, Debug)]
pub struct CommissioningRequest<'a> {
    /// Commissioning type.
    pub kind: CommissioningType,
    /// Capability information.
    pub capability: MacCapability,
    /// TLVs (raw).
    pub tlvs: &'a [u8],
}

/// The mathematical content of a [`CommissioningRequest`].
pub struct CommissioningRequestView {
    /// Commissioning type.
    pub kind: CommissioningType,
    /// Capability.
    pub capability: MacCapability,
    /// TLV octets.
    pub tlvs: Seq<u8>,
}

impl<'a> View for CommissioningRequest<'a> {
    type V = CommissioningRequestView;

    open spec fn view(&self) -> CommissioningRequestView {
        CommissioningRequestView { kind: self.kind, capability: self.capability, tlvs: self.tlvs@ }
    }
}

impl CommissioningRequestView {
    /// The wire octets (without the command identifier).
    pub open spec fn spec_encode(self) -> Seq<u8> {
        seq![self.kind.spec_raw(), self.capability.0] + self.tlvs
    }
}

/// The Commissioning Request body a sequence of octets decodes to.
pub open spec fn spec_decode_commissioning_request(s: Seq<u8>) -> Result<CommissioningRequestView, CodecError> {
    if s.len() < 1 {
        Err(truncated(s, 0, 1))
    } else if s.len() < 2 {
        Err(truncated(s, 1, 1))
    } else {
        Ok(CommissioningRequestView {
            kind: CommissioningType::spec_from_raw(s[0]),
            capability: MacCapability(s[1]),
            tlvs: s.subrange(2, s.len() as int),
        })
    }
}

impl<'a> CommissioningRequest<'a> {
    /// Validates the TLVs.
    pub fn tlv_set(&self) -> (r: Result<TlvSet<'a>, TlvError>)
        ensures
            tlv_chain_ok(self.tlvs@, 0) ==> (r matches Ok(t) && t@ == self.tlvs@),
            !tlv_chain_ok(self.tlvs@, 0) ==> r is Err,
    {
        TlvSet::validate(self.tlvs)
    }

    /// Decodes the body; the TLVs take every remaining octet.
    pub fn decode(bytes: &'a [u8]) -> (r: Result<CommissioningRequest<'a>, CodecError>)
        ensures
            match r {
                Ok(c) => spec_decode_commissioning_request(bytes@) == Ok::<CommissioningRequestView, CodecError>(c@),
                Err(e) => spec_decode_commissioning_request(bytes@) == Err::<CommissioningRequestView, CodecError>(e),
            },
    {
        let k = match read_u8(bytes, 0) {
            Ok(v) => v,
            Err(e) => return Err(e),
        };
        let c = match read_u8(bytes, 1) {
            Ok(v) => v,
            Err(e) => return Err(e),
        };
        let tlvs = vstd::slice::slice_subrange(bytes, 2, bytes.len());
        Ok(CommissioningRequest { kind: CommissioningType::from_raw(k), capability: MacCapability::from_raw(c), tlvs })
    }

    /// Serialised length.
    pub fn encoded_len(&self) -> (n: usize)
        requires
            self.tlvs@.len() <= usize::MAX - 2,
        ensures
            n == self@.spec_encode().len(),
    {
        2 + self.tlvs.len()
    }

    /// Appends the body's octets to `out`.
    pub fn encode(&self, out: &mut Vec<u8>)
        ensures
            final(out)@ == old(out)@ + self@.spec_encode(),
    {
        push_u8(out, self.kind.raw());
        push_u8(out, self.capability.raw());
        push_bytes(out, self.tlvs);
        assert(out@ =~= old(out)@ + self@.spec_encode());
    }
}

/// Network Commissioning Response command.
#[derive(Clone, Copy, PartialEq, Eq, Debug)]
pub struct CommissioningResponse<'a> {
    /// Assigned / confirmed network address.
    pub address: ShortAddress,
    /// Association status; `0xF0` indicates an address conflict.
    pub status: MacStatus,
    /// TLVs.
    pub tlvs: &'a [u8],
}

/// The special status value for a short address conflict.
pub const STATUS_ADDRESS_CONFLICT: u8 = 0xF0;

/// The mathematical content of a [`CommissioningResponse`].
pub struct CommissioningResponseView {
    /// Address.
    pub address: ShortAddress,
    /// Status.
    pub status: MacStatus,
    /// TLV octets.
    pub tlvs: Seq<u8>,
}

impl<'a> View for CommissioningResponse<'a> {
    type V = CommissioningResponseView;

    open spec fn view(&self) -> CommissioningResponseView {
        CommissioningResponseView { address: self.address, status: self.status, tlvs: self.tlvs@ }
    }
}

impl CommissioningResponseView {
    /// The wire octets (without the command identifier).
    pub open spec fn spec_encode(self) -> Seq<u8> {
        u16_bytes(self.address.0) + seq![self.status.spec_raw()] + self.tlvs
    }
}

/// The Commissioning Response body a sequence of octets decodes to.
pub open spec fn spec_decode_commissioning_response(s: Seq<u8>) -> Result<CommissioningResponseView, CodecError> {
    if s.len() < 2 {
        Err(truncated(s, 0, 2))
    } else if s.len() < 3 {
        Err(truncated(s, 2, 1))
    } else {
        Ok(CommissioningResponseView {
            address: ShortAddress(le16(s, 0)),
            status: MacStatus::spec_from_raw(s[2]),
            tlvs: s.subrange(3, s.len() as int),
        })
    }
}

impl<'a> CommissioningResponse<'a> {
    /// Decodes the body; the TLVs take every remaining octet.
    pub fn decode(bytes: &'a [u8]) -> (r: Result<CommissioningResponse<'a>, CodecError>)
        ensures
            match r {
                Ok(c) => spec_decode_commissioning_response(bytes@) == Ok::<CommissioningResponseView, CodecError>(c@),
                Err(e) => spec_decode_commissioning_response(bytes@) == Err::<CommissioningResponseView, CodecError>(e),
            },
    {
        let a = match read_u16_le(bytes, 0) {
            Ok(v) => v,
            Err(e) => return Err(e),
        };
        let st = match read_u8(bytes, 2) {
            Ok(v) => v,
            Err(e) => return Err(e),
        };
        let tlvs = vstd::slice::slice_subrange(bytes, 3, bytes.len());
        Ok(CommissioningResponse { address: ShortAddress(a), status: MacStatus::from_raw(st), tlvs })
    }

    /// Serialised length.
    pub fn encoded_len(&self) -> (n: usize)
        requires
            self.tlvs@.len() <= usize::MAX - 3,
        ensures
            n == self@.spec_encode().len(),
    {
        3 + self.tlvs.len()
    }

    /// Appends the body's octets to `out`.
    pub fn encode(&self, out: &mut Vec<u8>)
        ensures
            final(out)@ == old(out)@ + self@.spec_encode(),
    {
        push_u16_le(out, self.address.0);
        push_u8(out, self.status.raw());
        push_bytes(out, self.tlvs);
        assert(out@ =~= old(out)@ + self@.spec_encode());
    }
}

/// A parsed NWK command.
#[derive(Clone, Copy, PartialEq, Eq, Debug)]
pub enum NwkCommand<'a> {
    /// Route Request.
    RouteRequest(RouteRequest<'a>),
    /// Route Reply.
    RouteReply(RouteReply<'a>),
    /// Network Status.
    NetworkStatus(NetworkStatus<'a>),
    /// Leave.
    Leave(Leave),
    /// Route Record.
    RouteRecord(RouteRecord<'a>),
    /// Rejoin Request.
    RejoinRequest(RejoinRequest),
    /// Rejoin Response.
    RejoinResponse(RejoinResponse),
    /// Link Status.
    LinkStatus(LinkStatus<'a>),
    /// Network Report.
    NetworkReport(NetworkReport<'a>),
    /// Network Update.
    NetworkUpdate(NetworkUpdate),
    /// End Device Timeout Request.
    EndDeviceTimeoutRequest(EndDeviceTimeoutRequest),
    /// End Device Timeout Response.
    EndDeviceTimeoutResponse(EndDeviceTimeoutResponse),
    /// Link Power Delta.
    LinkPowerDelta(LinkPowerDelta<'a>),
    /// Network Commissioning Request.
    CommissioningRequest(CommissioningRequest<'a>),
    /// Network Commissioning Response.
    CommissioningResponse(CommissioningResponse<'a>),
    /// Unknown command identifier with its raw payload.
    Unknown {
        /// Identifier.
        id: u8,
        /// Payload.
        payload: &'a [u8],
    },
}

/// The mathematical content of a [`NwkCommand`].
pub enum NwkCommandView {
    /// Route Request.
    RouteRequest(RouteRequestView),
    /// Route Reply.
    RouteReply(RouteReplyView),
    /// Network Status.
    NetworkStatus(NetworkStatusView),
    /// Leave.
    Leave(Leave),
    /// Route Record: the relay octets.
    RouteRecord(Seq<u8>),
    /// Rejoin Request.
    RejoinRequest(RejoinRequest),
    /// Rejoin Response.
    RejoinResponse(RejoinResponse),
    /// Link Status.
    LinkStatus(LinkStatusView),
    /// Network Report.
    NetworkReport(NetworkReportView),
    /// Network Update.
    NetworkUpdate(NetworkUpdate),
    /// End Device Timeout Request.
    EndDeviceTimeoutRequest(EndDeviceTimeoutRequest),
    /// End Device Timeout Response.
    EndDeviceTimeoutResponse(EndDeviceTimeoutResponse),
    /// Link Power Delta.
    LinkPowerDelta(LinkPowerDeltaView),
    /// Network Commissioning Request.
    CommissioningRequest(CommissioningRequestView),
    /// Network Commissioning Response.
    CommissioningResponse(CommissioningResponseView),
    /// Unknown identifier.
    Unknown { id: u8, payload: Seq<u8> },
}

impl<'a> View for NwkCommand<'a> {
    type V = NwkCommandView;

    open spec fn view(&self) -> NwkCommandView {
        match *self {
            NwkCommand::RouteRequest(c) => NwkCommandView::RouteRequest(c@),
            NwkCommand::RouteReply(c) => NwkCommandView::RouteReply(c@),
            NwkCommand::NetworkStatus(c) => NwkCommandView::NetworkStatus(c@),
            NwkCommand::Leave(c) => NwkCommandView::Leave(c),
            NwkCommand::RouteRecord(c) => NwkCommandView::RouteRecord(c@),
            NwkCommand::RejoinRequest(c) => NwkCommandView::RejoinRequest(c),
            NwkCommand::RejoinResponse(c) => NwkCommandView::RejoinResponse(c),
            NwkCommand::LinkStatus(c) => NwkCommandView::LinkStatus(c@),
            NwkCommand::NetworkReport(c) => NwkCommandView::NetworkReport(c@),
            NwkCommand::NetworkUpdate(c) => NwkCommandView::NetworkUpdate(c),
            NwkCommand::EndDeviceTimeoutRequest(c) => NwkCommandView::EndDeviceTimeoutRequest(c),
            NwkCommand::EndDeviceTimeoutResponse(c) => NwkCommandView::EndDeviceTimeoutResponse(c),
            NwkCommand::LinkPowerDelta(c) => NwkCommandView::LinkPowerDelta(c@),
            NwkCommand::CommissioningRequest(c) => NwkCommandView::CommissioningRequest(c@),
            NwkCommand::CommissioningResponse(c) => NwkCommandView::CommissioningResponse(c@),
            NwkCommand::Unknown { id, payload } => NwkCommandView::Unknown { id, payload: payload@ },
        }
    }
}

/// The Network Update body a sequence of octets denotes.
pub open spec fn spec_decode_network_update(s: Seq<u8>) -> Result<NetworkUpdate, CodecError> {
    if s.len() < 1 {
        Err(truncated(s, 0, 1))
    } else if s.len() < 9 {
        Err(truncated(s, 1, 8))
    } else if s.len() < 10 {
        Err(truncated(s, 9, 1))
    } else if (s[0] >> 5) != UPDATE_PAN_ID || (s[0] & 0x1F) != 1 {
        Err(CodecError::Unsupported { what: Field::NetworkUpdateType })
    } else if s.len() < 12 {
        Err(truncated(s, 10, 2))
    } else {
        Ok(NetworkUpdate {
            update_id: s[0] >> 5,
            epid: ExtendedAddress(le64(s, 1)),
            nwk_update_id: s[9],
            new_pan_id: PanId(le16(s, 10)),
        })
    }
}

/// A body decoded to the whole of `s`.
pub open spec fn whole<T>(r: Result<T, CodecError>, n: int, f: spec_fn(T) -> NwkCommandView) -> Result<(NwkCommandView, int), CodecError> {
    match r {
        Ok(v) => Ok((f(v), n)),
        Err(e) => Err(e),
    }
}

/// The command body with identifier `id` that `s` starts with, and the
/// octets it occupies.
pub open spec fn spec_decode_nwk_body(id: u8, s: Seq<u8>) -> Result<(NwkCommandView, int), CodecError> {
    let len = s.len() as int;
    if id == 0x01 {
        whole(spec_decode_route_request(s), len, |v| NwkCommandView::RouteRequest(v))
    } else if id == 0x02 {
        whole(spec_decode_route_reply(s), len, |v| NwkCommandView::RouteReply(v))
    } else if id == 0x03 {
        whole(spec_decode_network_status(s), len, |v| NwkCommandView::NetworkStatus(v))
    } else if id == 0x04 {
        if s.len() < 1 {
            Err(truncated(s, 0, 1))
        } else {
            Ok((NwkCommandView::Leave(Leave::spec_from_octet(s[0])), 1))
        }
    } else if id == 0x05 {
        match spec_decode_route_record(s) {
            Ok((r, n)) => Ok((NwkCommandView::RouteRecord(r), n)),
            Err(e) => Err(e),
        }
    } else if id == 0x06 {
        if s.len() < 1 {
            Err(truncated(s, 0, 1))
        } else {
            Ok((NwkCommandView::RejoinRequest(RejoinRequest { capability: MacCapability(s[0]) }), 1))
        }
    } else if id == 0x07 {
        if s.len() < 2 {
            Err(truncated(s, 0, 2))
        } else if s.len() < 3 {
            Err(truncated(s, 2, 1))
        } else {
            Ok((
                NwkCommandView::RejoinResponse(
                    RejoinResponse { address: ShortAddress(le16(s, 0)), status: MacStatus::spec_from_raw(s[2]) },
                ),
                3,
            ))
        }
    } else if id == 0x08 {
        match spec_decode_link_status(s) {
            Ok((v, n)) => Ok((NwkCommandView::LinkStatus(v), n)),
            Err(e) => Err(e),
        }
    } else if id == 0x09 {
        match spec_decode_network_report(s) {
            Ok((v, n)) => Ok((NwkCommandView::NetworkReport(v), n)),
            Err(e) => Err(e),
        }
    } else if id == 0x0A {
        whole(spec_decode_network_update(s), 12, |v| NwkCommandView::NetworkUpdate(v))
    } else if id == 0x0B {
        if s.len() < 1 {
            Err(truncated(s, 0, 1))
        } else if s.len() < 2 {
            Err(truncated(s, 1, 1))
        } else {
            Ok((
                NwkCommandView::EndDeviceTimeoutRequest(
                    EndDeviceTimeoutRequest { timeout: TimeoutIndex(s[0]), configuration: s[1] },
                ),
                2,
            ))
        }
    } else if id == 0x0C {
        if s.len() < 1 {
            Err(truncated(s, 0, 1))
        } else if s.len() < 2 {
            Err(truncated(s, 1, 1))
        } else {
            Ok((
                NwkCommandView::EndDeviceTimeoutResponse(
                    EndDeviceTimeoutResponse {
                        status: TimeoutResponseStatus::spec_from_raw(s[0]),
                        parent_info: ParentInformation(s[1]),
                    },
                ),
                2,
            ))
        }
    } else if id == 0x0D {
        match spec_decode_link_power_delta(s) {
            Ok((v, n)) => Ok((NwkCommandView::LinkPowerDelta(v), n)),
            Err(e) => Err(e),
        }
    } else if id == 0x0E {
        whole(spec_decode_commissioning_request(s), len, |v| NwkCommandView::CommissioningRequest(v))
    } else if id == 0x0F {
        whole(spec_decode_commissioning_response(s), len, |v| NwkCommandView::CommissioningResponse(v))
    } else {
        Ok((NwkCommandView::Unknown { id, payload: s }, len))
    }
}

/// The command `s` starts with and the octets it occupies.
pub open spec fn spec_decode_nwk_command(s: Seq<u8>) -> Result<(NwkCommandView, int), CodecError> {
    if s.len() < 1 {
        Err(truncated(s, 0, 1))
    } else {
        match spec_decode_nwk_body(s[0], s.subrange(1, s.len() as int)) {
            Ok((v, n)) => Ok((v, 1 + n)),
            Err(e) => Err(e),
        }
    }
}

impl NwkCommandView {
    /// The command identifier.
    pub open spec fn spec_id(self) -> NwkCommandId {
        match self {
            NwkCommandView::RouteRequest(_) => NwkCommandId::RouteRequest,
            NwkCommandView::RouteReply(_) => NwkCommandId::RouteReply,
            NwkCommandView::NetworkStatus(_) => NwkCommandId::NetworkStatus,
            NwkCommandView::Leave(_) => NwkCommandId::Leave,
            NwkCommandView::RouteRecord(_) => NwkCommandId::RouteRecord,
            NwkCommandView::RejoinRequest(_) => NwkCommandId::RejoinRequest,
            NwkCommandView::RejoinResponse(_) => NwkCommandId::RejoinResponse,
            NwkCommandView::LinkStatus(_) => NwkCommandId::LinkStatus,
            NwkCommandView::NetworkReport(_) => NwkCommandId::NetworkReport,
            NwkCommandView::NetworkUpdate(_) => NwkCommandId::NetworkUpdate,
            NwkCommandView::EndDeviceTimeoutRequest(_) => NwkCommandId::EndDeviceTimeoutRequest,
            NwkCommandView::EndDeviceTimeoutResponse(_) => NwkCommandId::EndDeviceTimeoutResponse,
            NwkCommandView::LinkPowerDelta(_) => NwkCommandId::LinkPowerDelta,
            NwkCommandView::CommissioningRequest(_) => NwkCommandId::CommissioningRequest,
            NwkCommandView::CommissioningResponse(_) => NwkCommandId::CommissioningResponse,
            NwkCommandView::Unknown { id, .. } => NwkCommandId::Unknown(id),
        }
    }

    /// The body's octets, or the error encoding it meets.
    pub open spec fn spec_encode_body(self) -> Result<Seq<u8>, CodecError> {
        match self {
            NwkCommandView::RouteRequest(c) => Ok(c.spec_encode()),
            NwkCommandView::RouteReply(c) => Ok(c.spec_encode()),
            NwkCommandView::NetworkStatus(c) => Ok(c.spec_encode()),
            NwkCommandView::Leave(c) => Ok(seq![c.spec_octet()]),
            NwkCommandView::RouteRecord(r) => if r.len() / 2 > 255 {
                Err(CodecError::Unrepresentable { field: Field::RelayCount })
            } else {
                Ok(spec_route_record_encode(r))
            },
            NwkCommandView::RejoinRequest(c) => Ok(seq![c.capability.0]),
            NwkCommandView::RejoinResponse(c) => Ok(c.spec_encode()),
            NwkCommandView::LinkStatus(c) => if c.entries.len() / 3 > 31 {
                Err(CodecError::Unrepresentable { field: Field::LinkStatusCount })
            } else {
                Ok(c.spec_encode())
            },
            NwkCommandView::NetworkReport(c) => if c.count() > 0x1F {
                Err(CodecError::Unrepresentable { field: Field::ReportCount })
            } else {
                Ok(c.spec_encode())
            },
            NwkCommandView::NetworkUpdate(c) => Ok(c.spec_encode()),
            NwkCommandView::EndDeviceTimeoutRequest(c) => Ok(seq![c.timeout.0, c.configuration]),
            NwkCommandView::EndDeviceTimeoutResponse(c) => Ok(seq![c.status.spec_raw(), c.parent_info.0]),
            NwkCommandView::LinkPowerDelta(c) => if c.entries.len() / 3 > 255 {
                Err(CodecError::Unrepresentable { field: Field::PowerListCount })
            } else {
                Ok(c.spec_encode())
            },
            NwkCommandView::CommissioningRequest(c) => Ok(c.spec_encode()),
            NwkCommandView::CommissioningResponse(c) => Ok(c.spec_encode()),
            NwkCommandView::Unknown { payload, .. } => Ok(payload),
        }
    }

    /// The command's octets: identifier then body.
    pub open spec fn spec_encode(self) -> Result<Seq<u8>, CodecError> {
        match self.spec_encode_body() {
            Ok(b) => Ok(seq![self.spec_id().spec_raw()] + b),
            Err(e) => Err(e),
        }
    }

    /// Length of the serialised body, whether or not it is representable.
    pub open spec fn spec_body_len(self) -> int {
        match self {
            NwkCommandView::RouteRecord(r) => 1 + r.len() as int,
            NwkCommandView::LinkStatus(c) => 1 + c.entries.len() as int,
            NwkCommandView::NetworkReport(c) => 9 + c.info.len() as int,
            NwkCommandView::LinkPowerDelta(c) => 2 + c.entries.len() as int,
            _ => match self.spec_encode_body() {
                Ok(b) => b.len() as int,
                Err(_) => 0,
            },
        }
    }

    /// Every variable-length part is far below the machine limit.
    pub open spec fn lengths_fit(self) -> bool {
        match self {
            NwkCommandView::RouteRequest(c) => c.tlvs.len() <= 0xFFFF,
            NwkCommandView::RouteReply(c) => c.tlvs.len() <= 0xFFFF,
            NwkCommandView::NetworkStatus(c) => c.tlvs.len() <= 0xFFFF,
            NwkCommandView::RouteRecord(r) => r.len() <= 0xFFFF,
            NwkCommandView::LinkStatus(c) => c.entries.len() <= 0xFFFF,
            NwkCommandView::NetworkReport(c) => c.info.len() <= 0xFFFF,
            NwkCommandView::LinkPowerDelta(c) => c.entries.len() <= 0xFFFF,
            NwkCommandView::CommissioningRequest(c) => c.tlvs.len() <= 0xFFFF,
            NwkCommandView::CommissioningResponse(c) => c.tlvs.len() <= 0xFFFF,
            NwkCommandView::Unknown { payload, .. } => payload.len() <= 0xFFFF,
            _ => true,
        }
    }
}

impl<'a> NwkCommand<'a> {
    /// Command identifier.
    pub fn id(&self) -> (i: NwkCommandId)
        ensures
            i == self@.spec_id(),
    {
        match self {
            NwkCommand::RouteRequest(_) => NwkCommandId::RouteRequest,
            NwkCommand::RouteReply(_) => NwkCommandId::RouteReply,
            NwkCommand::NetworkStatus(_) => NwkCommandId::NetworkStatus,
            NwkCommand::Leave(_) => NwkCommandId::Leave,
            NwkCommand::RouteRecord(_) => NwkCommandId::RouteRecord,
            NwkCommand::RejoinRequest(_) => NwkCommandId::RejoinRequest,
            NwkCommand::RejoinResponse(_) => NwkCommandId::RejoinResponse,
            NwkCommand::LinkStatus(_) => NwkCommandId::LinkStatus,
            NwkCommand::NetworkReport(_) => NwkCommandId::NetworkReport,
            NwkCommand::NetworkUpdate(_) => NwkCommandId::NetworkUpdate,
            NwkCommand::EndDeviceTimeoutRequest(_) => NwkCommandId::EndDeviceTimeoutRequest,
            NwkCommand::EndDeviceTimeoutResponse(_) => NwkCommandId::EndDeviceTimeoutResponse,
            NwkCommand::LinkPowerDelta(_) => NwkCommandId::LinkPowerDelta,
            NwkCommand::CommissioningRequest(_) => NwkCommandId::CommissioningRequest,
            NwkCommand::CommissioningResponse(_) => NwkCommandId::CommissioningResponse,
            NwkCommand::Unknown { id, .. } => NwkCommandId::Unknown(*id),
        }
    }

    /// Decodes the command at the front of `bytes`, with the octets it
    /// occupies.
    pub fn decode(bytes: &'a [u8]) -> (r: Result<(NwkCommand<'a>, usize), CodecError>)
        ensures
            match spec_decode_nwk_command(bytes@) {
                Ok((v, n)) => r matches Ok((c, m)) && c@ == v && m == n,
                Err(e) => r == Err::<(NwkCommand<'a>, usize), CodecError>(e),
            },
    {
        let id = match read_u8(bytes, 0) {
            Ok(v) => v,
            Err(e) => return Err(e),
        };
        let body = vstd::slice::slice_subrange(bytes, 1, bytes.len());
        let n = body.len();
        let (c, used): (NwkCommand<'a>, usize) = if id == 0x01 {
            match RouteRequest::decode(body) {
                Ok(v) => (NwkCommand::RouteRequest(v), n),
                Err(e) => return Err(e),
            }
        } else if id == 0x02 {
            match RouteReply::decode(body) {
                Ok(v) => (NwkCommand::RouteReply(v), n),
                Err(e) => return Err(e),
            }
        } else if id == 0x03 {
            match NetworkStatus::decode(body) {
                Ok(v) => (NwkCommand::NetworkStatus(v), n),
                Err(e) => return Err(e),
            }
        } else if id == 0x04 {
            match Leave::decode(body) {
                Ok(v) => (NwkCommand::Leave(v), 1),
                Err(e) => return Err(e),
            }
        } else if id == 0x05 {
            match RouteRecord::decode(body) {
                Ok((v, k)) => (NwkCommand::RouteRecord(v), k),
                Err(e) => return Err(e),
            }
        } else if id == 0x06 {
            match RejoinRequest::decode(body) {
                Ok(v) => (NwkCommand::RejoinRequest(v), 1),
                Err(e) => return Err(e),
            }
        } else if id == 0x07 {
            match RejoinResponse::decode(body) {
                Ok(v) => (NwkCommand::RejoinResponse(v), 3),
                Err(e) => return Err(e),
            }
        } else if id == 0x08 {
            match LinkStatus::decode(body) {
                Ok((v, k)) => (NwkCommand::LinkStatus(v), k),
                Err(e) => return Err(e),
            }
        } else if id == 0x09 {
            match NetworkReport::decode(body) {
                Ok((v, k)) => (NwkCommand::NetworkReport(v), k),
                Err(e) => return Err(e),
            }
        } else if id == 0x0A {
            match NetworkUpdate::decode(body) {
                Ok(v) => (NwkCommand::NetworkUpdate(v), 12),
                Err(e) => return Err(e),
            }
        } else if id == 0x0B {
            match EndDeviceTimeoutRequest::decode(body) {
                Ok(v) => (NwkCommand::EndDeviceTimeoutRequest(v), 2),
                Err(e) => return Err(e),
            }
        } else if id == 0x0C {
            match EndDeviceTimeoutResponse::decode(body) {
                Ok(v) => (NwkCommand::EndDeviceTimeoutResponse(v), 2),
                Err(e) => return Err(e),
            }
        } else if id == 0x0D {
            match LinkPowerDelta::decode(body) {
                Ok((v, k)) => (NwkCommand::LinkPowerDelta(v), k),
                Err(e) => return Err(e),
            }
        } else if id == 0x0E {
            match CommissioningRequest::decode(body) {
                Ok(v) => (NwkCommand::CommissioningRequest(v), n),
                Err(e) => return Err(e),
            }
        } else if id == 0x0F {
            match CommissioningResponse::decode(body) {
                Ok(v) => (NwkCommand::CommissioningResponse(v), n),
                Err(e) => return Err(e),
            }
        } else {
            (NwkCommand::Unknown { id, payload: body }, n)
        };
        Ok((c, 1 + used))
    }

    /// Decodes a command that must occupy all of `bytes`.
    pub fn decode_exact(bytes: &'a [u8]) -> (r: Result<NwkCommand<'a>, CodecError>)
        ensures
            match exact(spec_decode_nwk_command(bytes@), bytes@.len() as int) {
                Ok(v) => r matches Ok(c) && c@ == v,
                Err(e) => r == Err::<NwkCommand<'a>, CodecError>(e),
            },
    {
        match Self::decode(bytes) {
            Ok((c, n)) => if n == bytes.len() {
                Ok(c)
            } else {
                Err(CodecError::TrailingBytes { count: bytes.len() - n })
            },
            Err(e) => Err(e),
        }
    }

    /// Serialised length: identifier plus body.
    pub fn encoded_len(&self) -> (n: usize)
        requires
            self@.lengths_fit(),
        ensures
            n == 1 + self@.spec_body_len(),
    {
        let b: usize = match self {
            NwkCommand::RouteRequest(c) => c.encoded_len(),
            NwkCommand::RouteReply(c) => c.encoded_len(),
            NwkCommand::NetworkStatus(c) => c.encoded_len(),
            NwkCommand::Leave(c) => c.encoded_len(),
            NwkCommand::RouteRecord(c) => c.encoded_len(),
            NwkCommand::RejoinRequest(_) => 1,
            NwkCommand::RejoinResponse(_) => 3,
            NwkCommand::LinkStatus(c) => c.encoded_len(),
            NwkCommand::NetworkReport(c) => c.encoded_len(),
            NwkCommand::NetworkUpdate(_) => 12,
            NwkCommand::EndDeviceTimeoutRequest(_) => 2,
            NwkCommand::EndDeviceTimeoutResponse(_) => 2,
            NwkCommand::LinkPowerDelta(c) => c.encoded_len(),
            NwkCommand::CommissioningRequest(c) => c.encoded_len(),
            NwkCommand::CommissioningResponse(c) => c.encoded_len(),
            NwkCommand::Unknown { payload, .. } => payload.len(),
        };
        1 + b
    }

    /// Appends the command's octets to `out`; when the body cannot be
    /// encoded `out` is unchanged.
    pub fn encode(&self, out: &mut Vec<u8>) -> (r: Result<(), CodecError>)
        ensures
            match self@.spec_encode() {
                Ok(b) => r is Ok && final(out)@ == old(out)@ + b,
                Err(e) => r == Err::<(), CodecError>(e) && final(out)@ == old(out)@,
            },
    {
        let mut body: Vec<u8> = Vec::new();
        let res: Result<(), CodecError> = match self {
            NwkCommand::RouteRequest(c) => {
                c.encode(&mut body);
                Ok(())
            },
            NwkCommand::RouteReply(c) => {
                c.encode(&mut body);
                Ok(())
            },
            NwkCommand::NetworkStatus(c) => {
                c.encode(&mut body);
                Ok(())
            },
            NwkCommand::Leave(c) => {
                c.encode(&mut body);
                Ok(())
            },
            NwkCommand::RouteRecord(c) => c.encode(&mut body),
            NwkCommand::RejoinRequest(c) => {
                c.encode(&mut body);
                Ok(())
            },
            NwkCommand::RejoinResponse(c) => {
                c.encode(&mut body);
                Ok(())
            },
            NwkCommand::LinkStatus(c) => c.encode(&mut body),
            NwkCommand::NetworkReport(c) => c.encode(&mut body),
            NwkCommand::NetworkUpdate(c) => {
                c.encode(&mut body);
                Ok(())
            },
            NwkCommand::EndDeviceTimeoutRequest(c) => {
                c.encode(&mut body);
                Ok(())
            },
            NwkCommand::EndDeviceTimeoutResponse(c) => {
                c.encode(&mut body);
                Ok(())
            },
            NwkCommand::LinkPowerDelta(c) => c.encode(&mut body),
            NwkCommand::CommissioningRequest(c) => {
                c.encode(&mut body);
                Ok(())
            },
            NwkCommand::CommissioningResponse(c) => {
                c.encode(&mut body);
                Ok(())
            },
            NwkCommand::Unknown { payload, .. } => {
                push_bytes(&mut body, payload);
                Ok(())
            },
        };
        match res {
            Err(e) => Err(e),
            Ok(()) => {
                assert(self@.spec_encode_body() == Ok::<Seq<u8>, CodecError>(body@));
                push_u8(out, self.id().raw());
                push_bytes(out, body.as_slice());
                assert(out@ =~= old(out)@ + (seq![self@.spec_id().spec_raw()] + body@));
                Ok(())
            },
        }
    }

    /// Encodes into the front of `buf`, returning the length written.
    pub fn encode_to_slice(&self, buf: &mut [u8]) -> (r: Result<usize, CodecError>)
        ensures
            match self@.spec_encode() {
                Ok(b) => if b.len() <= old(buf)@.len() {
                    r == Ok::<usize, CodecError>(b.len() as usize) && final(buf)@.subrange(0, b.len() as int) == b
                } else {
                    r is Err && final(buf)@ == old(buf)@
                },
                Err(e) => r == Err::<usize, CodecError>(e) && final(buf)@ == old(buf)@,
            },
    {
        let mut v: Vec<u8> = Vec::new();
        match self.encode(&mut v) {
            Ok(()) => {
                assert(v@ =~= Seq::<u8>::empty() + self@.spec_encode()->Ok_0);
                copy_to_slice(&v, buf)
            },
            Err(e) => Err(e),
        }
    }
}


impl NwkCommandView {
    /// A command that decodes back from its own encoding: status codes
    /// that parse to themselves, whole entries in raw lists, counts that
    /// fit their fields, a PAN identifier update, and an unknown command
    /// only for identifiers that are not assigned.
    pub open spec fn wf(self) -> bool {
        match self {
            NwkCommandView::NetworkStatus(c) => c.status.wf(),
            NwkCommandView::RouteRecord(r) => r.len() % 2 == 0 && r.len() / 2 <= 255,
            NwkCommandView::RejoinResponse(c) => c.status.wf(),
            NwkCommandView::LinkStatus(c) => c.entries.len() % 3 == 0 && c.entries.len() / 3 <= 31,
            NwkCommandView::NetworkReport(c) => c.report_id < 8 && (c.report_id == REPORT_PAN_ID_CONFLICT ==> (
            c.info.len() % 2 == 0 && c.info.len() / 2 <= 0x1F)),
            NwkCommandView::NetworkUpdate(c) => c.update_id == UPDATE_PAN_ID,
            NwkCommandView::EndDeviceTimeoutResponse(c) => TimeoutResponseStatus::spec_from_raw(c.status.spec_raw())
                == c.status,
            NwkCommandView::LinkPowerDelta(c) => c.entries.len() % 3 == 0 && c.entries.len() / 3 <= 255,
            NwkCommandView::CommissioningRequest(c) => CommissioningType::spec_from_raw(c.kind.spec_raw()) == c.kind,
            NwkCommandView::CommissioningResponse(c) => c.status.wf(),
            NwkCommandView::Unknown { id, .. } => NwkCommandId::spec_from_raw(id) == NwkCommandId::Unknown(id),
            _ => true,
        }
    }
}

proof fn lemma_route_request_round_trip(c: RouteRequestView)
    ensures
        spec_decode_route_request(c.spec_encode()) == Ok::<RouteRequestView, CodecError>(c),
{
    let s = c.spec_encode();
    let o = c.options();
    let m = c.many_to_one.spec_bits();
    let b = bit8(c.dst_ieee.is_some());
    assert(m < 4 && b < 2);
    assert((((o >> 3) & 3) == m) && ((o & 0x20 != 0) == (b == 1))) by (bit_vector)
        requires
            m < 4,
            b < 2,
            o == ((m << 3) | (b << 5)) as u8,
    ;
    assert(ManyToOne::spec_from_bits(o >> 3) == c.many_to_one);
    assert(s.subrange(2, 4) =~= u16_bytes(c.dst.0));
    lemma_le16_at(s, 2, c.dst.0);
    let p: int = if c.dst_ieee is Some { 13 } else { 5 };
    if let Some(a) = c.dst_ieee {
        assert(s.subrange(5, 13) =~= u64_bytes(a.0));
        lemma_le64_at(s, 5, a.0);
    }
    assert(s.subrange(p, s.len() as int) =~= c.tlvs);
}

proof fn lemma_route_reply_round_trip(c: RouteReplyView)
    ensures
        spec_decode_route_reply(c.spec_encode()) == Ok::<RouteReplyView, CodecError>(c),
{
    let s = c.spec_encode();
    let o = c.options();
    let a = bit8(c.originator_ieee.is_some());
    let b = bit8(c.responder_ieee.is_some());
    assert(((o & 0x10 != 0) == (a == 1)) && ((o & 0x20 != 0) == (b == 1))) by (bit_vector)
        requires
            a < 2,
            b < 2,
            o == ((a << 4) | (b << 5)) as u8,
    ;
    assert(s.subrange(2, 4) =~= u16_bytes(c.originator.0));
    lemma_le16_at(s, 2, c.originator.0);
    assert(s.subrange(4, 6) =~= u16_bytes(c.responder.0));
    lemma_le16_at(s, 4, c.responder.0);
    let p1: int = if c.originator_ieee is Some { 15 } else { 7 };
    if let Some(x) = c.originator_ieee {
        assert(s.subrange(7, 15) =~= u64_bytes(x.0));
        lemma_le64_at(s, 7, x.0);
    }
    let p2: int = if c.responder_ieee is Some { p1 + 8 } else { p1 };
    if let Some(x) = c.responder_ieee {
        assert(s.subrange(p1, p1 + 8) =~= u64_bytes(x.0));
        lemma_le64_at(s, p1, x.0);
    }
    assert(s.subrange(p2, s.len() as int) =~= c.tlvs);
}

proof fn lemma_route_record_round_trip(r: Seq<u8>)
    requires
        r.len() % 2 == 0,
        r.len() / 2 <= 255,
    ensures
        spec_decode_route_record(spec_route_record_encode(r)) == Ok::<(Seq<u8>, int), CodecError>((r, 1 + r.len() as int)),
{
    let s = spec_route_record_encode(r);
    assert(s[0] as int == r.len() / 2);
    assert(s.subrange(1, 1 + r.len() as int) =~= r);
}

proof fn lemma_link_status_round_trip(c: LinkStatusView)
    requires
        c.entries.len() % 3 == 0,
        c.entries.len() / 3 <= 31,
    ensures
        spec_decode_link_status(c.spec_encode()) == Ok::<(LinkStatusView, int), CodecError>((c, 1 + c.entries.len() as int)),
{
    let s = c.spec_encode();
    let n = (c.entries.len() / 3) as u8;
    let a = bit8(c.first_frame);
    let b = bit8(c.last_frame);
    let o = c.options();
    assert(((o & 0x1F) == n) && ((o & 0x20 != 0) == (a == 1)) && ((o & 0x40 != 0) == (b == 1))) by (bit_vector)
        requires
            n <= 31,
            a < 2,
            b < 2,
            o == (n | (a << 5) | (b << 6)) as u8,
    ;
    assert(s.subrange(1, 1 + c.entries.len() as int) =~= c.entries);
}

proof fn lemma_network_report_round_trip(c: NetworkReportView)
    requires
        c.report_id < 8,
        c.report_id == REPORT_PAN_ID_CONFLICT ==> c.info.len() % 2 == 0 && c.info.len() / 2 <= 0x1F,
    ensures
        spec_decode_network_report(c.spec_encode()) == Ok::<(NetworkReportView, int), CodecError>((c, 9 + c.info.len() as int)),
{
    let s = c.spec_encode();
    let n = c.count() as u8;
    let id = c.report_id;
    let o = s[0];
    assert(o == ((n | ((id << 5) as u8)) as u8));
    assert(((o & 0x1F) == n) && ((o >> 5) == id)) by (bit_vector)
        requires
            n <= 0x1F,
            id < 8,
            o == ((n | ((id << 5) as u8)) as u8),
    ;
    assert(s.subrange(1, 9) =~= u64_bytes(c.epid.0));
    lemma_le64_at(s, 1, c.epid.0);
    assert(s.subrange(9, 9 + c.info.len() as int) =~= c.info);
    assert(s.subrange(9, s.len() as int) =~= c.info);
}

proof fn lemma_network_update_round_trip(c: NetworkUpdate)
    requires
        c.update_id == UPDATE_PAN_ID,
    ensures
        spec_decode_network_update(c.spec_encode()) == Ok::<NetworkUpdate, CodecError>(c),
{
    let s = c.spec_encode();
    let u = c.update_id;
    let o = s[0];
    assert(((o >> 5) == 0) && ((o & 0x1F) == 1)) by (bit_vector)
        requires
            u == 0,
            o == (1u8 | ((u << 5) as u8)) as u8,
    ;
    assert(s.subrange(1, 9) =~= u64_bytes(c.epid.0));
    lemma_le64_at(s, 1, c.epid.0);
    assert(s.subrange(10, 12) =~= u16_bytes(c.new_pan_id.0));
    lemma_le16_at(s, 10, c.new_pan_id.0);
}

proof fn lemma_link_power_delta_round_trip(c: LinkPowerDeltaView)
    requires
        c.entries.len() % 3 == 0,
        c.entries.len() / 3 <= 255,
    ensures
        spec_decode_link_power_delta(c.spec_encode()) == Ok::<(LinkPowerDeltaView, int), CodecError>(
            (c, 2 + c.entries.len() as int),
        ),
{
    let s = c.spec_encode();
    let k = c.kind.spec_bits();
    assert((k & 3) == k) by (bit_vector)
        requires
            k < 4,
    ;
    assert(s.subrange(2, 2 + c.entries.len() as int) =~= c.entries);
}

/// Every well-formed NWK command encodes, and its encoding decodes back
/// to the same command, occupying all of it.
#[verifier::spinoff_prover]
#[verifier::rlimit(40)]
pub proof fn lemma_nwk_command_round_trip(c: NwkCommandView)
    requires
        c.wf(),
    ensures
        c.spec_encode() is Ok,
        spec_decode_nwk_command(c.spec_encode().unwrap()) == Ok::<(NwkCommandView, int), CodecError>(
            (c, c.spec_encode().unwrap().len() as int),
        ),
{
    let body = c.spec_encode_body().unwrap();
    let s = seq![c.spec_id().spec_raw()] + body;
    assert(s.subrange(1, s.len() as int) =~= body);
    match c {
        NwkCommandView::RouteRequest(x) => lemma_route_request_round_trip(x),
        NwkCommandView::RouteReply(x) => lemma_route_reply_round_trip(x),
        NwkCommandView::NetworkStatus(x) => {
            assert(body.subrange(1, 3) =~= u16_bytes(x.dst.0));
            lemma_le16_at(body, 1, x.dst.0);
            assert(body.subrange(3, body.len() as int) =~= x.tlvs);
        },
        NwkCommandView::Leave(x) => lemma_leave_round_trip(x),
        NwkCommandView::RouteRecord(r) => lemma_route_record_round_trip(r),
        NwkCommandView::RejoinRequest(x) => {},
        NwkCommandView::RejoinResponse(x) => {
            assert(body.subrange(0, 2) =~= u16_bytes(x.address.0));
            lemma_le16_at(body, 0, x.address.0);
        },
        NwkCommandView::LinkStatus(x) => lemma_link_status_round_trip(x),
        NwkCommandView::NetworkReport(x) => lemma_network_report_round_trip(x),
        NwkCommandView::NetworkUpdate(x) => lemma_network_update_round_trip(x),
        NwkCommandView::EndDeviceTimeoutRequest(x) => {},
        NwkCommandView::EndDeviceTimeoutResponse(x) => {},
        NwkCommandView::LinkPowerDelta(x) => lemma_link_power_delta_round_trip(x),
        NwkCommandView::CommissioningRequest(x) => {
            assert(body.subrange(2, body.len() as int) =~= x.tlvs);
        },
        NwkCommandView::CommissioningResponse(x) => {
            assert(body.subrange(0, 2) =~= u16_bytes(x.address.0));
            lemma_le16_at(body, 0, x.address.0);
            assert(body.subrange(3, body.len() as int) =~= x.tlvs);
        },
        NwkCommandView::Unknown { id, payload } => {},
    }
}

/// The NWK command identifiers take their Zigbee wire values, Route
/// Request 0x01 up to Commissioning Response 0x0F.
pub proof fn lemma_nwk_command_id_wire_values()
    ensures
        NwkCommandId::RouteRequest.spec_raw() == 0x01,
        NwkCommandId::RouteReply.spec_raw() == 0x02,
        NwkCommandId::NetworkStatus.spec_raw() == 0x03,
        NwkCommandId::Leave.spec_raw() == 0x04,
        NwkCommandId::RouteRecord.spec_raw() == 0x05,
        NwkCommandId::RejoinRequest.spec_raw() == 0x06,
        NwkCommandId::RejoinResponse.spec_raw() == 0x07,
        NwkCommandId::LinkStatus.spec_raw() == 0x08,
        NwkCommandId::NetworkReport.spec_raw() == 0x09,
        NwkCommandId::NetworkUpdate.spec_raw() == 0x0A,
        NwkCommandId::EndDeviceTimeoutRequest.spec_raw() == 0x0B,
        NwkCommandId::EndDeviceTimeoutResponse.spec_raw() == 0x0C,
        NwkCommandId::LinkPowerDelta.spec_raw() == 0x0D,
        NwkCommandId::CommissioningRequest.spec_raw() == 0x0E,
        NwkCommandId::CommissioningResponse.spec_raw() == 0x0F,
        forall|v: u8| (v == 0 || v > 0x0F) ==> NwkCommandId::spec_from_raw(v) == NwkCommandId::Unknown(v),
        forall|v: u8| 1 <= v <= 0x0F ==> NwkCommandId::spec_from_raw(v).spec_raw() == v,
{
}

/// The Network Status codes take their Zigbee wire values, and the other
/// small enumerations of the command bodies theirs.
pub proof fn lemma_nwk_status_code_wire_values()
    ensures
        NetworkStatusCode::LegacyNoRoute.spec_raw() == 0x00,
        NetworkStatusCode::LegacyLinkFailure.spec_raw() == 0x01,
        NetworkStatusCode::LinkFailure.spec_raw() == 0x02,
        NetworkStatusCode::ParentLinkFailure.spec_raw() == 0x09,
        NetworkStatusCode::SourceRouteFailure.spec_raw() == 0x0B,
        NetworkStatusCode::ManyToOneRouteFailure.spec_raw() == 0x0C,
        NetworkStatusCode::AddressConflict.spec_raw() == 0x0D,
        NetworkStatusCode::PanIdUpdate.spec_raw() == 0x0F,
        NetworkStatusCode::NetworkAddressUpdate.spec_raw() == 0x10,
        NetworkStatusCode::UnknownCommand.spec_raw() == 0x13,
        NetworkStatusCode::PanIdConflictReport.spec_raw() == 0x14,
        TimeoutResponseStatus::Success.spec_raw() == 0,
        TimeoutResponseStatus::IncorrectValue.spec_raw() == 1,
        TimeoutResponseStatus::UnsupportedFeature.spec_raw() == 2,
        LinkPowerDeltaType::Notification.spec_bits() == 0,
        LinkPowerDeltaType::Request.spec_bits() == 1,
        LinkPowerDeltaType::Response.spec_bits() == 2,
        CommissioningType::InitialJoin.spec_raw() == 0,
        CommissioningType::Rejoin.spec_raw() == 1,
        CommissioningType::EstablishTrustedLink.spec_raw() == 2,
        ManyToOne::No.spec_bits() == 0,
        ManyToOne::WithRouteCache.spec_bits() == 1,
        ManyToOne::NoRouteCache.spec_bits() == 2,
{
}

/// An encoded NWK command starts with its identifier octet.
pub proof fn lemma_nwk_command_first_octet(c: NwkCommandView)
    ensures
        c.spec_encode() matches Ok(s) ==> s.len() >= 1 && s[0] == (match c {
            NwkCommandView::RouteRequest(_) => 0x01u8,
            NwkCommandView::RouteReply(_) => 0x02u8,
            NwkCommandView::NetworkStatus(_) => 0x03u8,
            NwkCommandView::Leave(_) => 0x04u8,
            NwkCommandView::RouteRecord(_) => 0x05u8,
            NwkCommandView::RejoinRequest(_) => 0x06u8,
            NwkCommandView::RejoinResponse(_) => 0x07u8,
            NwkCommandView::LinkStatus(_) => 0x08u8,
            NwkCommandView::NetworkReport(_) => 0x09u8,
            NwkCommandView::NetworkUpdate(_) => 0x0Au8,
            NwkCommandView::EndDeviceTimeoutRequest(_) => 0x0Bu8,
            NwkCommandView::EndDeviceTimeoutResponse(_) => 0x0Cu8,
            NwkCommandView::LinkPowerDelta(_) => 0x0Du8,
            NwkCommandView::CommissioningRequest(_) => 0x0Eu8,
            NwkCommandView::CommissioningResponse(_) => 0x0Fu8,
            NwkCommandView::Unknown { id, .. } => id,
        }),
{
}

/// A Route Request body: the options octet (many-to-one code in bits 3-4,
/// bit 5 when the destination IEEE address follows), the identifier, the
/// destination (least significant octet first), then the path cost.
pub proof fn lemma_route_request_layout(v: RouteRequestView)
    ensures
        ({
            let s = v.spec_encode();
            &&& s.len() >= 5
            &&& (s[0] >> 3u8) & 0x03 == (match v.many_to_one {
                ManyToOne::No => 0u8,
                ManyToOne::WithRouteCache => 1u8,
                ManyToOne::NoRouteCache => 2u8,
                ManyToOne::Reserved => 3u8,
            })
            &&& (s[0] & 0x20 != 0) == v.dst_ieee.is_some()
            &&& s[0] & 0xC7 == 0
            &&& s[1] == v.id
            &&& s[2] as int + 256 * (s[3] as int) == v.dst.0 as int
            &&& s[4] == v.path_cost
        }),
{
    let s = v.spec_encode();
    lemma_u16_octets(v.dst.0);
    let m = v.many_to_one.spec_bits();
    let d: u8 = if v.dst_ieee.is_some() { 1 } else { 0 };
    let o = s[0];
    assert(o == ((m << 3) | (d << 5)) as u8);
    lemma_wire_bits(d, 0, 0, m, 0, 0, 0, 0, 0, 0, 0, 0, 0);
}

/// A Network Status body: the status code, then the destination (least
/// significant octet first).
pub proof fn lemma_network_status_layout(v: NetworkStatusView)
    ensures
        ({
            let s = v.spec_encode();
            &&& s.len() >= 3
            &&& s[0] == v.status.spec_raw()
            &&& s[1] as int + 256 * (s[2] as int) == v.dst.0 as int
            &&& s.subrange(3, s.len() as int) == v.tlvs
        }),
{
    let s = v.spec_encode();
    lemma_u16_octets(v.dst.0);
    assert(s.subrange(3, s.len() as int) =~= v.tlvs);
}

/// A Leave body is one octet: rejoin in bit 5, request in bit 6, remove
/// children in bit 7, the rest clear.
pub proof fn lemma_leave_layout(l: Leave)
    ensures
        (l.spec_octet() & 0x20 != 0) == l.rejoin,
        (l.spec_octet() & 0x40 != 0) == l.request,
        (l.spec_octet() & 0x80 != 0) == l.remove_children,
        l.spec_octet() & 0x1F == 0,
{
    let a: u8 = if l.rejoin { 1 } else { 0 };
    let b: u8 = if l.request { 1 } else { 0 };
    let c: u8 = if l.remove_children { 1 } else { 0 };
    let o = l.spec_octet();
    assert(o == ((a << 5) | (b << 6) | (c << 7)) as u8);
    lemma_wire_bits(a, b, c, 0, 0, 0, 0, 0, 0, 0, 0, 0, 0);
}

/// A Rejoin Response body: the network address (least significant octet
/// first), then the status.
pub proof fn lemma_rejoin_response_layout(v: RejoinResponse)
    ensures
        ({
            let s = v.spec_encode();
            &&& s.len() == 3
            &&& s[0] as int + 256 * (s[1] as int) == v.address.0 as int
            &&& s[2] == v.status.spec_raw()
        }),
{
    lemma_u16_octets(v.address.0);
}

/// A Link Status body: the options octet (entry count in bits 0-4, first
/// frame in bit 5, last frame in bit 6), then the entries.
pub proof fn lemma_link_status_layout(v: LinkStatusView)
    requires
        v.entries.len() / 3 <= 31,
    ensures
        ({
            let s = v.spec_encode();
            &&& s.len() == 1 + v.entries.len()
            &&& s[0] & 0x1F == v.entries.len() / 3
            &&& (s[0] & 0x20 != 0) == v.first_frame
            &&& (s[0] & 0x40 != 0) == v.last_frame
            &&& s[0] & 0x80 == 0
            &&& s.subrange(1, s.len() as int) == v.entries
        }),
{
    let s = v.spec_encode();
    let n = (v.entries.len() / 3) as u8;
    let a: u8 = if v.first_frame { 1 } else { 0 };
    let b: u8 = if v.last_frame { 1 } else { 0 };
    let o = s[0];
    assert(o == (n | (a << 5) | (b << 6)) as u8);
    lemma_wire_bits(a, b, 0, n, 0, 0, 0, 0, 0, 0, 0, 0, 0);
    assert(s.subrange(1, s.len() as int) =~= v.entries);
}

/// A Network Update body: the options octet (update information count 1
/// in bits 0-4, the update identifier in bits 5-7), the extended PAN id,
/// the new `nwkUpdateId`, then the new PAN identifier (least significant
/// octet first).
pub proof fn lemma_network_update_layout(v: NetworkUpdate)
    requires
        v.update_id < 8,
    ensures
        ({
            let s = v.spec_encode();
            &&& s.len() == 12
            &&& s[0] & 0x1F == 1
            &&& s[0] >> 5u8 == v.update_id
            &&& s[9] == v.nwk_update_id
            &&& s[10] as int + 256 * (s[11] as int) == v.new_pan_id.0 as int
        }),
{
    let s = v.spec_encode();
    let u = v.update_id;
    let o = s[0];
    assert(o == (1u8 | ((u << 5) as u8)) as u8);
    lemma_wire_bits(0, 0, 0, 1, u, 0, 0, 0, 0, 0, 0, 0, 0);
    lemma_u16_octets(v.new_pan_id.0);
}

/// A Network Report body: the options octet (conflicting PAN count in
/// bits 0-4, the report identifier in bits 5-7), then the extended PAN
/// id and the report information.
pub proof fn lemma_network_report_layout(v: NetworkReportView)
    requires
        v.report_id < 8,
        v.count() <= 0x1F,
    ensures
        ({
            let s = v.spec_encode();
            &&& s.len() == 9 + v.info.len()
            &&& s[0] & 0x1F == v.count()
            &&& s[0] >> 5u8 == v.report_id
            &&& s.subrange(9, s.len() as int) == v.info
        }),
{
    let s = v.spec_encode();
    let n = v.count() as u8;
    let u = v.report_id;
    let o = s[0];
    assert(o == ((n | ((u << 5) as u8)) as u8));
    lemma_wire_bits(0, 0, 0, n, u, 0, 0, 0, 0, 0, 0, 0, 0);
    assert(s.subrange(9, s.len() as int) =~= v.info);
}

/// The bodies of the fixed-layout commands: an End Device Timeout Request
/// is the timeout index then the configuration; a Response the status
/// then the parent information; a Rejoin Request the capability; a Link
/// Power Delta starts with its type then the entry count; a Route Record
/// is the relay count then the relays; a Commissioning
/// Request starts with its type then the capability; a Commissioning
/// Response with the address (least significant octet first) then the
/// status.
pub proof fn lemma_fixed_command_bodies(c: NwkCommandView)
    ensures
        c.spec_encode_body() matches Ok(b) ==> match c {
            NwkCommandView::EndDeviceTimeoutRequest(r) => b == seq![r.timeout.0, r.configuration],
            NwkCommandView::EndDeviceTimeoutResponse(r) => b == seq![r.status.spec_raw(), r.parent_info.0],
            NwkCommandView::RejoinRequest(r) => b == seq![r.capability.0],
            NwkCommandView::RouteRecord(relays) => b.len() == 1 + relays.len() && b[0] == relays.len() / 2
                && b.subrange(1, b.len() as int) == relays,
            NwkCommandView::LinkPowerDelta(r) => b.len() >= 2 && b[0] == r.kind.spec_bits() && b[1] == r.entries.len() / 3,
            NwkCommandView::CommissioningRequest(r) => b.len() >= 2 && b[0] == r.kind.spec_raw() && b[1] == r.capability.0,
            NwkCommandView::CommissioningResponse(r) => b.len() >= 3 && b[0] as int + 256 * (b[1] as int)
                == r.address.0 as int && b[2] == r.status.spec_raw(),
            _ => true,
        },
{
    match c {
        NwkCommandView::CommissioningResponse(r) => lemma_u16_octets(r.address.0),
        NwkCommandView::RouteRecord(relays) => {
            let b = spec_route_record_encode(relays);
            assert(b.subrange(1, b.len() as int) =~= relays);
        },
        _ => {},
    }
}

/// A link status entry is the neighbor's address (least significant
/// octet first), then an octet with the incoming cost in bits 0-2 and the
/// outgoing cost in bits 4-6.
pub proof fn lemma_link_status_entry_octets(s: Seq<u8>, pos: int)
    requires
        0 <= pos,
        pos + 3 <= s.len(),
    ensures
        spec_link_status_entry(s, pos).address.0 as int == s[pos] as int + 256 * (s[pos + 1] as int),
        spec_link_status_entry(s, pos).incoming_cost as int == s[pos + 2] as int % 8,
        spec_link_status_entry(s, pos).outgoing_cost as int == (s[pos + 2] as int / 16) % 8,
{
    lemma_le16_octets(s, pos);
    let c = s[pos + 2];
    lemma_wire_bits(0, 0, 0, 0, 0, c, 0, 0, 0, 0, 0, 0, 0);
}

/// A decoded Link Status reads its entry count from bits 0-4 of the first
/// octet, the first frame flag from bit 5 and the last frame flag from bit
/// 6, and takes three octets per entry.
pub proof fn lemma_link_status_decoded_fields(s: Seq<u8>)
    ensures
        spec_decode_link_status(s) matches Ok((v, n)) ==> {
            &&& n == 1 + 3 * (s[0] as int % 32)
            &&& v.entries.len() == 3 * (s[0] as int % 32)
            &&& v.first_frame == ((s[0] as int / 32) % 2 == 1)
            &&& v.last_frame == ((s[0] as int / 64) % 2 == 1)
        },
{
    if s.len() >= 1 {
        let o = s[0];
        lemma_wire_bits(0, 0, 0, 0, 0, o, 0, 0, 0, 0, 0, 0, 0);
    }
}

/// End device timeouts: index 0 is 10 seconds, index 1 two minutes, each
/// further index up to 14 doubles the timeout, and indices above 14 are
/// invalid.
pub proof fn lemma_timeout_index_seconds(n: u8)
    ensures
        TimeoutIndex(0).spec_seconds() == Some(10u32),
        TimeoutIndex(1).spec_seconds() == Some(120u32),
        1 <= n < 14 ==> (TimeoutIndex(n).spec_seconds() is Some && TimeoutIndex((n + 1) as u8).spec_seconds() is Some
            && TimeoutIndex((n + 1) as u8).spec_seconds()->0 == 2 * TimeoutIndex(n).spec_seconds()->0),
        n > 14 ==> TimeoutIndex(n).spec_seconds() is None,
{
    reveal_with_fuel(pow2, 2);
    if 1 <= n < 14 {
        assert(pow2((n + 1) as nat) == 2 * pow2(n as nat));
        lemma_pow2_bound(n as nat);
    }
}

} // verus!
