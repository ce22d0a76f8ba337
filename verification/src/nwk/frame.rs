//! NWK frame format: frame control (2), destination (2), source (2),
//! radius (1), sequence number (1), optional destination and source IEEE
//! addresses (8 each) and an optional source route subframe.
use vstd::prelude::*;
use crate::codec::{
    copy_to_slice, le16, le64, push_bytes, push_u16_le, push_u64_le, push_u8, read_u16_le,
    read_u64_le, read_u8, truncated, u16_bytes, u64_bytes, CodecError, Field,
};
use crate::codec::{lemma_le16_octets, lemma_u16_octets, lemma_wire_bits};
use crate::codec::{lemma_concat_parts, lemma_regroup, lemma_step, lemma_le16_at, lemma_le64_at, lemma_u16_bytes_of_le16, lemma_u64_bytes_of_le64};
use crate::mac::frame::exact;
use crate::types::{ExtendedAddress, ShortAddress};

verus! {

broadcast use vstd::slice::group_slice_axioms;

/// `nwkcProtocolVersion` for Zigbee PRO.
pub const PROTOCOL_VERSION: u8 = 0x02;
/// Protocol version used by Green Power device frames.
pub const PROTOCOL_VERSION_GREEN_POWER: u8 = 0x03;
/// Maximum number of relays in a source route subframe.
pub const MAX_SOURCE_ROUTE_RELAYS: usize = 12;

/// NWK frame type (frame control bits 0–1).
#[derive(Clone, Copy, PartialEq, Eq, Hash, Debug, Structural)]
pub enum FrameType {
    /// Data frame.
    Data,
    /// NWK command frame.
    Command,
    /// Reserved value 2.
    Reserved,
    /// Inter-PAN (stub NWK header).
    InterPan,
}

impl FrameType {
    /// The frame type the low two bits of `b` denote.
    pub open spec fn spec_from_bits(b: u16) -> FrameType {
        let v = b & 0x3;
        if v == 0 {
            FrameType::Data
        } else if v == 1 {
            FrameType::Command
        } else if v == 2 {
            FrameType::Reserved
        } else {
            FrameType::InterPan
        }
    }

    /// The two-bit code of a frame type.
    pub open spec fn spec_bits(self) -> u16 {
        match self {
            FrameType::Data => 0,
            FrameType::Command => 1,
            FrameType::Reserved => 2,
            FrameType::InterPan => 3,
        }
    }

    fn from_bits(b: u16) -> (t: FrameType)
        ensures
            t == Self::spec_from_bits(b),
    {
        let v = b & 0x3;
        if v == 0 {
            FrameType::Data
        } else if v == 1 {
            FrameType::Command
        } else if v == 2 {
            FrameType::Reserved
        } else {
            FrameType::InterPan
        }
    }

    fn bits(self) -> (b: u16)
        ensures
            b == self.spec_bits(),
    {
        match self {
            FrameType::Data => 0,
            FrameType::Command => 1,
            FrameType::Reserved => 2,
            FrameType::InterPan => 3,
        }
    }
}

/// Discover route sub-field.
#[derive(Clone, Copy, PartialEq, Eq, Hash, Debug, Structural)]
pub enum DiscoverRoute {
    /// Suppress route discovery.
    Suppress,
    /// Enable route discovery.
    Enable,
    /// Reserved values 2 and 3.
    Reserved(u8),
}

impl DiscoverRoute {
    /// The sub-field value the low two bits of `b` denote.
    pub open spec fn spec_from_bits(b: u16) -> DiscoverRoute {
        let v = b & 0x3;
        if v == 0 {
            DiscoverRoute::Suppress
        } else if v == 1 {
            DiscoverRoute::Enable
        } else {
            DiscoverRoute::Reserved(v as u8)
        }
    }

    /// The two-bit code of a sub-field value.
    pub open spec fn spec_bits(self) -> u16 {
        match self {
            DiscoverRoute::Suppress => 0,
            DiscoverRoute::Enable => 1,
            DiscoverRoute::Reserved(v) => (v & 0x3) as u16,
        }
    }

    fn from_bits(b: u16) -> (d: DiscoverRoute)
        ensures
            d == Self::spec_from_bits(b),
    {
        let v = b & 0x3;
        if v == 0 {
            DiscoverRoute::Suppress
        } else if v == 1 {
            DiscoverRoute::Enable
        } else {
            DiscoverRoute::Reserved(v as u8)
        }
    }

    fn bits(self) -> (b: u16)
        ensures
            b == self.spec_bits(),
            b < 4,
    {
        match self {
            DiscoverRoute::Suppress => 0,
            DiscoverRoute::Enable => 1,
            DiscoverRoute::Reserved(v) => {
                assert(v & 0x3 < 4) by (bit_vector);
                (v & 0x3) as u16
            },
        }
    }
}

/// Multicast flag (deprecated).
pub const FC_MULTICAST: u16 = 0x0100;
/// Security flag.
pub const FC_SECURITY: u16 = 0x0200;
/// Source route subframe present.
pub const FC_SOURCE_ROUTE: u16 = 0x0400;
/// Destination IEEE address present.
pub const FC_DST_IEEE: u16 = 0x0800;
/// Source IEEE address present.
pub const FC_SRC_IEEE: u16 = 0x1000;
/// End device initiator flag.
pub const FC_END_DEVICE_INITIATOR: u16 = 0x2000;
/// Reserved bits 14–15.
pub const FC_RESERVED: u16 = 0xC000;

/// `v` with `bit` set or cleared.
pub open spec fn spec_with_bit(v: u16, bit: u16, on: bool) -> u16 {
    if on {
        v | bit
    } else {
        v & !bit
    }
}

/// The 16-bit NWK frame control field.
#[derive(Clone, Copy, PartialEq, Eq, Hash, Default, Debug, Structural)]
pub struct FrameControl(pub u16);

impl FrameControl {
    /// Whether `bit` is set.
    pub open spec fn flag(self, bit: u16) -> bool {
        self.0 & bit != 0
    }

    /// Builds a frame control for `frame_type` with protocol version 2 and
    /// all flags clear.
    pub fn new(frame_type: FrameType) -> (fc: FrameControl)
        ensures
            fc.0 == frame_type.spec_bits() | 0x0008,
    {
        let pv: u16 = PROTOCOL_VERSION as u16;
        assert(pv << 2 == 8) by (bit_vector)
            requires
                pv == 2,
        ;
        FrameControl(frame_type.bits() | (pv << 2))
    }

    /// Frame type.
    pub fn frame_type(self) -> (t: FrameType)
        ensures
            t == FrameType::spec_from_bits(self.0),
    {
        FrameType::from_bits(self.0)
    }

    /// Protocol version (4 bits).
    pub fn protocol_version(self) -> (v: u8)
        ensures
            v == (self.0 >> 2) & 0xF,
    {
        let raw = self.0;
        assert((raw >> 2) & 0xF < 16) by (bit_vector);
        ((raw >> 2) & 0xF) as u8
    }

    /// Discover route sub-field.
    pub fn discover_route(self) -> (d: DiscoverRoute)
        ensures
            d == DiscoverRoute::spec_from_bits(self.0 >> 6),
    {
        DiscoverRoute::from_bits(self.0 >> 6)
    }

    /// Deprecated multicast flag.
    pub fn multicast(self) -> (b: bool)
        ensures
            b == self.flag(FC_MULTICAST),
    {
        self.0 & FC_MULTICAST != 0
    }

    /// Security sub-field.
    pub fn security(self) -> (b: bool)
        ensures
            b == self.flag(FC_SECURITY),
    {
        self.0 & FC_SECURITY != 0
    }

    /// Source route subframe present.
    pub fn source_route(self) -> (b: bool)
        ensures
            b == self.flag(FC_SOURCE_ROUTE),
    {
        self.0 & FC_SOURCE_ROUTE != 0
    }

    /// Destination IEEE address present.
    pub fn dst_ieee(self) -> (b: bool)
        ensures
            b == self.flag(FC_DST_IEEE),
    {
        self.0 & FC_DST_IEEE != 0
    }

    /// Source IEEE address present.
    pub fn src_ieee(self) -> (b: bool)
        ensures
            b == self.flag(FC_SRC_IEEE),
    {
        self.0 & FC_SRC_IEEE != 0
    }

    /// End device initiator flag.
    pub fn end_device_initiator(self) -> (b: bool)
        ensures
            b == self.flag(FC_END_DEVICE_INITIATOR),
    {
        self.0 & FC_END_DEVICE_INITIATOR != 0
    }

    /// True when reserved bits 14–15 are zero.
    pub fn reserved_clear(self) -> (b: bool)
        ensures
            b == (self.0 & FC_RESERVED == 0),
    {
        self.0 & FC_RESERVED == 0
    }

    /// Sets the discover route sub-field.
    pub fn with_discover_route(self, d: DiscoverRoute) -> (fc: FrameControl)
        ensures
            fc.0 == (self.0 & !0x00C0u16) | (d.spec_bits() << 6),
    {
        FrameControl((self.0 & !0x00C0u16) | (d.bits() << 6))
    }

    /// Sets the security bit.
    pub fn with_security(self, v: bool) -> (fc: FrameControl)
        ensures
            fc.0 == spec_with_bit(self.0, FC_SECURITY, v),
    {
        self.with_bit(FC_SECURITY, v)
    }

    /// Sets the end device initiator bit.
    pub fn with_end_device_initiator(self, v: bool) -> (fc: FrameControl)
        ensures
            fc.0 == spec_with_bit(self.0, FC_END_DEVICE_INITIATOR, v),
    {
        self.with_bit(FC_END_DEVICE_INITIATOR, v)
    }

    fn with_bit(self, bit: u16, v: bool) -> (fc: FrameControl)
        ensures
            fc.0 == spec_with_bit(self.0, bit, v),
    {
        if v {
            FrameControl(self.0 | bit)
        } else {
            FrameControl(self.0 & !bit)
        }
    }
}

/// Setting the discover route sub-field is read back and leaves the
/// frame type, protocol version and flags as they were.
pub proof fn lemma_with_discover_route(v: u16, d: DiscoverRoute)
    requires
        !(d matches DiscoverRoute::Reserved(x) && x & 0x3 < 2),
    ensures
        DiscoverRoute::spec_from_bits(((v & !0x00C0u16) | (d.spec_bits() << 6)) >> 6) == (match d {
            DiscoverRoute::Reserved(x) => DiscoverRoute::Reserved(x & 0x3),
            _ => d,
        }),
        ((v & !0x00C0u16) | (d.spec_bits() << 6)) & 0xFF3F == v & 0xFF3F,
{
    let b = d.spec_bits();
    assert(b < 4) by {
        if let DiscoverRoute::Reserved(x) = d {
            assert(x & 0x3 < 4) by (bit_vector);
        }
    }
    assert(((((v & !0x00C0u16) | (b << 6)) >> 6) & 0x3) == b && (((v & !0x00C0u16) | (b << 6))
        & 0xFF3F) == v & 0xFF3F) by (bit_vector)
        requires
            b < 4,
    ;
    if let DiscoverRoute::Reserved(x) = d {
        assert(((x & 0x3) as u16) as u8 == x & 0x3) by (bit_vector);
    }
}

/// Source route subframe: relay list ordered nearest the destination
/// first, plus the index of the next relay.
#[derive(Clone, Copy, PartialEq, Eq, Debug)]
pub struct SourceRoute<'a> {
    /// Index of the next relay in the relay list.
    pub relay_index: u8,
    /// Raw relay list octets (2 per relay, little-endian).
    relays: &'a [u8],
}

/// The mathematical content of a [`SourceRoute`].
pub struct SourceRouteView {
    /// Index of the next relay.
    pub relay_index: u8,
    /// Relay list octets.
    pub relays: Seq<u8>,
}

impl<'a> View for SourceRoute<'a> {
    type V = SourceRouteView;

    closed spec fn view(&self) -> SourceRouteView {
        SourceRouteView { relay_index: self.relay_index, relays: self.relays@ }
    }
}

impl<'a> SourceRoute<'a> {
    /// Index of the next relay.
    pub fn next_relay_index(&self) -> (i: u8)
        ensures
            i == self@.relay_index,
    {
        self.relay_index
    }

    /// Number of relays.
    pub fn relay_count(&self) -> (n: usize)
        ensures
            n == self@.relays.len() / 2,
    {
        self.relays.len() / 2
    }

    /// Relay address at `index`.
    pub fn relay(&self, index: usize) -> (r: Option<ShortAddress>)
        ensures
            r == (if 2 * index + 2 <= self@.relays.len() {
                Some(ShortAddress(le16(self@.relays, 2 * index)))
            } else {
                None
            }),
    {
        let len = self.relays.len();
        if index > (usize::MAX - 2) / 2 {
            return None;
        }
        let off = index * 2;
        if off + 2 > self.relays.len() {
            return None;
        }
        Some(ShortAddress(((self.relays[off] as u16) | ((self.relays[off + 1] as u16) << 8)) as u16))
    }

    /// The relays nearest-destination first.
    pub fn relays(&self) -> (v: Vec<ShortAddress>)
        ensures
            v@.len() == self@.relays.len() / 2,
            forall|i: int| 0 <= i < v@.len() ==> v@[i] == ShortAddress(le16(self@.relays, 2 * i)),
    {
        let mut v: Vec<ShortAddress> = Vec::new();
        let len = self.relays.len();
        let n = self.relay_count();
        let mut i: usize = 0;
        while i < n
            invariant
                n == self@.relays.len() / 2,
                len == self@.relays.len(),
                n * 2 <= len,
                i <= n,
                v@.len() == i,
                forall|j: int| 0 <= j < i ==> v@[j] == ShortAddress(le16(self.relays@, 2 * j)),
            decreases n - i,
        {
            let k = 2 * i;
            let a = ShortAddress(((self.relays[k] as u16) | ((self.relays[k + 1] as u16) << 8)) as u16);
            v.push(a);
            i = i + 1;
        }
        v
    }

    /// The relay the frame must be forwarded to next.
    pub fn next_relay(&self) -> (r: Option<ShortAddress>)
        ensures
            r == (if 2 * self@.relay_index + 2 <= self@.relays.len() {
                Some(ShortAddress(le16(self@.relays, 2 * self@.relay_index)))
            } else {
                None
            }),
    {
        self.relay(self.relay_index as usize)
    }

    /// Encoded length including count and index octets.
    pub fn encoded_len(&self) -> (n: usize)
        requires
            self@.relays.len() <= usize::MAX - 2,
        ensures
            n == 2 + self@.relays.len(),
    {
        2 + self.relays.len()
    }
}

/// The parsed NWK header.
#[derive(Clone, Copy, PartialEq, Eq, Debug)]
pub struct Header<'a> {
    /// Frame control.
    pub frame_control: FrameControl,
    /// Destination network address.
    pub dst: ShortAddress,
    /// Source network address.
    pub src: ShortAddress,
    /// Radius.
    pub radius: u8,
    /// Sequence number.
    pub sequence: u8,
    /// Destination IEEE address, when present.
    pub dst_ieee: Option<ExtendedAddress>,
    /// Source IEEE address, when present.
    pub src_ieee: Option<ExtendedAddress>,
    /// Source route subframe, when present.
    pub source_route: Option<SourceRoute<'a>>,
}

/// The mathematical content of a [`Header`].
pub struct HeaderView {
    /// Frame control.
    pub frame_control: FrameControl,
    /// Destination network address.
    pub dst: ShortAddress,
    /// Source network address.
    pub src: ShortAddress,
    /// Radius.
    pub radius: u8,
    /// Sequence number.
    pub sequence: u8,
    /// Destination IEEE address.
    pub dst_ieee: Option<ExtendedAddress>,
    /// Source IEEE address.
    pub src_ieee: Option<ExtendedAddress>,
    /// Source route subframe.
    pub source_route: Option<SourceRouteView>,
}

impl<'a> View for Header<'a> {
    type V = HeaderView;

    open spec fn view(&self) -> HeaderView {
        HeaderView {
            frame_control: self.frame_control,
            dst: self.dst,
            src: self.src,
            radius: self.radius,
            sequence: self.sequence,
            dst_ieee: self.dst_ieee,
            src_ieee: self.src_ieee,
            source_route: match self.source_route {
                Some(sr) => Some(sr@),
                None => None,
            },
        }
    }
}

/// The octets of an optional IEEE address field.
pub open spec fn opt_ieee_bytes(o: Option<ExtendedAddress>) -> Seq<u8> {
    match o {
        Some(a) => u64_bytes(a.0),
        None => Seq::empty(),
    }
}

/// The octets of an optional source route subframe.
pub open spec fn opt_route_bytes(o: Option<SourceRouteView>) -> Seq<u8> {
    match o {
        Some(sr) => seq![(sr.relays.len() / 2) as u8, sr.relay_index] + sr.relays,
        None => Seq::empty(),
    }
}

impl HeaderView {
    /// The presence flags agree with the optional fields.
    pub open spec fn flags_agree(self) -> bool {
        &&& self.frame_control.flag(FC_DST_IEEE) == self.dst_ieee.is_some()
        &&& self.frame_control.flag(FC_SRC_IEEE) == self.src_ieee.is_some()
        &&& self.frame_control.flag(FC_SOURCE_ROUTE) == self.source_route.is_some()
    }

    /// The source route's relay count fits its octet.
    pub open spec fn route_representable(self) -> bool {
        self.source_route matches Some(sr) ==> sr.relays.len() / 2 <= 255
    }

    /// Why this header cannot be encoded, if it cannot.
    pub open spec fn spec_encode_error(self) -> Option<CodecError> {
        if !self.flags_agree() {
            Some(CodecError::InvalidField { field: Field::NwkPresenceFlags, value: self.frame_control.0 as u32 })
        } else if !self.route_representable() {
            Some(CodecError::Unrepresentable { field: Field::RelayCount })
        } else {
            None
        }
    }

    /// The wire octets of a header.
    pub open spec fn spec_encode(self) -> Seq<u8> {
        u16_bytes(self.frame_control.0) + (u16_bytes(self.dst.0) + (u16_bytes(self.src.0) + (seq![self.radius, self.sequence]
            + (opt_ieee_bytes(self.dst_ieee) + (opt_ieee_bytes(self.src_ieee) + opt_route_bytes(self.source_route))))))
    }

    /// A header that decodes back from its own encoding: presence flags
    /// agree, relays are whole addresses and the relay index is in range.
    pub open spec fn wf(self) -> bool {
        &&& self.flags_agree()
        &&& self.source_route matches Some(sr) ==> {
            &&& sr.relays.len() % 2 == 0
            &&& sr.relays.len() / 2 <= 255
            &&& (sr.relay_index < sr.relays.len() / 2 || sr.relays.len() == 0)
        }
    }
}

/// An optional IEEE address at `pos`.
pub open spec fn spec_read_opt_ieee(s: Seq<u8>, pos: int, present: bool) -> Result<(Option<ExtendedAddress>, int), CodecError> {
    if !present {
        Ok((None, pos))
    } else if pos + 8 <= s.len() {
        Ok((Some(ExtendedAddress(le64(s, pos))), pos + 8))
    } else {
        Err(truncated(s, pos, 8))
    }
}

/// An optional source route subframe at `pos`.
pub open spec fn spec_read_opt_route(s: Seq<u8>, pos: int, present: bool) -> Result<(Option<SourceRouteView>, int), CodecError> {
    if !present {
        Ok((None, pos))
    } else if pos + 1 > s.len() {
        Err(truncated(s, pos, 1))
    } else if pos + 2 > s.len() {
        Err(truncated(s, pos + 1, 1))
    } else {
        let count = s[pos] as int;
        let relay_index = s[pos + 1];
        if relay_index >= count && count != 0 {
            Err(CodecError::InvalidField { field: Field::RelayIndex, value: relay_index as u32 })
        } else if pos + 2 + 2 * count > s.len() {
            Err(truncated(s, pos + 2, 2 * count))
        } else {
            Ok((Some(SourceRouteView { relay_index, relays: s.subrange(pos + 2, pos + 2 + 2 * count) }), pos + 2 + 2 * count))
        }
    }
}

/// The fixed eight-octet part of a header.
pub open spec fn spec_decode_fixed(s: Seq<u8>) -> Result<(FrameControl, ShortAddress, ShortAddress, u8, u8), CodecError> {
    if s.len() < 2 {
        Err(truncated(s, 0, 2))
    } else if s.len() < 4 {
        Err(truncated(s, 2, 2))
    } else if s.len() < 6 {
        Err(truncated(s, 4, 2))
    } else if s.len() < 7 {
        Err(truncated(s, 6, 1))
    } else if s.len() < 8 {
        Err(truncated(s, 7, 1))
    } else {
        Ok((FrameControl(le16(s, 0)), ShortAddress(le16(s, 2)), ShortAddress(le16(s, 4)), s[6], s[7]))
    }
}

/// The header at the front of `s` and the octets it occupies.
pub open spec fn spec_decode_header(s: Seq<u8>) -> Result<(HeaderView, int), CodecError> {
    match spec_decode_fixed(s) {
        Err(e) => Err(e),
        Ok((fc, dst, src, radius, sequence)) => match spec_read_opt_ieee(s, 8, fc.flag(FC_DST_IEEE)) {
            Err(e) => Err(e),
            Ok((dst_ieee, p1)) => match spec_read_opt_ieee(s, p1, fc.flag(FC_SRC_IEEE)) {
                Err(e) => Err(e),
                Ok((src_ieee, p2)) => match spec_read_opt_route(s, p2, fc.flag(FC_SOURCE_ROUTE)) {
                    Err(e) => Err(e),
                    Ok((source_route, p3)) => Ok((
                        HeaderView { frame_control: fc, dst, src, radius, sequence, dst_ieee, src_ieee, source_route },
                        p3,
                    )),
                },
            },
        },
    }
}

fn read_opt_ieee(s: &[u8], pos: usize, present: bool) -> (r: Result<(Option<ExtendedAddress>, usize), CodecError>)
    requires
        pos <= s@.len(),
    ensures
        match r {
            Ok((v, p)) => spec_read_opt_ieee(s@, pos as int, present) == Ok::<(Option<ExtendedAddress>, int), CodecError>((v, p as int)) && p <= s@.len(),
            Err(e) => spec_read_opt_ieee(s@, pos as int, present) == Err::<(Option<ExtendedAddress>, int), CodecError>(e),
        },
{
    if !present {
        Ok((None, pos))
    } else {
        let v = match read_u64_le(s, pos) {
            Ok(v) => v,
            Err(e) => return Err(e),
        };
        Ok((Some(ExtendedAddress(v)), pos + 8))
    }
}

impl<'a> Header<'a> {
    /// Builds a header with no optional fields.
    pub fn new(frame_type: FrameType, dst: ShortAddress, src: ShortAddress, radius: u8, sequence: u8) -> (h: Header<'a>)
        ensures
            h.frame_control.0 == frame_type.spec_bits() | 0x0008,
            h.dst == dst,
            h.src == src,
            h.radius == radius,
            h.sequence == sequence,
            h.dst_ieee.is_none() && h.src_ieee.is_none() && h.source_route.is_none(),
    {
        Header {
            frame_control: FrameControl::new(frame_type),
            dst,
            src,
            radius,
            sequence,
            dst_ieee: None,
            src_ieee: None,
            source_route: None,
        }
    }

    /// Adds the source IEEE address.
    pub fn with_src_ieee(self, addr: ExtendedAddress) -> (h: Header<'a>)
        ensures
            h == (Header { src_ieee: Some(addr), frame_control: FrameControl(spec_with_bit(self.frame_control.0, FC_SRC_IEEE, true)), ..self }),
    {
        let mut h = self;
        h.src_ieee = Some(addr);
        h.frame_control = h.frame_control.with_bit(FC_SRC_IEEE, true);
        h
    }

    /// Adds the destination IEEE address.
    pub fn with_dst_ieee(self, addr: ExtendedAddress) -> (h: Header<'a>)
        ensures
            h == (Header { dst_ieee: Some(addr), frame_control: FrameControl(spec_with_bit(self.frame_control.0, FC_DST_IEEE, true)), ..self }),
    {
        let mut h = self;
        h.dst_ieee = Some(addr);
        h.frame_control = h.frame_control.with_bit(FC_DST_IEEE, true);
        h
    }

    /// Adds a source route subframe: `relays` is the raw little-endian
    /// relay list nearest-destination first; `relay_index` is usually
    /// `count - 1`.
    pub fn with_source_route(self, relay_index: u8, relays: &'a [u8]) -> (h: Header<'a>)
        ensures
            h.source_route matches Some(sr) && sr@ == (SourceRouteView { relay_index, relays: relays@ }),
            h.frame_control == FrameControl(spec_with_bit(self.frame_control.0, FC_SOURCE_ROUTE, true)),
            h.dst == self.dst && h.src == self.src && h.radius == self.radius && h.sequence == self.sequence,
            h.dst_ieee == self.dst_ieee && h.src_ieee == self.src_ieee,
    {
        let mut h = self;
        h.source_route = Some(SourceRoute { relay_index, relays });
        h.frame_control = h.frame_control.with_bit(FC_SOURCE_ROUTE, true);
        h
    }

    /// Sets the security bit.
    pub fn secured(self, v: bool) -> (h: Header<'a>)
        ensures
            h == (Header { frame_control: FrameControl(spec_with_bit(self.frame_control.0, FC_SECURITY, v)), ..self }),
    {
        let mut h = self;
        h.frame_control = h.frame_control.with_security(v);
        h
    }

    /// Sets the discover route sub-field.
    pub fn with_discover_route(self, d: DiscoverRoute) -> (h: Header<'a>)
        ensures
            h == (Header { frame_control: FrameControl((self.frame_control.0 & !0x00C0u16) | (d.spec_bits() << 6)), ..self }),
    {
        let mut h = self;
        h.frame_control = h.frame_control.with_discover_route(d);
        h
    }

    /// Sets the end device initiator bit.
    pub fn with_end_device_initiator(self, v: bool) -> (h: Header<'a>)
        ensures
            h == (Header { frame_control: FrameControl(spec_with_bit(self.frame_control.0, FC_END_DEVICE_INITIATOR, v)), ..self }),
    {
        let mut h = self;
        h.frame_control = h.frame_control.with_end_device_initiator(v);
        h
    }

    /// True for broadcast destinations.
    pub fn is_broadcast(&self) -> (b: bool)
        ensures
            b == (self.dst.0 >= 0xFFF8),
    {
        self.dst.is_broadcast()
    }

    /// Serialised header length.
    pub fn encoded_len(&self) -> (n: usize)
        requires
            self.source_route matches Some(sr) ==> sr@.relays.len() <= usize::MAX - 32,
        ensures
            n == self@.spec_encode().len(),
    {
        let d: usize = if self.dst_ieee.is_some() { 8 } else { 0 };
        let s: usize = if self.src_ieee.is_some() { 8 } else { 0 };
        let r: usize = match &self.source_route {
            Some(sr) => sr.encoded_len(),
            None => 0,
        };
        8 + d + s + r
    }

    /// Appends the header's octets to `out`; fails when the presence flags
    /// disagree with the optional fields or the relay count does not fit.
    #[verifier::rlimit(30)]
    pub fn encode(&self, out: &mut Vec<u8>) -> (r: Result<(), CodecError>)
        ensures
            match self@.spec_encode_error() {
                Some(e) => r == Err::<(), CodecError>(e) && final(out)@ == old(out)@,
                None => r is Ok && final(out)@ == old(out)@ + self@.spec_encode(),
            },
    {
        let fc = self.frame_control;
        if fc.dst_ieee() != self.dst_ieee.is_some() || fc.src_ieee() != self.src_ieee.is_some()
            || fc.source_route() != self.source_route.is_some() {
            return Err(CodecError::InvalidField { field: Field::NwkPresenceFlags, value: fc.0 as u32 });
        }
        if let Some(sr) = &self.source_route {
            if sr.relay_count() > 255 {
                return Err(CodecError::Unrepresentable { field: Field::RelayCount });
            }
        }
        push_u16_le(out, fc.0);
        push_u16_le(out, self.dst.0);
        push_u16_le(out, self.src.0);
        push_u8(out, self.radius);
        push_u8(out, self.sequence);
        let ghost o1 = out@;
        if let Some(a) = self.dst_ieee {
            push_u64_le(out, a.0);
        }
        assert(out@ =~= o1 + opt_ieee_bytes(self.dst_ieee));
        let ghost o2 = out@;
        if let Some(a) = self.src_ieee {
            push_u64_le(out, a.0);
        }
        assert(out@ =~= o2 + opt_ieee_bytes(self.src_ieee));
        let ghost o3 = out@;
        if let Some(sr) = &self.source_route {
            push_u8(out, sr.relay_count() as u8);
            push_u8(out, sr.relay_index);
            push_bytes(out, sr.relays);
        }
        assert(out@ =~= o3 + opt_route_bytes(self@.source_route));
        assert(out@ =~= old(out)@ + self@.spec_encode());
        Ok(())
    }

    /// Writes the header into the front of `buf`, returning its length.
    pub fn encode_to_slice(&self, buf: &mut [u8]) -> (r: Result<usize, CodecError>)
        ensures
            match self@.spec_encode_error() {
                Some(e) => r == Err::<usize, CodecError>(e),
                None => {
                    let enc = self@.spec_encode();
                    &&& enc.len() <= old(buf)@.len() ==> r == Ok::<usize, CodecError>(enc.len() as usize)
                        && final(buf)@.subrange(0, enc.len() as int) == enc
                    &&& enc.len() > old(buf)@.len() ==> r == Err::<usize, CodecError>(CodecError::BufferTooSmall {
                        needed: enc.len() as usize,
                        available: old(buf)@.len() as usize,
                    })
                },
            },
    {
        let mut out: Vec<u8> = Vec::new();
        match self.encode(&mut out) {
            Ok(()) => {},
            Err(e) => return Err(e),
        }
        assert(out@ =~= self@.spec_encode());
        copy_to_slice(&out, buf)
    }

    /// Decodes a header from the start of `bytes`, returning it with the
    /// number of octets it occupies.
    pub fn decode_prefix(bytes: &'a [u8]) -> (r: Result<(Header<'a>, usize), CodecError>)
        ensures
            match r {
                Ok((h, n)) => spec_decode_header(bytes@) == Ok::<(HeaderView, int), CodecError>((h@, n as int)) && n <= bytes@.len(),
                Err(e) => spec_decode_header(bytes@) == Err::<(HeaderView, int), CodecError>(e),
            },
    {
        let fc = match read_u16_le(bytes, 0) {
            Ok(v) => FrameControl(v),
            Err(e) => return Err(e),
        };
        let dst = match read_u16_le(bytes, 2) {
            Ok(v) => ShortAddress(v),
            Err(e) => return Err(e),
        };
        let src = match read_u16_le(bytes, 4) {
            Ok(v) => ShortAddress(v),
            Err(e) => return Err(e),
        };
        let radius = match read_u8(bytes, 6) {
            Ok(v) => v,
            Err(e) => return Err(e),
        };
        let sequence = match read_u8(bytes, 7) {
            Ok(v) => v,
            Err(e) => return Err(e),
        };
        let (dst_ieee, p1) = match read_opt_ieee(bytes, 8, fc.dst_ieee()) {
            Ok(v) => v,
            Err(e) => return Err(e),
        };
        let (src_ieee, p2) = match read_opt_ieee(bytes, p1, fc.src_ieee()) {
            Ok(v) => v,
            Err(e) => return Err(e),
        };
        if !fc.source_route() {
            return Ok((Header { frame_control: fc, dst, src, radius, sequence, dst_ieee, src_ieee, source_route: None }, p2));
        }
        let count = match read_u8(bytes, p2) {
            Ok(v) => v as usize,
            Err(e) => return Err(e),
        };
        let relay_index = match read_u8(bytes, p2 + 1) {
            Ok(v) => v,
            Err(e) => return Err(e),
        };
        if relay_index as usize >= count && count != 0 {
            return Err(CodecError::InvalidField { field: Field::RelayIndex, value: relay_index as u32 });
        }
        let start = p2 + 2;
        if bytes.len() - start < 2 * count {
            return Err(CodecError::Truncated { needed: 2 * count, available: bytes.len() - start });
        }
        let relays = vstd::slice::slice_subrange(bytes, start, start + 2 * count);
        let sr = SourceRoute { relay_index, relays };
        Ok((
            Header { frame_control: fc, dst, src, radius, sequence, dst_ieee, src_ieee, source_route: Some(sr) },
            start + 2 * count,
        ))
    }

    /// Decodes a header that must occupy all of `bytes`.
    pub fn decode_exact(bytes: &'a [u8]) -> (r: Result<Header<'a>, CodecError>)
        ensures
            match r {
                Ok(h) => exact(spec_decode_header(bytes@), bytes@.len() as int) == Ok::<HeaderView, CodecError>(h@),
                Err(e) => exact(spec_decode_header(bytes@), bytes@.len() as int) == Err::<HeaderView, CodecError>(e),
            },
    {
        let (h, n) = match Self::decode_prefix(bytes) {
            Ok(v) => v,
            Err(e) => return Err(e),
        };
        if n == bytes.len() {
            Ok(h)
        } else {
            Err(CodecError::TrailingBytes { count: bytes.len() - n })
        }
    }
}

/// A NWK frame: header plus the (possibly still secured) payload.
#[derive(Clone, Copy, PartialEq, Eq, Debug)]
pub struct Frame<'a> {
    /// Parsed header.
    pub header: Header<'a>,
    /// Octets after the header.
    pub payload: &'a [u8],
}

/// The frame a sequence of octets decodes to: its header and every octet
/// after it.
pub open spec fn spec_decode_frame(s: Seq<u8>) -> Result<(HeaderView, Seq<u8>), CodecError> {
    match spec_decode_header(s) {
        Err(e) => Err(e),
        Ok((h, n)) => Ok((h, s.subrange(n, s.len() as int))),
    }
}

impl<'a> Frame<'a> {
    /// Decodes a frame; the payload is every octet after the header.
    pub fn decode_exact(bytes: &'a [u8]) -> (r: Result<Frame<'a>, CodecError>)
        ensures
            match r {
                Ok(f) => spec_decode_frame(bytes@) == Ok::<(HeaderView, Seq<u8>), CodecError>((f.header@, f.payload@)),
                Err(e) => spec_decode_frame(bytes@) == Err::<(HeaderView, Seq<u8>), CodecError>(e),
            },
    {
        let (header, n) = match Header::decode_prefix(bytes) {
            Ok(v) => v,
            Err(e) => return Err(e),
        };
        let payload = vstd::slice::slice_subrange(bytes, n, bytes.len());
        Ok(Frame { header, payload })
    }

    /// Serialised length.
    pub fn encoded_len(&self) -> (n: usize)
        requires
            self.header.source_route matches Some(sr) ==> sr@.relays.len() <= usize::MAX - 32,
            self.payload@.len() <= usize::MAX - 2 * 32 - self.header@.spec_encode().len(),
        ensures
            n == self.header@.spec_encode().len() + self.payload@.len(),
    {
        self.header.encoded_len() + self.payload.len()
    }

    /// Appends the frame's octets to `out`.
    pub fn encode(&self, out: &mut Vec<u8>) -> (r: Result<(), CodecError>)
        ensures
            match self.header@.spec_encode_error() {
                Some(e) => r == Err::<(), CodecError>(e) && final(out)@ == old(out)@,
                None => r is Ok && final(out)@ == old(out)@ + self.header@.spec_encode() + self.payload@,
            },
    {
        match self.header.encode(out) {
            Ok(()) => {},
            Err(e) => return Err(e),
        }
        push_bytes(out, self.payload);
        Ok(())
    }

    /// Writes the frame into the front of `buf`, returning its length.
    pub fn encode_to_slice(&self, buf: &mut [u8]) -> (r: Result<usize, CodecError>)
        ensures
            match self.header@.spec_encode_error() {
                Some(e) => r == Err::<usize, CodecError>(e),
                None => {
                    let enc = self.header@.spec_encode() + self.payload@;
                    &&& enc.len() <= old(buf)@.len() ==> r == Ok::<usize, CodecError>(enc.len() as usize)
                        && final(buf)@.subrange(0, enc.len() as int) == enc
                    &&& enc.len() > old(buf)@.len() ==> r == Err::<usize, CodecError>(CodecError::BufferTooSmall {
                        needed: enc.len() as usize,
                        available: old(buf)@.len() as usize,
                    })
                },
            },
    {
        let mut out: Vec<u8> = Vec::new();
        match self.encode(&mut out) {
            Ok(()) => {},
            Err(e) => return Err(e),
        }
        assert(out@ =~= self.header@.spec_encode() + self.payload@);
        copy_to_slice(&out, buf)
    }
}

/// Where each field of an encoded NWK header stands.
proof fn lemma_nwk_header_layout(h: HeaderView, rest: Seq<u8>)
    ensures
        ({
            let s = h.spec_encode() + rest;
            let p1: int = 8 + opt_ieee_bytes(h.dst_ieee).len() as int;
            let p2: int = p1 + opt_ieee_bytes(h.src_ieee).len();
            let p3: int = p2 + opt_route_bytes(h.source_route).len();
            &&& s.len() == p3 + rest.len()
            &&& h.spec_encode().len() == p3
            &&& s.subrange(0, 2) == u16_bytes(h.frame_control.0)
            &&& s.subrange(2, 4) == u16_bytes(h.dst.0)
            &&& s.subrange(4, 6) == u16_bytes(h.src.0)
            &&& s[6] == h.radius
            &&& s[7] == h.sequence
            &&& s.subrange(8, p1) == opt_ieee_bytes(h.dst_ieee)
            &&& s.subrange(p1, p2) == opt_ieee_bytes(h.src_ieee)
            &&& s.subrange(p2, p3) == opt_route_bytes(h.source_route)
        }),
{
    let a = u16_bytes(h.frame_control.0);
    let b = u16_bytes(h.dst.0);
    let c = u16_bytes(h.src.0);
    let d = seq![h.radius, h.sequence];
    let e = opt_ieee_bytes(h.dst_ieee);
    let f = opt_ieee_bytes(h.src_ieee);
    let g = opt_route_bytes(h.source_route);
    let s = h.spec_encode() + rest;
    let t6 = g + rest;
    let t5 = f + t6;
    let t4 = e + t5;
    let t3 = d + t4;
    let t2 = c + t3;
    let t1 = b + t2;
    lemma_regroup(a, b + (c + (d + (e + (f + g)))), rest);
    lemma_regroup(b, c + (d + (e + (f + g))), rest);
    lemma_regroup(c, d + (e + (f + g)), rest);
    lemma_regroup(d, e + (f + g), rest);
    lemma_regroup(e, f + g, rest);
    lemma_regroup(f, g, rest);
    assert(s.subrange(0, s.len() as int) == a + t1) by {
        assert(s.subrange(0, s.len() as int) =~= s);
    }
    lemma_step(s, 0, a, t1);
    lemma_step(s, 2, b, t2);
    lemma_step(s, 4, c, t3);
    lemma_step(s, 6, d, t4);
    assert(s[6] == s.subrange(6, 8)[0] && s[7] == s.subrange(6, 8)[1]);
    lemma_step(s, 8, e, t5);
    let p1: int = 8 + e.len() as int;
    lemma_step(s, p1, f, t6);
    let p2: int = p1 + f.len();
    lemma_step(s, p2, g, rest);
}

/// Decoding the encoding of a well-formed NWK header gives it back,
/// whatever octets follow.
pub proof fn lemma_nwk_header_encode_decode(h: HeaderView, rest: Seq<u8>)
    requires
        h.wf(),
    ensures
        spec_decode_header(h.spec_encode() + rest) == Ok::<(HeaderView, int), CodecError>((h, h.spec_encode().len() as int)),
{
    let s = h.spec_encode() + rest;
    lemma_nwk_header_layout(h, rest);
    let p1: int = 8 + opt_ieee_bytes(h.dst_ieee).len() as int;
    let p2: int = p1 + opt_ieee_bytes(h.src_ieee).len();
    let p3: int = p2 + opt_route_bytes(h.source_route).len();
    lemma_le16_at(s, 0, h.frame_control.0);
    lemma_le16_at(s, 2, h.dst.0);
    lemma_le16_at(s, 4, h.src.0);
    if let Some(x) = h.dst_ieee {
        lemma_le64_at(s, 8, x.0);
    }
    if let Some(x) = h.src_ieee {
        lemma_le64_at(s, p1, x.0);
    }
    if let Some(sr) = h.source_route {
        let g = opt_route_bytes(h.source_route);
        assert(s[p2] == g[0] && s[p2 + 1] == g[1]);
        assert(s.subrange(p2 + 2, p3) =~= sr.relays);
        assert((sr.relays.len() / 2) as u8 as int * 2 == sr.relays.len());
    }
}

/// A decoded NWK header is well formed and re-encodes to the octets it
/// came from.
pub proof fn lemma_nwk_header_decode_encode(s: Seq<u8>)
    ensures
        spec_decode_header(s) matches Ok((h, n)) ==> h.wf() && 0 <= n <= s.len() && h.spec_encode() == s.subrange(0, n),
{
    if let Ok((h, n)) = spec_decode_header(s) {
        lemma_u16_bytes_of_le16(s, 0);
        lemma_u16_bytes_of_le16(s, 2);
        lemma_u16_bytes_of_le16(s, 4);
        let p1: int = 8 + opt_ieee_bytes(h.dst_ieee).len() as int;
        let p2: int = p1 + opt_ieee_bytes(h.src_ieee).len();
        if h.dst_ieee is Some {
            lemma_u64_bytes_of_le64(s, 8);
        }
        if h.src_ieee is Some {
            lemma_u64_bytes_of_le64(s, p1);
        }
        assert(opt_ieee_bytes(h.dst_ieee) =~= s.subrange(8, p1));
        assert(opt_ieee_bytes(h.src_ieee) =~= s.subrange(p1, p2));
        assert(opt_route_bytes(h.source_route) =~= s.subrange(p2, n));
        assert(h.spec_encode() =~= s.subrange(0, n));
    }
}

/// A NWK frame with a well-formed header decodes from its encoding to the
/// same header and payload.
pub proof fn lemma_nwk_frame_round_trip(h: HeaderView, payload: Seq<u8>)
    requires
        h.wf(),
    ensures
        spec_decode_frame(h.spec_encode() + payload) == Ok::<(HeaderView, Seq<u8>), CodecError>((h, payload)),
{
    lemma_nwk_header_encode_decode(h, payload);
    lemma_concat_parts(h.spec_encode(), payload);
}

/// A well-formed header has nothing that stops it being encoded.
pub proof fn lemma_nwk_header_wf_encodes(h: HeaderView)
    requires
        h.wf(),
    ensures
        h.spec_encode_error().is_none(),
{
}

/// The NWK frame control layout: frame type in bits 0-1 (data 0, command
/// 1, inter-PAN 3), protocol version 2 in bits 2-5, discover route in bits
/// 6-7 (suppress 0, enable 1), then the flags multicast 0x0100, security
/// 0x0200, source route 0x0400, destination IEEE 0x0800, source IEEE
/// 0x1000 and end device initiator 0x2000.
pub proof fn lemma_nwk_frame_control_layout()
    ensures
        FrameType::Data.spec_bits() == 0,
        FrameType::Command.spec_bits() == 1,
        FrameType::Reserved.spec_bits() == 2,
        FrameType::InterPan.spec_bits() == 3,
        forall|v: u16| (FrameType::spec_from_bits(v) == FrameType::Data) <==> v & 0x3 == 0,
        forall|v: u16| (FrameType::spec_from_bits(v) == FrameType::Command) <==> v & 0x3 == 1,
        forall|v: u16| (FrameType::spec_from_bits(v) == FrameType::InterPan) <==> v & 0x3 == 3,
        DiscoverRoute::Suppress.spec_bits() == 0,
        DiscoverRoute::Enable.spec_bits() == 1,
        forall|v: u16| (DiscoverRoute::spec_from_bits(v) == DiscoverRoute::Enable) <==> v & 0x3 == 1,
        PROTOCOL_VERSION == 2,
        FC_MULTICAST == 0x0100,
        FC_SECURITY == 0x0200,
        FC_SOURCE_ROUTE == 0x0400,
        FC_DST_IEEE == 0x0800,
        FC_SRC_IEEE == 0x1000,
        FC_END_DEVICE_INITIATOR == 0x2000,
{
    assert forall|v: u16| #[trigger] (v & 0x3) <= 3 by {
        lemma_wire_bits(0, 0, 0, 0, 0, 0, v, 0, 0, 0, 0, 0, 0);
    }
}

/// The NWK header's layout: frame control, destination, source (each
/// least significant octet first), radius, sequence number, then the
/// destination IEEE address, the source IEEE address and the source route
/// subframe, each when present.
pub proof fn lemma_nwk_header_octets(h: HeaderView)
    ensures
        ({
            let s = h.spec_encode();
            let d = if h.dst_ieee is Some { 8int } else { 0 };
            let e = if h.src_ieee is Some { 8int } else { 0 };
            &&& s.len() == 8 + d + e + opt_route_bytes(h.source_route).len()
            &&& s[0] as int + 256 * (s[1] as int) == h.frame_control.0 as int
            &&& s[2] as int + 256 * (s[3] as int) == h.dst.0 as int
            &&& s[4] as int + 256 * (s[5] as int) == h.src.0 as int
            &&& s[6] == h.radius
            &&& s[7] == h.sequence
            &&& h.dst_ieee matches Some(a) ==> s.subrange(8, 16) == u64_bytes(a.0)
            &&& h.src_ieee matches Some(a) ==> s.subrange(8 + d, 16 + d) == u64_bytes(a.0)
            &&& h.source_route matches Some(sr) ==> s[9 + d + e] == sr.relay_index && (sr.relays.len() / 2 <= 255
                ==> s[8 + d + e] == sr.relays.len() / 2)
        }),
{
    let s = h.spec_encode();
    lemma_u16_octets(h.frame_control.0);
    lemma_u16_octets(h.dst.0);
    lemma_u16_octets(h.src.0);
    let d = if h.dst_ieee is Some { 8int } else { 0 };
    let e = if h.src_ieee is Some { 8int } else { 0 };
    let tail = opt_ieee_bytes(h.dst_ieee) + (opt_ieee_bytes(h.src_ieee) + opt_route_bytes(h.source_route));
    assert(s =~= u16_bytes(h.frame_control.0) + u16_bytes(h.dst.0) + u16_bytes(h.src.0) + seq![h.radius, h.sequence]
        + tail);
    assert(s.subrange(8, s.len() as int) =~= tail);
    if let Some(a) = h.dst_ieee {
        assert(s.subrange(8, 16) =~= u64_bytes(a.0));
    }
    if let Some(a) = h.src_ieee {
        assert(s.subrange(8 + d, 16 + d) =~= u64_bytes(a.0));
    }
    if let Some(sr) = h.source_route {
        assert(s[8 + d + e] == (sr.relays.len() / 2) as u8);
        assert(s[9 + d + e] == sr.relay_index);
    }
}

/// A decoded NWK header reads the frame control, destination and source
/// from octets 0-1, 2-3 and 4-5 (least significant first), the radius and
/// sequence number from octets 6 and 7, and the optional fields as the
/// frame control's destination IEEE (0x0800), source IEEE (0x1000) and
/// source route (0x0400) flags say.
pub proof fn lemma_nwk_header_decoded_fields(s: Seq<u8>)
    ensures
        spec_decode_header(s) matches Ok((h, n)) ==> {
            &&& h.frame_control.0 as int == s[0] as int + 256 * (s[1] as int)
            &&& h.dst.0 as int == s[2] as int + 256 * (s[3] as int)
            &&& h.src.0 as int == s[4] as int + 256 * (s[5] as int)
            &&& h.radius == s[6]
            &&& h.sequence == s[7]
            &&& h.dst_ieee.is_some() == (h.frame_control.0 & 0x0800 != 0)
            &&& h.src_ieee.is_some() == (h.frame_control.0 & 0x1000 != 0)
            &&& h.source_route.is_some() == (h.frame_control.0 & 0x0400 != 0)
        },
{
    if s.len() >= 8 {
        lemma_le16_octets(s, 0);
        lemma_le16_octets(s, 2);
        lemma_le16_octets(s, 4);
    }
}

} // verus!
