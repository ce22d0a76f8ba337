//! Information elements as Zigbee uses them: the Enhanced Beacon Request
//! (a Beacon Request command with frame version 2 and an IE list) and the
//! Enhanced Beacon (a version 2 beacon whose beacon fields travel in an
//! IE). Only the payload IEs Zigbee defines are interpreted: the MLME
//! nested EB Filter IE and the Zigbee Payload IE (vendor specific, OUI
//! `4A-19-1B`) with its Rejoin, TX Power and EB Payload sub-IEs. Unknown
//! IEs are skipped.
//!
//! Layout: a header IE list holding only the HT1 terminator, then payload
//! IEs, a payload termination IE and, for a command frame, the command
//! identifier.
use vstd::prelude::*;

use crate::codec::{
    le16, le64, push_bytes, push_u16_le, push_u64_le, push_u8, read_u16_le, read_u64_le, read_u8,
    truncated, u16_bytes, u64_bytes, CodecError, Field,
};
use crate::codec::{lemma_u16_octets, lemma_wire_bits};
use crate::mac::frame::SuperframeSpec;
use crate::types::{ExtendedAddress, ShortAddress};

verus! {

broadcast use vstd::slice::group_slice_axioms;

/// Header Termination 1 IE (element ID 0x7E, length 0), on-air order:
/// payload IEs follow the header.
pub const HEADER_TERMINATION_1: [u8; 2] = [0x00, 0x3F];

/// Payload Termination IE (group ID 0xF, length 0).
pub const PAYLOAD_TERMINATION: u16 = 0xF800;

/// Payload IE group ID of MLME nested IEs.
pub const GROUP_MLME: u8 = 0x1;

/// Payload IE group ID of vendor specific IEs.
pub const GROUP_VENDOR: u8 = 0x2;

/// Payload IE group ID of the termination IE.
pub const GROUP_TERMINATION: u8 = 0xF;

/// The Connectivity Standards Alliance OUI carried by the Zigbee Payload
/// IE, in on-air order.
pub const ZIGBEE_OUI: [u8; 3] = [0x1B, 0x19, 0x4A];

/// MLME short sub-IE ID of the EB Filter IE.
pub const SUB_ID_EB_FILTER: u8 = 0x1E;

/// Zigbee sub-IE: Rejoin IE.
pub const ZIGBEE_SUB_REJOIN: u16 = 0x00;

/// Zigbee sub-IE: TX Power IE.
pub const ZIGBEE_SUB_TX_POWER: u16 = 0x01;

/// Zigbee sub-IE: EB Payload IE.
pub const ZIGBEE_SUB_EB_PAYLOAD: u16 = 0x02;

/// Beacon Request command identifier.
pub const BEACON_REQUEST_ID: u8 = 0x07;

/// The standard Zigbee beacon payload length.
pub const EB_BEACON_PAYLOAD_LEN: usize = 15;

/// The smaller of two integers.
pub open spec fn min_int(a: int, b: int) -> int {
    if a <= b { a } else { b }
}

/// One payload IE: `length(11) | group(4) | type(1)` then the content.
#[derive(Clone, Copy, PartialEq, Eq, Debug)]
pub struct PayloadIe<'a> {
    /// Group ID.
    pub group: u8,
    /// Content.
    pub content: &'a [u8],
}

/// The mathematical content of a [`PayloadIe`].
pub struct PayloadIeView {
    /// Group ID.
    pub group: u8,
    /// Content octets.
    pub content: Seq<u8>,
}

impl<'a> View for PayloadIe<'a> {
    type V = PayloadIeView;

    open spec fn view(&self) -> PayloadIeView {
        PayloadIeView { group: self.group, content: self.content@ }
    }
}

/// The views of a sequence of payload IEs.
pub open spec fn payload_ie_views<'a>(v: Seq<PayloadIe<'a>>) -> Seq<PayloadIeView> {
    v.map_values(|p: PayloadIe<'a>| p@)
}

/// Where the payload IE list starting at `pos` of `s` ends: the end of
/// the IEs and the start of what follows the termination IE.
pub open spec fn split_from(s: Seq<u8>, pos: int) -> Result<(int, int), CodecError>
    decreases s.len() - pos,
{
    if pos < 0 || pos > s.len() {
        Err(truncated(s, pos, 2))
    } else if pos + 2 <= s.len() {
        let word = le16(s, pos);
        if word & 0x8000 == 0 {
            Err(CodecError::InvalidField { field: Field::PayloadIeType, value: 0 })
        } else if (word >> 11) & 0xF == 0xF {
            Ok((pos, pos + 2))
        } else {
            let len = (word & 0x07FF) as int;
            if pos + 2 + len > s.len() {
                Err(truncated(s, pos + 2, len))
            } else {
                split_from(s, pos + 2 + len)
            }
        }
    } else if pos == s.len() {
        Ok((pos, pos))
    } else {
        Err(truncated(s, pos, 2))
    }
}

/// The payload IE list at the front of `s` and what follows its
/// termination IE; without a termination IE all of `s` is IEs.
pub open spec fn spec_split_payload_ies(s: Seq<u8>) -> Result<(Seq<u8>, Seq<u8>), CodecError> {
    match split_from(s, 0) {
        Ok((a, b)) => Ok((s.subrange(0, a), s.subrange(b, s.len() as int))),
        Err(e) => Err(e),
    }
}

/// The bounds `split_from` finds lie within `s`.
proof fn lemma_split_from_bounds(s: Seq<u8>, pos: int)
    requires
        0 <= pos <= s.len(),
    ensures
        split_from(s, pos) matches Ok((a, b)) ==> pos <= a <= b <= s.len(),
    decreases s.len() - pos,
{
    if pos + 2 <= s.len() {
        let word = le16(s, pos);
        let len = (word & 0x07FF) as int;
        if word & 0x8000 != 0 && (word >> 11) & 0xF != 0xF && pos + 2 + len <= s.len() {
            lemma_split_from_bounds(s, pos + 2 + len);
        }
    }
}

/// Splits the payload IE list at the front of `bytes`: the IEs before the
/// payload termination IE and the bytes after it. Without a termination
/// IE the whole input is IEs.
pub fn split_payload_ies(bytes: &[u8]) -> (r: Result<(&[u8], &[u8]), CodecError>)
    ensures
        match spec_split_payload_ies(bytes@) {
            Ok((a, b)) => r matches Ok((x, y)) && x@ == a && y@ == b,
            Err(e) => r == Err::<(&[u8], &[u8]), CodecError>(e),
        },
{
    proof {
        lemma_split_from_bounds(bytes@, 0);
    }
    let mut pos: usize = 0;
    while bytes.len() - pos >= 2
        invariant
            pos <= bytes@.len(),
            split_from(bytes@, 0) == split_from(bytes@, pos as int),
        decreases bytes@.len() - pos,
    {
        let word = ((bytes[pos] as u16) | ((bytes[pos + 1] as u16) << 8)) as u16;
        assert(word == le16(bytes@, pos as int));
        if word & 0x8000 == 0 {
            return Err(CodecError::InvalidField { field: Field::PayloadIeType, value: 0 });
        }
        let len = (word & 0x07FF) as usize;
        if (word >> 11) & 0xF == 0xF {
            let ies = vstd::slice::slice_subrange(bytes, 0, pos);
            let rest = vstd::slice::slice_subrange(bytes, pos + 2, bytes.len());
            return Ok((ies, rest));
        }
        if bytes.len() - pos - 2 < len {
            return Err(CodecError::Truncated { needed: len, available: bytes.len() - pos - 2 });
        }
        pos = pos + 2 + len;
    }
    if pos == bytes.len() {
        let rest = vstd::slice::slice_subrange(bytes, pos, pos);
        assert(bytes@.subrange(0, pos as int) =~= bytes@);
        Ok((bytes, rest))
    } else {
        Err(CodecError::Truncated { needed: 2, available: bytes.len() - pos })
    }
}

/// The payload IEs of a list from `pos` on; an IE whose length runs past
/// the end is cut at the end.
pub open spec fn ies_from(l: Seq<u8>, pos: int) -> Seq<PayloadIeView>
    decreases l.len() - pos,
{
    if pos < 0 || pos + 2 > l.len() {
        Seq::empty()
    } else {
        let word = le16(l, pos);
        let start = pos + 2;
        let end = min_int(start + (word & 0x07FF) as int, l.len() as int);
        seq![PayloadIeView { group: ((word >> 11) & 0xF) as u8, content: l.subrange(start, end) }]
            + ies_from(l, end)
    }
}

/// The payload IEs of a list produced by [`split_payload_ies`].
pub fn payload_ies<'a>(list: &'a [u8]) -> (v: Vec<PayloadIe<'a>>)
    ensures
        payload_ie_views(v@) == ies_from(list@, 0),
{
    let mut v: Vec<PayloadIe<'a>> = Vec::new();
    let mut pos: usize = 0;
    while list.len() - pos >= 2
        invariant
            pos <= list@.len(),
            ies_from(list@, 0) == payload_ie_views(v@) + ies_from(list@, pos as int),
        decreases list@.len() - pos,
    {
        let word = ((list[pos] as u16) | ((list[pos + 1] as u16) << 8)) as u16;
        assert(word == le16(list@, pos as int));
        let len = (word & 0x07FF) as usize;
        let group = ((word >> 11) & 0xF) as u8;
        let start = pos + 2;
        let end = if list.len() - start < len { list.len() } else { start + len };
        let ie = PayloadIe { group, content: vstd::slice::slice_subrange(list, start, end) };
        let ghost old_v = v@;
        v.push(ie);
        proof {
            assert(payload_ie_views(v@) =~= payload_ie_views(old_v).push(ie@));
            assert(ies_from(list@, pos as int) == seq![ie@] + ies_from(list@, end as int));
            assert(payload_ie_views(old_v) + ies_from(list@, pos as int) =~= payload_ie_views(v@)
                + ies_from(list@, end as int));
        }
        pos = end;
    }
    proof {
        assert(ies_from(list@, pos as int) =~= Seq::<PayloadIeView>::empty());
        assert(payload_ie_views(v@) + Seq::<PayloadIeView>::empty() =~= payload_ie_views(v@));
    }
    v
}

/// The octets of a payload IE with the given group and content.
pub open spec fn spec_payload_ie(group: u8, content: Seq<u8>) -> Seq<u8> {
    u16_bytes((0x8000u16 | (((group & 0xF) as u16) << 11) | (content.len() as u16)) as u16) + content
}

/// Appends a payload IE; content longer than 0x7FF octets cannot be
/// represented.
pub fn write_payload_ie(out: &mut Vec<u8>, group: u8, content: &[u8]) -> (r: Result<(), CodecError>)
    ensures
        content@.len() > 0x07FF ==> r == Err::<(), CodecError>(CodecError::Unrepresentable { field: Field::PayloadIeLength })
            && final(out)@ == old(out)@,
        content@.len() <= 0x07FF ==> r is Ok && final(out)@ == old(out)@ + spec_payload_ie(group, content@),
{
    if content.len() > 0x07FF {
        return Err(CodecError::Unrepresentable { field: Field::PayloadIeLength });
    }
    let len = content.len() as u16;
    push_u16_le(out, 0x8000 | (((group & 0xF) as u16) << 11) | len);
    push_bytes(out, content);
    assert(out@ =~= old(out)@ + spec_payload_ie(group, content@));
    Ok(())
}

/// EB Filter IE content: a joining device sets Permit Joining On and may
/// add the link quality and percent filters; attribute IDs are never
/// used.
#[derive(Clone, Copy, PartialEq, Eq, Debug, Structural)]
pub struct EbFilter {
    /// Only PANs with joining permitted respond.
    pub permit_joining_on: bool,
    /// Only devices that received the request at this LQI or better
    /// respond.
    pub link_quality: Option<u8>,
    /// Only this percentage of devices respond.
    pub percent: Option<u8>,
}

/// 1 for true, 0 for false.
pub open spec fn bit(b: bool) -> u8 {
    if b { 1 } else { 0 }
}

/// The octet an optional value adds.
pub open spec fn opt_octet(o: Option<u8>) -> Seq<u8> {
    match o {
        Some(v) => seq![v],
        None => Seq::empty(),
    }
}

/// The EB Filter content a sequence of octets denotes.
pub open spec fn spec_parse_eb_filter(s: Seq<u8>) -> Result<EbFilter, CodecError> {
    if s.len() < 1 {
        Err(truncated(s, 0, 1))
    } else {
        let control = s[0];
        let lq_pos = 1int;
        let pc_pos = if control & 0x02 != 0 { 2int } else { 1int };
        if control & 0x02 != 0 && s.len() < 2 {
            Err(truncated(s, 1, 1))
        } else if control & 0x04 != 0 && s.len() < pc_pos + 1 {
            Err(truncated(s, pc_pos, 1))
        } else {
            Ok(EbFilter {
                permit_joining_on: control & 0x01 != 0,
                link_quality: if control & 0x02 != 0 { Some(s[lq_pos]) } else { None },
                percent: if control & 0x04 != 0 { Some(s[pc_pos]) } else { None },
            })
        }
    }
}

impl EbFilter {
    /// The filter of a joining device.
    pub open spec fn spec_joining() -> EbFilter {
        EbFilter { permit_joining_on: true, link_quality: None, percent: None }
    }

    /// The control octet.
    pub open spec fn spec_control(self) -> u8 {
        (bit(self.permit_joining_on) | (bit(self.link_quality is Some) << 1) | (bit(self.percent is Some) << 2)) as u8
    }

    /// The content octets.
    pub open spec fn spec_encode(self) -> Seq<u8> {
        seq![self.spec_control()] + opt_octet(self.link_quality) + opt_octet(self.percent)
    }

    /// The filter of a joining device.
    pub fn joining() -> (f: EbFilter)
        ensures
            f == Self::spec_joining(),
    {
        EbFilter { permit_joining_on: true, link_quality: None, percent: None }
    }

    /// Parses the content of an EB Filter IE.
    pub fn parse(content: &[u8]) -> (r: Result<EbFilter, CodecError>)
        ensures
            r == spec_parse_eb_filter(content@),
    {
        let control = match read_u8(content, 0) {
            Ok(v) => v,
            Err(e) => return Err(e),
        };
        let mut pos: usize = 1;
        let link_quality = if control & 0x02 != 0 {
            let q = match read_u8(content, 1) {
                Ok(v) => v,
                Err(e) => return Err(e),
            };
            pos = 2;
            Some(q)
        } else {
            None
        };
        let percent = if control & 0x04 != 0 {
            match read_u8(content, pos) {
                Ok(v) => Some(v),
                Err(e) => return Err(e),
            }
        } else {
            None
        };
        Ok(EbFilter { permit_joining_on: control & 0x01 != 0, link_quality, percent })
    }

    /// Length of the content.
    pub fn encoded_len(self) -> (n: usize)
        ensures
            n == self.spec_encode().len(),
    {
        let a: usize = if self.link_quality.is_some() { 1 } else { 0 };
        let b: usize = if self.percent.is_some() { 1 } else { 0 };
        1 + a + b
    }

    /// Appends the content.
    pub fn write(self, out: &mut Vec<u8>)
        ensures
            final(out)@ == old(out)@ + self.spec_encode(),
    {
        let a: u8 = if self.permit_joining_on { 1 } else { 0 };
        let b: u8 = if self.link_quality.is_some() { 1 } else { 0 };
        let c: u8 = if self.percent.is_some() { 1 } else { 0 };
        push_u8(out, a | (b << 1) | (c << 2));
        if let Some(q) = self.link_quality {
            push_u8(out, q);
        }
        if let Some(p) = self.percent {
            push_u8(out, p);
        }
        assert(out@ =~= old(out)@ + self.spec_encode());
    }
}

/// The content of an EB Filter reads back as the same filter.
pub proof fn lemma_eb_filter_round_trip(f: EbFilter)
    ensures
        spec_parse_eb_filter(f.spec_encode()) == Ok::<EbFilter, CodecError>(f),
{
    let a = bit(f.permit_joining_on);
    let b = bit(f.link_quality is Some);
    let c = bit(f.percent is Some);
    let ctl = f.spec_control();
    assert((ctl & 0x01 != 0) == (a == 1) && (ctl & 0x02 != 0) == (b == 1) && (ctl & 0x04 != 0) == (c == 1))
        by (bit_vector)
        requires
            a < 2,
            b < 2,
            c < 2,
            ctl == (a | (b << 1) | (c << 2)) as u8,
    ;
}

/// The MLME short sub-IEs of an MLME nested IE's content from `pos` on,
/// as sub-ID and content; a long sub-IE is skipped and reported with
/// sub-ID 0xFF and no content.
pub open spec fn mlme_subs_from(c: Seq<u8>, pos: int) -> Seq<(u8, Seq<u8>)>
    decreases c.len() - pos,
{
    if pos < 0 || pos + 2 > c.len() {
        Seq::empty()
    } else {
        let word = le16(c, pos);
        if word & 0x8000 != 0 {
            let end = min_int(pos + 2 + (word & 0x07FF) as int, c.len() as int);
            seq![(0xFFu8, Seq::<u8>::empty())] + mlme_subs_from(c, end)
        } else {
            let start = pos + 2;
            let end = min_int(start + (word & 0xFF) as int, c.len() as int);
            seq![(((word >> 8) & 0x7F) as u8, c.subrange(start, end))] + mlme_subs_from(c, end)
        }
    }
}

/// The views of MLME sub-IEs.
pub open spec fn mlme_sub_views<'a>(v: Seq<(u8, &'a [u8])>) -> Seq<(u8, Seq<u8>)> {
    v.map_values(|p: (u8, &'a [u8])| (p.0, p.1@))
}

/// The MLME short sub-IEs of an MLME nested IE: `length(8) | sub-id(7) |
/// type(1)=0`.
pub fn mlme_short_ies<'a>(content: &'a [u8]) -> (v: Vec<(u8, &'a [u8])>)
    ensures
        mlme_sub_views(v@) == mlme_subs_from(content@, 0),
{
    let mut v: Vec<(u8, &'a [u8])> = Vec::new();
    let mut pos: usize = 0;
    while content.len() - pos >= 2
        invariant
            pos <= content@.len(),
            mlme_subs_from(content@, 0) == mlme_sub_views(v@) + mlme_subs_from(content@, pos as int),
        decreases content@.len() - pos,
    {
        let word = ((content[pos] as u16) | ((content[pos + 1] as u16) << 8)) as u16;
        assert(word == le16(content@, pos as int));
        let ghost old_v = v@;
        let end: usize;
        if word & 0x8000 != 0 {
            let len = (word & 0x07FF) as usize;
            end = if content.len() - pos - 2 < len { content.len() } else { pos + 2 + len };
            let empty = vstd::slice::slice_subrange(content, end, end);
            v.push((0xFF, empty));
            proof {
                assert(empty@ =~= Seq::<u8>::empty());
            }
        } else {
            let len = (word & 0xFF) as usize;
            let start = pos + 2;
            end = if content.len() - start < len { content.len() } else { start + len };
            v.push((((word >> 8) & 0x7F) as u8, vstd::slice::slice_subrange(content, start, end)));
        }
        proof {
            assert(mlme_sub_views(v@) =~= mlme_sub_views(old_v).push(mlme_sub_views(v@).last()));
            assert(mlme_subs_from(content@, pos as int) == seq![mlme_sub_views(v@).last()] + mlme_subs_from(
                content@,
                end as int,
            ));
            assert(mlme_sub_views(old_v) + mlme_subs_from(content@, pos as int) =~= mlme_sub_views(v@)
                + mlme_subs_from(content@, end as int));
        }
        pos = end;
    }
    proof {
        assert(mlme_subs_from(content@, pos as int) =~= Seq::<(u8, Seq<u8>)>::empty());
        assert(mlme_sub_views(v@) + Seq::<(u8, Seq<u8>)>::empty() =~= mlme_sub_views(v@));
    }
    v
}

/// A Zigbee Payload nested sub-IE.
#[derive(Clone, Copy, PartialEq, Eq, Debug)]
pub enum ZigbeeIe<'a> {
    /// Rejoin IE.
    Rejoin {
        /// `nwkExtendedPANId` of the rejoining device.
        extended_pan_id: ExtendedAddress,
        /// Its network address.
        sender_short: ShortAddress,
    },
    /// TX Power IE: the power the frame was sent at, dBm.
    TxPower(i8),
    /// EB Payload IE: the standard beacon information.
    EbPayload {
        /// The Zigbee beacon payload.
        beacon_payload: &'a [u8],
        /// Superframe specification.
        superframe: SuperframeSpec,
        /// Network address of the beaconing device.
        sender_short: ShortAddress,
    },
    /// A reserved sub-ID.
    Unknown {
        /// Sub-ID.
        sub_id: u16,
        /// Content.
        content: &'a [u8],
    },
}

/// The mathematical content of a [`ZigbeeIe`].
pub enum ZigbeeIeView {
    /// Rejoin IE.
    Rejoin { extended_pan_id: ExtendedAddress, sender_short: ShortAddress },
    /// TX Power IE.
    TxPower(i8),
    /// EB Payload IE.
    EbPayload { beacon_payload: Seq<u8>, superframe: SuperframeSpec, sender_short: ShortAddress },
    /// A reserved sub-ID.
    Unknown { sub_id: u16, content: Seq<u8> },
}

impl<'a> View for ZigbeeIe<'a> {
    type V = ZigbeeIeView;

    open spec fn view(&self) -> ZigbeeIeView {
        match *self {
            ZigbeeIe::Rejoin { extended_pan_id, sender_short } => ZigbeeIeView::Rejoin { extended_pan_id, sender_short },
            ZigbeeIe::TxPower(p) => ZigbeeIeView::TxPower(p),
            ZigbeeIe::EbPayload { beacon_payload, superframe, sender_short } => ZigbeeIeView::EbPayload {
                beacon_payload: beacon_payload@,
                superframe,
                sender_short,
            },
            ZigbeeIe::Unknown { sub_id, content } => ZigbeeIeView::Unknown { sub_id, content: content@ },
        }
    }
}

/// The sub-IE a sub-ID and content denote.
pub open spec fn spec_parse_zigbee_ie(sub_id: u16, c: Seq<u8>) -> Result<ZigbeeIeView, CodecError> {
    if sub_id == ZIGBEE_SUB_REJOIN {
        if c.len() < 8 {
            Err(truncated(c, 0, 8))
        } else if c.len() < 10 {
            Err(truncated(c, 8, 2))
        } else {
            Ok(ZigbeeIeView::Rejoin { extended_pan_id: ExtendedAddress(le64(c, 0)), sender_short: ShortAddress(le16(c, 8)) })
        }
    } else if sub_id == ZIGBEE_SUB_TX_POWER {
        if c.len() < 1 {
            Err(truncated(c, 0, 1))
        } else {
            Ok(ZigbeeIeView::TxPower(c[0] as i8))
        }
    } else if sub_id == ZIGBEE_SUB_EB_PAYLOAD {
        if c.len() < 4 {
            Err(truncated(c, 0, 4))
        } else {
            let n = c.len() - 4;
            Ok(ZigbeeIeView::EbPayload {
                beacon_payload: c.subrange(0, n),
                superframe: SuperframeSpec::spec_from_raw(le16(c, n)),
                sender_short: ShortAddress(le16(c, n + 2)),
            })
        }
    } else {
        Ok(ZigbeeIeView::Unknown { sub_id, content: c })
    }
}

impl ZigbeeIeView {
    /// Sub-ID of the sub-IE.
    pub open spec fn sub_id(self) -> u16 {
        match self {
            ZigbeeIeView::Rejoin { .. } => ZIGBEE_SUB_REJOIN,
            ZigbeeIeView::TxPower(_) => ZIGBEE_SUB_TX_POWER,
            ZigbeeIeView::EbPayload { .. } => ZIGBEE_SUB_EB_PAYLOAD,
            ZigbeeIeView::Unknown { sub_id, .. } => sub_id,
        }
    }

    /// The content octets.
    pub open spec fn content(self) -> Seq<u8> {
        match self {
            ZigbeeIeView::Rejoin { extended_pan_id, sender_short } => u64_bytes(extended_pan_id.0) + u16_bytes(sender_short.0),
            ZigbeeIeView::TxPower(p) => seq![p as u8],
            ZigbeeIeView::EbPayload { beacon_payload, superframe, sender_short } => beacon_payload + u16_bytes(
                superframe.spec_to_raw(),
            ) + u16_bytes(sender_short.0),
            ZigbeeIeView::Unknown { content, .. } => content,
        }
    }

    /// The sub-IE's octets: header then content.
    pub open spec fn spec_encode(self) -> Seq<u8> {
        u16_bytes(((self.content().len() as u16) | (self.sub_id() << 6)) as u16) + self.content()
    }

    /// The content is short enough for the six-bit length field.
    pub open spec fn fits(self) -> bool {
        self.content().len() < 64
    }
}

impl<'a> ZigbeeIe<'a> {
    /// Parses a sub-IE's content.
    pub fn parse(sub_id: u16, content: &'a [u8]) -> (r: Result<ZigbeeIe<'a>, CodecError>)
        ensures
            match spec_parse_zigbee_ie(sub_id, content@) {
                Ok(v) => r matches Ok(z) && z@ == v,
                Err(e) => r == Err::<ZigbeeIe<'a>, CodecError>(e),
            },
    {
        if sub_id == ZIGBEE_SUB_REJOIN {
            let e = match read_u64_le(content, 0) {
                Ok(v) => v,
                Err(e) => return Err(e),
            };
            let s = match read_u16_le(content, 8) {
                Ok(v) => v,
                Err(e) => return Err(e),
            };
            Ok(ZigbeeIe::Rejoin { extended_pan_id: ExtendedAddress(e), sender_short: ShortAddress(s) })
        } else if sub_id == ZIGBEE_SUB_TX_POWER {
            match read_u8(content, 0) {
                Ok(v) => Ok(ZigbeeIe::TxPower(v as i8)),
                Err(e) => Err(e),
            }
        } else if sub_id == ZIGBEE_SUB_EB_PAYLOAD {
            if content.len() < 4 {
                return Err(CodecError::Truncated { needed: 4, available: content.len() });
            }
            let n = content.len() - 4;
            let beacon_payload = vstd::slice::slice_subrange(content, 0, n);
            let sf = match read_u16_le(content, n) {
                Ok(v) => v,
                Err(e) => return Err(e),
            };
            let sender = match read_u16_le(content, n + 2) {
                Ok(v) => v,
                Err(e) => return Err(e),
            };
            Ok(ZigbeeIe::EbPayload {
                beacon_payload,
                superframe: SuperframeSpec::from_raw(sf),
                sender_short: ShortAddress(sender),
            })
        } else {
            Ok(ZigbeeIe::Unknown { sub_id, content })
        }
    }

    /// Length of the content.
    pub fn content_len(&self) -> (n: usize)
        requires
            self@.content().len() <= usize::MAX,
        ensures
            n == self@.content().len(),
    {
        match self {
            ZigbeeIe::Rejoin { .. } => 10,
            ZigbeeIe::TxPower(_) => 1,
            ZigbeeIe::EbPayload { beacon_payload, .. } => beacon_payload.len() + 4,
            ZigbeeIe::Unknown { content, .. } => content.len(),
        }
    }
}

impl<'a> ZigbeeIe<'a> {
    /// Length of the content, capped at 0x10000.
    fn content_len_capped(&self) -> (n: usize)
        ensures
            n == min_int(self@.content().len() as int, 0x10000),
    {
        match self {
            ZigbeeIe::Rejoin { .. } => 10,
            ZigbeeIe::TxPower(_) => 1,
            ZigbeeIe::EbPayload { beacon_payload, .. } => {
                if beacon_payload.len() >= 0x10000 - 4 {
                    0x10000
                } else {
                    beacon_payload.len() + 4
                }
            },
            ZigbeeIe::Unknown { content, .. } => if content.len() >= 0x10000 {
                0x10000
            } else {
                content.len()
            },
        }
    }

    /// Appends the sub-IE; content of 64 octets or more cannot be
    /// represented in the six-bit length field.
    pub fn write(&self, out: &mut Vec<u8>) -> (r: Result<(), CodecError>)
        ensures
            !self@.fits() ==> r == Err::<(), CodecError>(CodecError::Unrepresentable { field: Field::ZigbeeSubIeLength })
                && final(out)@ == old(out)@,
            self@.fits() ==> r is Ok && final(out)@ == old(out)@ + self@.spec_encode(),
    {
        let n = self.content_len_capped();
        if n >= 64 {
            return Err(CodecError::Unrepresentable { field: Field::ZigbeeSubIeLength });
        }
        match self {
            ZigbeeIe::Rejoin { extended_pan_id, sender_short } => {
                push_u16_le(out, (10u16 | (ZIGBEE_SUB_REJOIN << 6)) as u16);
                push_u64_le(out, extended_pan_id.0);
                push_u16_le(out, sender_short.0);
            },
            ZigbeeIe::TxPower(p) => {
                push_u16_le(out, (1u16 | (ZIGBEE_SUB_TX_POWER << 6)) as u16);
                push_u8(out, *p as u8);
            },
            ZigbeeIe::EbPayload { beacon_payload, superframe, sender_short } => {
                push_u16_le(out, ((n as u16) | (ZIGBEE_SUB_EB_PAYLOAD << 6)) as u16);
                push_bytes(out, beacon_payload);
                push_u16_le(out, superframe.to_raw());
                push_u16_le(out, sender_short.0);
            },
            ZigbeeIe::Unknown { sub_id, content } => {
                push_u16_le(out, ((n as u16) | (*sub_id << 6)) as u16);
                push_bytes(out, content);
            },
        }
        assert(out@ =~= old(out)@ + self@.spec_encode());
        Ok(())
    }
}

/// The Zigbee sub-IEs of a list from `pos` on, up to the first that does
/// not parse.
pub open spec fn zsubs_from(r: Seq<u8>, pos: int) -> Seq<ZigbeeIeView>
    decreases r.len() - pos,
{
    if pos < 0 || pos + 2 > r.len() {
        Seq::empty()
    } else {
        let word = le16(r, pos);
        let start = pos + 2;
        let end = min_int(start + (word & 0x3F) as int, r.len() as int);
        match spec_parse_zigbee_ie(word >> 6, r.subrange(start, end)) {
            Ok(z) => seq![z] + zsubs_from(r, end),
            Err(_) => Seq::empty(),
        }
    }
}

/// The content starts with the Zigbee OUI.
pub open spec fn has_zigbee_oui(c: Seq<u8>) -> bool {
    c.len() >= 3 && c[0] == 0x1B && c[1] == 0x19 && c[2] == 0x4A
}

/// The Zigbee sub-IEs of a vendor specific IE's content; `None` for
/// another vendor.
pub open spec fn spec_zigbee_ies(c: Seq<u8>) -> Option<Seq<ZigbeeIeView>> {
    if has_zigbee_oui(c) {
        Some(zsubs_from(c.subrange(3, c.len() as int), 0))
    } else {
        None
    }
}

/// The views of Zigbee sub-IEs.
pub open spec fn zigbee_ie_views<'a>(v: Seq<ZigbeeIe<'a>>) -> Seq<ZigbeeIeView> {
    v.map_values(|z: ZigbeeIe<'a>| z@)
}

/// The Zigbee sub-IEs of a vendor specific payload IE with the Zigbee OUI
/// (up to the first sub-IE that does not parse); `None` for any other
/// vendor.
pub fn zigbee_ies<'a>(vendor_content: &'a [u8]) -> (r: Option<Vec<ZigbeeIe<'a>>>)
    ensures
        match spec_zigbee_ies(vendor_content@) {
            Some(zs) => r matches Some(v) && zigbee_ie_views(v@) == zs,
            None => r is None,
        },
{
    if vendor_content.len() < 3 || vendor_content[0] != 0x1B || vendor_content[1] != 0x19 || vendor_content[2]
        != 0x4A {
        return None;
    }
    let rest = vstd::slice::slice_subrange(vendor_content, 3, vendor_content.len());
    let mut v: Vec<ZigbeeIe<'a>> = Vec::new();
    let mut pos: usize = 0;
    while rest.len() - pos >= 2
        invariant
            pos <= rest@.len(),
            has_zigbee_oui(vendor_content@),
            rest@ == vendor_content@.subrange(3, vendor_content@.len() as int),
            zsubs_from(rest@, 0) == zigbee_ie_views(v@) + zsubs_from(rest@, pos as int),
        decreases rest@.len() - pos,
    {
        let word = ((rest[pos] as u16) | ((rest[pos + 1] as u16) << 8)) as u16;
        assert(word == le16(rest@, pos as int));
        let len = (word & 0x3F) as usize;
        let start = pos + 2;
        let end = if rest.len() - start < len { rest.len() } else { start + len };
        let sub = vstd::slice::slice_subrange(rest, start, end);
        match ZigbeeIe::parse(word >> 6, sub) {
            Ok(z) => {
                let ghost old_v = v@;
                v.push(z);
                proof {
                    assert(zigbee_ie_views(v@) =~= zigbee_ie_views(old_v).push(z@));
                    assert(zigbee_ie_views(old_v) + zsubs_from(rest@, pos as int) =~= zigbee_ie_views(v@)
                        + zsubs_from(rest@, end as int));
                }
                pos = end;
            },
            Err(_) => {
                proof {
                    assert(sub@ == rest@.subrange(start as int, end as int));
                    assert(spec_parse_zigbee_ie(word >> 6, rest@.subrange(start as int, end as int)) is Err);
                    assert(zsubs_from(rest@, pos as int) =~= Seq::<ZigbeeIeView>::empty());
                    assert(zigbee_ie_views(v@) + zsubs_from(rest@, pos as int) =~= zigbee_ie_views(v@));
                }
                return Some(v);
            },
        }
    }
    proof {
        assert(zigbee_ie_views(v@) + zsubs_from(rest@, pos as int) =~= zigbee_ie_views(v@));
    }
    Some(v)
}

/// Total length of the sub-IEs, headers included.
pub open spec fn zies_total(s: Seq<ZigbeeIeView>) -> int
    decreases s.len(),
{
    if s.len() == 0 {
        0
    } else {
        zies_total(s.drop_last()) + 2 + s.last().content().len()
    }
}

/// The octets of the sub-IEs in order.
pub open spec fn zies_bytes(s: Seq<ZigbeeIeView>) -> Seq<u8>
    decreases s.len(),
{
    if s.len() == 0 {
        Seq::empty()
    } else {
        zies_bytes(s.drop_last()) + s.last().spec_encode()
    }
}

/// The octets of a Zigbee Payload IE holding the given sub-IEs.
pub open spec fn spec_zigbee_payload_ie(s: Seq<ZigbeeIeView>) -> Seq<u8> {
    u16_bytes((0x8000u16 | ((GROUP_VENDOR as u16) << 11) | ((3 + zies_total(s)) as u16)) as u16) + seq![
        0x1Bu8,
        0x19u8,
        0x4Au8,
    ] + zies_bytes(s)
}

/// Appends a Zigbee Payload IE holding `ies`; fails when the total length
/// does not fit 16 bits or a sub-IE is too long, leaving `out` unchanged.
pub fn write_zigbee_ie(out: &mut Vec<u8>, ies: &[ZigbeeIe]) -> (r: Result<(), CodecError>)
    ensures
        ({
            let s = zigbee_ie_views(ies@);
            if 3 + zies_total(s) > 0xFFFF {
                r == Err::<(), CodecError>(CodecError::Unrepresentable { field: Field::ZigbeePayloadIeLength })
                    && final(out)@ == old(out)@
            } else if exists|i: int| 0 <= i < s.len() && !(#[trigger] s[i]).fits() {
                r == Err::<(), CodecError>(CodecError::Unrepresentable { field: Field::ZigbeeSubIeLength })
                    && final(out)@ == old(out)@
            } else {
                r is Ok && final(out)@ == old(out)@ + spec_zigbee_payload_ie(s)
            }
        }),
{
    let ghost s = zigbee_ie_views(ies@);
    let mut total: usize = 3;
    let mut i: usize = 0;
    while i < ies.len()
        invariant
            i <= ies@.len(),
            s == zigbee_ie_views(ies@),
            total == min_int(3 + zies_total(s.take(i as int)), 0x10000),
        decreases ies@.len() - i,
    {
        let n = ies[i].content_len_capped();
        proof {
            assert(s.take(i + 1).drop_last() =~= s.take(i as int));
            assert(s.take(i + 1).last() == s[i as int]);
        }
        total = if 0x10000 - total < 2 + n { 0x10000 } else { total + 2 + n };
        i = i + 1;
    }
    assert(s.take(i as int) =~= s);
    if total > 0xFFFF {
        return Err(CodecError::Unrepresentable { field: Field::ZigbeePayloadIeLength });
    }
    let mut j: usize = 0;
    while j < ies.len()
        invariant
            j <= ies@.len(),
            s == zigbee_ie_views(ies@),
            total == min_int(3 + zies_total(s), 0x10000),
            total <= 0xFFFF,
            forall|k: int| 0 <= k < j ==> (#[trigger] s[k]).fits(),
        decreases ies@.len() - j,
    {
        if ies[j].content_len_capped() >= 64 {
            proof {
                assert(!s[j as int].fits());
            }
            return Err(CodecError::Unrepresentable { field: Field::ZigbeeSubIeLength });
        }
        j = j + 1;
    }
    push_u16_le(out, (0x8000u16 | ((GROUP_VENDOR as u16) << 11) | (total as u16)) as u16);
    push_u8(out, 0x1B);
    push_u8(out, 0x19);
    push_u8(out, 0x4A);
    let ghost head = out@;
    assert(head =~= old(out)@ + u16_bytes((0x8000u16 | ((GROUP_VENDOR as u16) << 11) | (total as u16)) as u16) + seq![
        0x1Bu8,
        0x19u8,
        0x4Au8,
    ]);
    let mut k: usize = 0;
    while k < ies.len()
        invariant
            k <= ies@.len(),
            s == zigbee_ie_views(ies@),
            forall|m: int| 0 <= m < s.len() ==> (#[trigger] s[m]).fits(),
            total == min_int(3 + zies_total(s), 0x10000),
            total <= 0xFFFF,
            head == old(out)@ + u16_bytes((0x8000u16 | ((GROUP_VENDOR as u16) << 11) | (total as u16)) as u16) + seq![
                0x1Bu8,
                0x19u8,
                0x4Au8,
            ],
            out@ == head + zies_bytes(s.take(k as int)),
        decreases ies@.len() - k,
    {
        let ghost before = out@;
        let w = ies[k].write(out);
        proof {
            assert(s.take(k + 1).drop_last() =~= s.take(k as int));
            assert(s.take(k + 1).last() == s[k as int]);
            assert(out@ =~= head + zies_bytes(s.take(k + 1)));
        }
        k = k + 1;
    }
    assert(s.take(k as int) =~= s);
    assert(out@ =~= old(out)@ + spec_zigbee_payload_ie(s));
    Ok(())
}

/// The interpreted content of an Enhanced Beacon Request: joining
/// requests carry the EB Filter IE, rejoin requests the Rejoin IE; both
/// carry the TX Power IE when power control is used.
#[derive(Clone, Copy, PartialEq, Eq, Debug)]
pub struct EnhancedBeaconRequest {
    /// EB Filter IE (joining).
    pub filter: Option<EbFilter>,
    /// Rejoin IE (rejoining).
    pub rejoin: Option<(ExtendedAddress, ShortAddress)>,
    /// TX Power IE.
    pub tx_power: Option<i8>,
}

impl Default for EnhancedBeaconRequest {
    fn default() -> (r: Self)
        ensures
            r == EnhancedBeaconRequest::spec_empty(),
    {
        EnhancedBeaconRequest { filter: None, rejoin: None, tx_power: None }
    }
}

/// Applies Zigbee sub-IEs to a request: the last Rejoin and TX Power IE
/// win; others are ignored.
pub open spec fn ebr_apply_zigbee(zs: Seq<ZigbeeIeView>, acc: EnhancedBeaconRequest) -> EnhancedBeaconRequest
    decreases zs.len(),
{
    if zs.len() == 0 {
        acc
    } else {
        let next = match zs[0] {
            ZigbeeIeView::Rejoin { extended_pan_id, sender_short } => EnhancedBeaconRequest {
                rejoin: Some((extended_pan_id, sender_short)),
                ..acc
            },
            ZigbeeIeView::TxPower(p) => EnhancedBeaconRequest { tx_power: Some(p), ..acc },
            _ => acc,
        };
        ebr_apply_zigbee(zs.drop_first(), next)
    }
}

/// Applies MLME sub-IEs to a request: each EB Filter IE is parsed (the
/// last wins); a malformed one fails the whole parse.
pub open spec fn ebr_apply_mlme(subs: Seq<(u8, Seq<u8>)>, acc: EnhancedBeaconRequest) -> Result<EnhancedBeaconRequest, CodecError>
    decreases subs.len(),
{
    if subs.len() == 0 {
        Ok(acc)
    } else if subs[0].0 == SUB_ID_EB_FILTER {
        match spec_parse_eb_filter(subs[0].1) {
            Ok(f) => ebr_apply_mlme(subs.drop_first(), EnhancedBeaconRequest { filter: Some(f), ..acc }),
            Err(e) => Err(e),
        }
    } else {
        ebr_apply_mlme(subs.drop_first(), acc)
    }
}

/// Applies one payload IE to a request.
pub open spec fn ebr_apply_ie(ie: PayloadIeView, acc: EnhancedBeaconRequest) -> Result<EnhancedBeaconRequest, CodecError> {
    if ie.group == GROUP_MLME {
        ebr_apply_mlme(mlme_subs_from(ie.content, 0), acc)
    } else if ie.group == GROUP_VENDOR {
        Ok(
            match spec_zigbee_ies(ie.content) {
                Some(zs) => ebr_apply_zigbee(zs, acc),
                None => acc,
            },
        )
    } else {
        Ok(acc)
    }
}

/// Applies payload IEs to a request in order.
pub open spec fn ebr_apply_ies(ies: Seq<PayloadIeView>, acc: EnhancedBeaconRequest) -> Result<EnhancedBeaconRequest, CodecError>
    decreases ies.len(),
{
    if ies.len() == 0 {
        Ok(acc)
    } else {
        match ebr_apply_ie(ies[0], acc) {
            Ok(a) => ebr_apply_ies(ies.drop_first(), a),
            Err(e) => Err(e),
        }
    }
}

/// The request the MAC payload of a version 2 Beacon Request denotes.
pub open spec fn spec_parse_ebr(payload: Seq<u8>) -> Result<EnhancedBeaconRequest, CodecError> {
    match spec_split_payload_ies(payload) {
        Err(e) => Err(e),
        Ok((ies, rest)) => if rest.len() == 0 || rest[0] != BEACON_REQUEST_ID {
            Err(CodecError::InvalidField { field: Field::MacCommand, value: if rest.len() == 0 { 0 } else { rest[0] as u32 } })
        } else {
            ebr_apply_ies(ies_from(ies, 0), EnhancedBeaconRequest::spec_empty())
        },
    }
}

/// Skipping one more element of a sequence drops the element at the
/// current position.
proof fn lemma_skip_step<A>(s: Seq<A>, i: int)
    requires
        0 <= i < s.len(),
    ensures
        s.skip(i)[0] == s[i],
        s.skip(i).drop_first() == s.skip(i + 1),
        s.skip(i).len() > 0,
{
    assert(s.skip(i).drop_first() =~= s.skip(i + 1));
}

/// Applies Zigbee sub-IEs to a request.
fn apply_zigbee(zs: &Vec<ZigbeeIe>, acc: EnhancedBeaconRequest) -> (r: EnhancedBeaconRequest)
    ensures
        r == ebr_apply_zigbee(zigbee_ie_views(zs@), acc),
{
    let ghost s = zigbee_ie_views(zs@);
    assert(s.skip(0) =~= s);
    let mut a = acc;
    let mut i: usize = 0;
    while i < zs.len()
        invariant
            i <= zs@.len(),
            s == zigbee_ie_views(zs@),
            ebr_apply_zigbee(s, acc) == ebr_apply_zigbee(s.skip(i as int), a),
        decreases zs@.len() - i,
    {
        proof {
            lemma_skip_step(s, i as int);
        }
        match zs[i] {
            ZigbeeIe::Rejoin { extended_pan_id, sender_short } => {
                a = EnhancedBeaconRequest { rejoin: Some((extended_pan_id, sender_short)), ..a };
            },
            ZigbeeIe::TxPower(p) => {
                a = EnhancedBeaconRequest { tx_power: Some(p), ..a };
            },
            _ => {},
        }
        i = i + 1;
    }
    assert(s.skip(i as int) =~= Seq::<ZigbeeIeView>::empty());
    a
}

/// Applies MLME sub-IEs to a request.
fn apply_mlme(subs: &Vec<(u8, &[u8])>, acc: EnhancedBeaconRequest) -> (r: Result<EnhancedBeaconRequest, CodecError>)
    ensures
        r == ebr_apply_mlme(mlme_sub_views(subs@), acc),
{
    let ghost s = mlme_sub_views(subs@);
    assert(s.skip(0) =~= s);
    let mut a = acc;
    let mut i: usize = 0;
    while i < subs.len()
        invariant
            i <= subs@.len(),
            s == mlme_sub_views(subs@),
            ebr_apply_mlme(s, acc) == ebr_apply_mlme(s.skip(i as int), a),
        decreases subs@.len() - i,
    {
        proof {
            lemma_skip_step(s, i as int);
        }
        let (id, content) = subs[i];
        if id == SUB_ID_EB_FILTER {
            match EbFilter::parse(content) {
                Ok(f) => {
                    a = EnhancedBeaconRequest { filter: Some(f), ..a };
                },
                Err(e) => return Err(e),
            }
        }
        i = i + 1;
    }
    assert(s.skip(i as int) =~= Seq::<(u8, Seq<u8>)>::empty());
    Ok(a)
}

impl EnhancedBeaconRequest {
    /// A request with no IE.
    pub open spec fn spec_empty() -> EnhancedBeaconRequest {
        EnhancedBeaconRequest { filter: None, rejoin: None, tx_power: None }
    }

    /// The MLME nested IE content holding the EB Filter sub-IE.
    pub open spec fn spec_filter_content(f: EbFilter) -> Seq<u8> {
        u16_bytes((((SUB_ID_EB_FILTER as u16) << 8) | (f.spec_encode().len() as u16)) as u16) + f.spec_encode()
    }

    /// The Zigbee sub-IEs the request carries.
    pub open spec fn spec_zigbee_subs(self) -> Seq<ZigbeeIeView> {
        let r = match self.rejoin {
            Some((e, s)) => seq![ZigbeeIeView::Rejoin { extended_pan_id: e, sender_short: s }],
            None => Seq::empty(),
        };
        let t = match self.tx_power {
            Some(p) => seq![ZigbeeIeView::TxPower(p)],
            None => Seq::empty(),
        };
        r + t
    }

    /// The MAC payload: the filter IE, the Zigbee IE, the termination
    /// and the command identifier.
    pub open spec fn spec_encode(self) -> Seq<u8> {
        let f = match self.filter {
            Some(f) => spec_payload_ie(GROUP_MLME, Self::spec_filter_content(f)),
            None => Seq::empty(),
        };
        let z = if self.spec_zigbee_subs().len() > 0 {
            spec_zigbee_payload_ie(self.spec_zigbee_subs())
        } else {
            Seq::empty()
        };
        f + z + u16_bytes(PAYLOAD_TERMINATION) + seq![BEACON_REQUEST_ID]
    }

    /// The request of a joining device.
    pub fn joining(tx_power: Option<i8>) -> (r: EnhancedBeaconRequest)
        ensures
            r == (EnhancedBeaconRequest { filter: Some(EbFilter::spec_joining()), rejoin: None, tx_power }),
    {
        EnhancedBeaconRequest { filter: Some(EbFilter::joining()), rejoin: None, tx_power }
    }

    /// The request of a rejoining device.
    pub fn rejoining(extended_pan_id: ExtendedAddress, short: ShortAddress, tx_power: Option<i8>) -> (r: EnhancedBeaconRequest)
        ensures
            r == (EnhancedBeaconRequest { filter: None, rejoin: Some((extended_pan_id, short)), tx_power }),
    {
        EnhancedBeaconRequest { filter: None, rejoin: Some((extended_pan_id, short)), tx_power }
    }

    /// Parses the MAC payload of a version 2 Beacon Request command frame
    /// (payload IEs, termination, command identifier).
    pub fn parse(payload: &[u8]) -> (r: Result<EnhancedBeaconRequest, CodecError>)
        ensures
            r == spec_parse_ebr(payload@),
    {
        let (ies, rest) = match split_payload_ies(payload) {
            Ok(v) => v,
            Err(e) => return Err(e),
        };
        if rest.len() == 0 || rest[0] != BEACON_REQUEST_ID {
            let v: u32 = if rest.len() == 0 { 0 } else { rest[0] as u32 };
            return Err(CodecError::InvalidField { field: Field::MacCommand, value: v });
        }
        let list = payload_ies(ies);
        let ghost s = payload_ie_views(list@);
        assert(s.skip(0) =~= s);
        let mut a = EnhancedBeaconRequest { filter: None, rejoin: None, tx_power: None };
        let mut i: usize = 0;
        while i < list.len()
            invariant
                i <= list@.len(),
                s == payload_ie_views(list@),
                spec_parse_ebr(payload@) == ebr_apply_ies(s.skip(i as int), a),
            decreases list@.len() - i,
        {
            proof {
                lemma_skip_step(s, i as int);
            }
            let ie = list[i];
            if ie.group == GROUP_MLME {
                let subs = mlme_short_ies(ie.content);
                a = match apply_mlme(&subs, a) {
                    Ok(v) => v,
                    Err(e) => return Err(e),
                };
            } else if ie.group == GROUP_VENDOR {
                match zigbee_ies(ie.content) {
                    Some(zs) => {
                        a = apply_zigbee(&zs, a);
                    },
                    None => {},
                }
            }
            i = i + 1;
        }
        assert(s.skip(i as int) =~= Seq::<PayloadIeView>::empty());
        Ok(a)
    }

    /// Length of the MAC payload.
    pub fn encoded_len(&self) -> (n: usize)
        ensures
            n == self.spec_encode().len(),
    {
        let filter: usize = match self.filter {
            Some(f) => 4 + f.encoded_len(),
            None => 0,
        };
        let zigbee: usize = if self.rejoin.is_none() && self.tx_power.is_none() {
            0
        } else {
            let r: usize = if self.rejoin.is_some() { 12 } else { 0 };
            let t: usize = if self.tx_power.is_some() { 3 } else { 0 };
            proof {
                let zs = self.spec_zigbee_subs();
                reveal_with_fuel(zies_total, 3);
                reveal_with_fuel(zies_bytes, 3);
                assert(zs.len() <= 2);
                if zs.len() == 2 {
                    assert(zs.drop_last().drop_last() =~= Seq::<ZigbeeIeView>::empty());
                } else if zs.len() == 1 {
                    assert(zs.drop_last() =~= Seq::<ZigbeeIeView>::empty());
                }
            }
            5 + r + t
        };
        filter + zigbee + 3
    }

    /// Appends the MAC payload (payload IEs, termination and command
    /// identifier); the header carries [`HEADER_TERMINATION_1`].
    pub fn write(&self, out: &mut Vec<u8>) -> (r: Result<(), CodecError>)
        ensures
            r is Ok,
            final(out)@ == old(out)@ + self.spec_encode(),
    {
        if let Some(f) = self.filter {
            let mut content: Vec<u8> = Vec::new();
            push_u16_le(&mut content, ((SUB_ID_EB_FILTER as u16) << 8) | (f.encoded_len() as u16));
            f.write(&mut content);
            let _ = write_payload_ie(out, GROUP_MLME, content.as_slice());
        }
        let mut z: Vec<ZigbeeIe> = Vec::new();
        if let Some((epid, short)) = self.rejoin {
            z.push(ZigbeeIe::Rejoin { extended_pan_id: epid, sender_short: short });
        }
        if let Some(p) = self.tx_power {
            z.push(ZigbeeIe::TxPower(p));
        }
        proof {
            let zs = self.spec_zigbee_subs();
            assert(zigbee_ie_views(z@) =~= zs);
            reveal_with_fuel(zies_total, 3);
            assert(zs.len() <= 2);
            if zs.len() == 2 {
                assert(zs.drop_last().drop_last() =~= Seq::<ZigbeeIeView>::empty());
            } else if zs.len() == 1 {
                assert(zs.drop_last() =~= Seq::<ZigbeeIeView>::empty());
            }
            assert(forall|i: int| 0 <= i < zs.len() ==> (#[trigger] zs[i]).fits());
        }
        if z.len() > 0 {
            let _ = write_zigbee_ie(out, z.as_slice());
        }
        push_u16_le(out, PAYLOAD_TERMINATION);
        push_u8(out, BEACON_REQUEST_ID);
        assert(out@ =~= old(out)@ + self.spec_encode());
        Ok(())
    }
}

/// What an Enhanced Beacon's IEs have told so far: the EB Payload IE's
/// fields and the TX Power.
pub type EbAcc = (Option<(Seq<u8>, SuperframeSpec, ShortAddress)>, Option<i8>);

/// Applies Zigbee sub-IEs: the last EB Payload and TX Power IE win.
pub open spec fn eb_apply_zigbee(zs: Seq<ZigbeeIeView>, acc: EbAcc) -> EbAcc
    decreases zs.len(),
{
    if zs.len() == 0 {
        acc
    } else {
        let next = match zs[0] {
            ZigbeeIeView::EbPayload { beacon_payload, superframe, sender_short } => (
                Some((beacon_payload, superframe, sender_short)),
                acc.1,
            ),
            ZigbeeIeView::TxPower(p) => (acc.0, Some(p)),
            _ => acc,
        };
        eb_apply_zigbee(zs.drop_first(), next)
    }
}

/// Applies the vendor specific payload IEs in order.
pub open spec fn eb_apply_ies(ies: Seq<PayloadIeView>, acc: EbAcc) -> EbAcc
    decreases ies.len(),
{
    if ies.len() == 0 {
        acc
    } else {
        let next = if ies[0].group != GROUP_VENDOR {
            acc
        } else {
            match spec_zigbee_ies(ies[0].content) {
                Some(zs) => eb_apply_zigbee(zs, acc),
                None => acc,
            }
        };
        eb_apply_ies(ies.drop_first(), next)
    }
}

/// The interpreted content of an Enhanced Beacon: the standard beacon
/// information in the EB Payload IE and the TX Power IE.
#[derive(Clone, Copy, PartialEq, Eq, Debug)]
pub struct EnhancedBeacon<'a> {
    /// The Zigbee beacon payload.
    pub beacon_payload: &'a [u8],
    /// Superframe specification.
    pub superframe: SuperframeSpec,
    /// Network address of the beaconing device.
    pub sender_short: ShortAddress,
    /// TX Power IE.
    pub tx_power: Option<i8>,
}

/// The mathematical content of an [`EnhancedBeacon`].
pub struct EnhancedBeaconView {
    /// The Zigbee beacon payload.
    pub beacon_payload: Seq<u8>,
    /// Superframe specification.
    pub superframe: SuperframeSpec,
    /// Network address of the beaconing device.
    pub sender_short: ShortAddress,
    /// TX Power IE.
    pub tx_power: Option<i8>,
}

impl<'a> View for EnhancedBeacon<'a> {
    type V = EnhancedBeaconView;

    open spec fn view(&self) -> EnhancedBeaconView {
        EnhancedBeaconView {
            beacon_payload: self.beacon_payload@,
            superframe: self.superframe,
            sender_short: self.sender_short,
            tx_power: self.tx_power,
        }
    }
}

/// The Enhanced Beacon the MAC payload of a version 2 beacon denotes.
pub open spec fn spec_parse_eb(payload: Seq<u8>) -> Result<EnhancedBeaconView, CodecError> {
    match spec_split_payload_ies(payload) {
        Err(e) => Err(e),
        Ok((ies, _)) => {
            let acc = eb_apply_ies(ies_from(ies, 0), (None, None));
            match acc.0 {
                Some((beacon_payload, superframe, sender_short)) => Ok(
                    EnhancedBeaconView { beacon_payload, superframe, sender_short, tx_power: acc.1 },
                ),
                None => Err(CodecError::InvalidField { field: Field::EbPayloadIe, value: 0 }),
            }
        },
    }
}

/// The spec view of an exec accumulator.
pub open spec fn eb_acc_view<'a>(a: (Option<(&'a [u8], SuperframeSpec, ShortAddress)>, Option<i8>)) -> EbAcc {
    (
        match a.0 {
            Some((b, f, s)) => Some((b@, f, s)),
            None => None,
        },
        a.1,
    )
}

impl EnhancedBeaconView {
    /// The Zigbee sub-IEs the beacon carries.
    pub open spec fn spec_zigbee_subs(self) -> Seq<ZigbeeIeView> {
        let e = seq![
            ZigbeeIeView::EbPayload {
                beacon_payload: self.beacon_payload,
                superframe: self.superframe,
                sender_short: self.sender_short,
            },
        ];
        match self.tx_power {
            Some(p) => e.push(ZigbeeIeView::TxPower(p)),
            None => e,
        }
    }

    /// The MAC payload: the Zigbee IE and the termination.
    pub open spec fn spec_encode(self) -> Seq<u8> {
        spec_zigbee_payload_ie(self.spec_zigbee_subs()) + u16_bytes(PAYLOAD_TERMINATION)
    }
}

impl<'a> EnhancedBeacon<'a> {
    /// Parses the MAC payload of a version 2 beacon frame; the EB Payload
    /// IE is mandatory.
    pub fn parse(payload: &'a [u8]) -> (r: Result<EnhancedBeacon<'a>, CodecError>)
        ensures
            match spec_parse_eb(payload@) {
                Ok(v) => r matches Ok(b) && b@ == v,
                Err(e) => r == Err::<EnhancedBeacon<'a>, CodecError>(e),
            },
    {
        let (ies, _rest) = match split_payload_ies(payload) {
            Ok(v) => v,
            Err(e) => return Err(e),
        };
        let list = payload_ies(ies);
        let ghost s = payload_ie_views(list@);
        assert(s.skip(0) =~= s);
        let mut eb: Option<(&'a [u8], SuperframeSpec, ShortAddress)> = None;
        let mut tx_power: Option<i8> = None;
        let mut i: usize = 0;
        while i < list.len()
            invariant
                i <= list@.len(),
                s == payload_ie_views(list@),
                eb_apply_ies(s, (None, None)) == eb_apply_ies(s.skip(i as int), eb_acc_view((eb, tx_power))),
            decreases list@.len() - i,
        {
            proof {
                lemma_skip_step(s, i as int);
            }
            let ie = list[i];
            if ie.group == GROUP_VENDOR {
                match zigbee_ies(ie.content) {
                    Some(zs) => {
                        let ghost zv = zigbee_ie_views(zs@);
                        assert(zv.skip(0) =~= zv);
                        let ghost before = eb_acc_view((eb, tx_power));
                        let mut k: usize = 0;
                        while k < zs.len()
                            invariant
                                k <= zs@.len(),
                                zv == zigbee_ie_views(zs@),
                                eb_apply_zigbee(zv, before) == eb_apply_zigbee(zv.skip(k as int), eb_acc_view((eb, tx_power))),
                            decreases zs@.len() - k,
                        {
                            proof {
                                lemma_skip_step(zv, k as int);
                            }
                            match zs[k] {
                                ZigbeeIe::EbPayload { beacon_payload, superframe, sender_short } => {
                                    eb = Some((beacon_payload, superframe, sender_short));
                                },
                                ZigbeeIe::TxPower(p) => {
                                    tx_power = Some(p);
                                },
                                _ => {},
                            }
                            k = k + 1;
                        }
                        assert(zv.skip(k as int) =~= Seq::<ZigbeeIeView>::empty());
                    },
                    None => {},
                }
            }
            i = i + 1;
        }
        assert(s.skip(i as int) =~= Seq::<PayloadIeView>::empty());
        match eb {
            Some((beacon_payload, superframe, sender_short)) => Ok(
                EnhancedBeacon { beacon_payload, superframe, sender_short, tx_power },
            ),
            None => Err(CodecError::InvalidField { field: Field::EbPayloadIe, value: 0 }),
        }
    }

    /// Length of the MAC payload.
    pub fn encoded_len(&self) -> (n: usize)
        requires
            self.beacon_payload@.len() <= 0xFFFF,
        ensures
            n == 5 + 2 + self.beacon_payload@.len() + 4 + (if self.tx_power is Some { 3int } else { 0 }) + 2,
    {
        let t: usize = if self.tx_power.is_some() { 3 } else { 0 };
        5 + 2 + self.beacon_payload.len() + 4 + t + 2
    }

    /// Appends the MAC payload (payload IEs and termination); a beacon
    /// payload of 60 octets or more does not fit the EB Payload sub-IE.
    pub fn write(&self, out: &mut Vec<u8>) -> (r: Result<(), CodecError>)
        ensures
            ({
                let zs = self@.spec_zigbee_subs();
                if 3 + zies_total(zs) > 0xFFFF {
                    r == Err::<(), CodecError>(CodecError::Unrepresentable { field: Field::ZigbeePayloadIeLength })
                        && final(out)@ == old(out)@
                } else if self.beacon_payload@.len() + 4 >= 64 {
                    r == Err::<(), CodecError>(CodecError::Unrepresentable { field: Field::ZigbeeSubIeLength })
                        && final(out)@ == old(out)@
                } else {
                    r is Ok && final(out)@ == old(out)@ + self@.spec_encode()
                }
            }),
    {
        let mut z: Vec<ZigbeeIe> = Vec::new();
        z.push(
            ZigbeeIe::EbPayload {
                beacon_payload: self.beacon_payload,
                superframe: self.superframe,
                sender_short: self.sender_short,
            },
        );
        if let Some(p) = self.tx_power {
            z.push(ZigbeeIe::TxPower(p));
        }
        proof {
            let zs = self@.spec_zigbee_subs();
            assert(zigbee_ie_views(z@) =~= zs);
            assert(zs[0].content().len() == self.beacon_payload@.len() + 4);
            if self.beacon_payload@.len() + 4 < 64 {
                assert(forall|i: int| 0 <= i < zs.len() ==> (#[trigger] zs[i]).fits());
            } else {
                assert(!zs[0].fits());
            }
        }
        match write_zigbee_ie(out, z.as_slice()) {
            Ok(()) => {},
            Err(e) => return Err(e),
        }
        push_u16_le(out, PAYLOAD_TERMINATION);
        assert(out@ =~= old(out)@ + self@.spec_encode());
        Ok(())
    }
}


/// The header word of a payload IE reads back its type bit, group and
/// length.
proof fn lemma_payload_ie_word(group: u8, len: int)
    requires
        0 <= len <= 0x07FF,
    ensures
        ({
            let w = (0x8000u16 | (((group & 0xF) as u16) << 11) | (len as u16)) as u16;
            &&& w & 0x8000 != 0
            &&& (w >> 11) & 0xF == ((group & 0xF) as u16)
            &&& (w & 0x07FF) as int == len
        }),
{
    let l = len as u16;
    let g = group;
    let w = (0x8000u16 | (((g & 0xF) as u16) << 11) | l) as u16;
    assert(w & 0x8000 != 0 && (w >> 11) & 0xF == ((g & 0xF) as u16) && (w & 0x07FF) == l) by (bit_vector)
        requires
            l <= 0x07FF,
            w == (0x8000u16 | (((g & 0xF) as u16) << 11) | l) as u16,
    ;
}

/// Stepping over a (non-termination) payload IE standing at `pos`.
proof fn lemma_payload_ie_at(s: Seq<u8>, pos: int, group: u8, content: Seq<u8>)
    requires
        0 <= pos,
        pos + 2 + content.len() <= s.len(),
        s.subrange(pos, pos + 2 + content.len()) == spec_payload_ie(group, content),
        content.len() <= 0x07FF,
        group & 0xF != 0xF,
    ensures
        split_from(s, pos) == split_from(s, pos + 2 + content.len()),
        ies_from(s, pos) == seq![PayloadIeView { group: group & 0xF, content }] + ies_from(s, pos + 2 + content.len()),
{
    let w = (0x8000u16 | (((group & 0xF) as u16) << 11) | (content.len() as u16)) as u16;
    lemma_payload_ie_word(group, content.len() as int);
    assert(s.subrange(pos, pos + 2) =~= u16_bytes(w));
    crate::codec::lemma_le16_at(s, pos, w);
    let g = group;
    assert(((((w >> 11) & 0xF) as u8) == (g & 0xF)) && ((g & 0xF) as u16 != 0xF)) by (bit_vector)
        requires
            (w >> 11) & 0xF == ((g & 0xF) as u16),
            g & 0xF != 0xF,
    ;
    let t = s.subrange(pos, pos + 2 + content.len());
    assert(s.subrange(pos + 2, pos + 2 + content.len()) =~= t.subrange(2, 2 + content.len() as int));
    assert(spec_payload_ie(group, content).subrange(2, 2 + content.len() as int) =~= content);
}

/// A payload termination IE at `pos` ends the list there.
proof fn lemma_payload_termination_at(s: Seq<u8>, pos: int)
    requires
        0 <= pos,
        pos + 2 <= s.len(),
        s.subrange(pos, pos + 2) == u16_bytes(PAYLOAD_TERMINATION),
    ensures
        split_from(s, pos) == Ok::<(int, int), CodecError>((pos, pos + 2)),
{
    crate::codec::lemma_le16_at(s, pos, PAYLOAD_TERMINATION);
    let w = PAYLOAD_TERMINATION;
    assert(w & 0x8000 != 0 && (w >> 11) & 0xF == 0xF) by (bit_vector)
        requires
            w == 0xF800u16,
    ;
}

/// A sub-IE header word reads back its length and sub-ID.
proof fn lemma_zsub_word(len: int, id: u16)
    requires
        0 <= len < 64,
        id < 1024,
    ensures
        ({
            let w = ((len as u16) | (id << 6)) as u16;
            (w & 0x3F) as int == len && (w >> 6) == id
        }),
{
    let l = len as u16;
    let w = (l | (id << 6)) as u16;
    assert((w & 0x3F) == l && (w >> 6) == id) by (bit_vector)
        requires
            l < 64,
            id < 1024,
            w == (l | (id << 6)) as u16,
    ;
}

/// The Zigbee sub-IEs the library writes parse back from their content.
proof fn lemma_zigbee_ie_parse(z: ZigbeeIeView)
    requires
        z.fits(),
        z is Rejoin || z is TxPower || (z matches ZigbeeIeView::EbPayload { superframe, .. } && superframe.wf()),
    ensures
        spec_parse_zigbee_ie(z.sub_id(), z.content()) == Ok::<ZigbeeIeView, CodecError>(z),
{
    let c = z.content();
    match z {
        ZigbeeIeView::Rejoin { extended_pan_id, sender_short } => {
            assert(c.subrange(0, 8) =~= u64_bytes(extended_pan_id.0));
            crate::codec::lemma_le64_at(c, 0, extended_pan_id.0);
            assert(c.subrange(8, 10) =~= u16_bytes(sender_short.0));
            crate::codec::lemma_le16_at(c, 8, sender_short.0);
        },
        ZigbeeIeView::TxPower(p) => {
            assert((p as u8) as i8 == p) by (bit_vector);
        },
        ZigbeeIeView::EbPayload { beacon_payload, superframe, sender_short } => {
            let n = beacon_payload.len() as int;
            assert(c.subrange(0, n) =~= beacon_payload);
            assert(c.subrange(n, n + 2) =~= u16_bytes(superframe.spec_to_raw()));
            crate::codec::lemma_le16_at(c, n, superframe.spec_to_raw());
            crate::mac::frame::lemma_superframe_round_trip(superframe, 0);
            assert(c.subrange(n + 2, n + 4) =~= u16_bytes(sender_short.0));
            crate::codec::lemma_le16_at(c, n + 2, sender_short.0);
        },
        _ => {},
    }
}

/// Stepping over a sub-IE standing at `pos` that parses back.
proof fn lemma_zsub_at(r: Seq<u8>, pos: int, z: ZigbeeIeView)
    requires
        0 <= pos,
        pos + z.spec_encode().len() <= r.len(),
        r.subrange(pos, pos + z.spec_encode().len()) == z.spec_encode(),
        z.fits(),
        z.sub_id() < 1024,
        spec_parse_zigbee_ie(z.sub_id(), z.content()) == Ok::<ZigbeeIeView, CodecError>(z),
    ensures
        zsubs_from(r, pos) == seq![z] + zsubs_from(r, pos + z.spec_encode().len()),
{
    let len = z.content().len() as int;
    let w = ((len as u16) | (z.sub_id() << 6)) as u16;
    lemma_zsub_word(len, z.sub_id());
    assert(r.subrange(pos, pos + 2) =~= u16_bytes(w));
    crate::codec::lemma_le16_at(r, pos, w);
    let t = r.subrange(pos, pos + z.spec_encode().len());
    assert(r.subrange(pos + 2, pos + 2 + len) =~= t.subrange(2, 2 + len));
    assert(z.spec_encode().subrange(2, 2 + len) =~= z.content());
}

/// The sub-IE parses back from its content and fits its header.
pub open spec fn zsub_round_trips(z: ZigbeeIeView) -> bool {
    z.fits() && z.sub_id() < 1024 && spec_parse_zigbee_ie(z.sub_id(), z.content()) == Ok::<ZigbeeIeView, CodecError>(z)
}

/// The octets of one or two sub-IEs.
proof fn lemma_zies_bytes_small(subs: Seq<ZigbeeIeView>)
    requires
        1 <= subs.len() <= 2,
    ensures
        subs.len() == 1 ==> zies_bytes(subs) == subs[0].spec_encode(),
        subs.len() == 2 ==> zies_bytes(subs) == subs[0].spec_encode() + subs[1].spec_encode(),
        zies_total(subs) == zies_bytes(subs).len(),
{
    reveal_with_fuel(zies_total, 3);
    reveal_with_fuel(zies_bytes, 3);
    if subs.len() == 1 {
        assert(subs.drop_last() =~= Seq::<ZigbeeIeView>::empty());
        assert(zies_bytes(subs) =~= subs[0].spec_encode());
    } else {
        assert(subs.drop_last().drop_last() =~= Seq::<ZigbeeIeView>::empty());
        assert(subs.drop_last() =~= seq![subs[0]]);
        assert(zies_bytes(subs.drop_last()) =~= subs[0].spec_encode());
    }
}

/// One sub-IE that parses back is all the content gives.
proof fn lemma_zsubs_one(a: ZigbeeIeView)
    requires
        zsub_round_trips(a),
    ensures
        zsubs_from(a.spec_encode(), 0) == seq![a],
{
    let r = a.spec_encode();
    assert(r.subrange(0, r.len() as int) =~= r);
    lemma_zsub_at(r, 0, a);
    assert(zsubs_from(r, r.len() as int) =~= Seq::<ZigbeeIeView>::empty());
    assert(seq![a] + Seq::<ZigbeeIeView>::empty() =~= seq![a]);
}

/// Two sub-IEs that parse back are all the content gives.
proof fn lemma_zsubs_two(a: ZigbeeIeView, b: ZigbeeIeView)
    requires
        zsub_round_trips(a),
        zsub_round_trips(b),
    ensures
        zsubs_from(a.spec_encode() + b.spec_encode(), 0) == seq![a, b],
{
    let r = a.spec_encode() + b.spec_encode();
    let p = a.spec_encode().len() as int;
    assert(r.subrange(0, p) =~= a.spec_encode());
    lemma_zsub_at(r, 0, a);
    assert(r.subrange(p, p + b.spec_encode().len()) =~= b.spec_encode());
    lemma_zsub_at(r, p, b);
    assert(zsubs_from(r, r.len() as int) =~= Seq::<ZigbeeIeView>::empty());
    assert(seq![a] + (seq![b] + Seq::<ZigbeeIeView>::empty()) =~= seq![a, b]);
}

/// The content of a Zigbee Payload IE holding one or two sub-IEs that
/// parse back gives them back.
proof fn lemma_zigbee_content(subs: Seq<ZigbeeIeView>)
    requires
        1 <= subs.len() <= 2,
        forall|i: int| 0 <= i < subs.len() ==> zsub_round_trips(#[trigger] subs[i]),
    ensures
        spec_zigbee_ies(seq![0x1Bu8, 0x19u8, 0x4Au8] + zies_bytes(subs)) == Some(subs),
{
    let c = seq![0x1Bu8, 0x19u8, 0x4Au8] + zies_bytes(subs);
    let r = zies_bytes(subs);
    assert(c.subrange(3, c.len() as int) =~= r);
    lemma_zies_bytes_small(subs);
    assert(zsub_round_trips(subs[0]));
    if subs.len() == 1 {
        lemma_zsubs_one(subs[0]);
        assert(seq![subs[0]] =~= subs);
    } else {
        assert(zsub_round_trips(subs[1]));
        lemma_zsubs_two(subs[0], subs[1]);
        assert(seq![subs[0], subs[1]] =~= subs);
    }
}

/// A Zigbee Payload IE is the vendor specific payload IE with the OUI and
/// the sub-IEs as content.
proof fn lemma_vendor_ie(subs: Seq<ZigbeeIeView>)
    requires
        3 + zies_bytes(subs).len() <= 0x07FF,
        zies_total(subs) == zies_bytes(subs).len(),
    ensures
        spec_zigbee_payload_ie(subs) == spec_payload_ie(GROUP_VENDOR, seq![0x1Bu8, 0x19u8, 0x4Au8] + zies_bytes(subs)),
        GROUP_VENDOR & 0xF != 0xF,
        GROUP_VENDOR & 0xF == GROUP_VENDOR,
{
    let content = seq![0x1Bu8, 0x19u8, 0x4Au8] + zies_bytes(subs);
    let g = GROUP_VENDOR;
    assert((g & 0xF) == g && (g & 0xF) != 0xF) by (bit_vector)
        requires
            g == 2u8,
    ;
    assert(content.len() == 3 + zies_total(subs));
    assert(spec_zigbee_payload_ie(subs) =~= spec_payload_ie(GROUP_VENDOR, content));
}

/// A MAC payload made of one payload IE and the termination IE splits
/// into that IE, with nothing after the termination.
proof fn lemma_single_ie_payload(group: u8, content: Seq<u8>, tail: Seq<u8>)
    requires
        content.len() <= 0x07FF,
        group & 0xF != 0xF,
    ensures
        ({
            let z = spec_payload_ie(group, content);
            &&& spec_split_payload_ies(z + u16_bytes(PAYLOAD_TERMINATION) + tail) == Ok::<(Seq<u8>, Seq<u8>), CodecError>((z, tail))
            &&& ies_from(z, 0) == seq![PayloadIeView { group: group & 0xF, content }]
        }),
{
    let z = spec_payload_ie(group, content);
    let s = z + u16_bytes(PAYLOAD_TERMINATION) + tail;
    let n = z.len() as int;
    assert(s.subrange(0, n) =~= z);
    lemma_payload_ie_at(s, 0, group, content);
    assert(s.subrange(n, n + 2) =~= u16_bytes(PAYLOAD_TERMINATION));
    lemma_payload_termination_at(s, n);
    assert(s.subrange(n + 2, s.len() as int) =~= tail);
    assert(z.subrange(0, n) =~= z);
    lemma_payload_ie_at(z, 0, group, content);
    assert(ies_from(z, n) =~= Seq::<PayloadIeView>::empty());
    assert(seq![PayloadIeView { group: group & 0xF, content }] + Seq::<PayloadIeView>::empty() =~= seq![
        PayloadIeView { group: group & 0xF, content },
    ]);
}

/// An Enhanced Beacon whose beacon payload fits the EB Payload sub-IE
/// parses back from the MAC payload it is written as.
pub proof fn lemma_enhanced_beacon_round_trip(eb: EnhancedBeaconView)
    requires
        eb.beacon_payload.len() + 4 < 64,
        eb.superframe.wf(),
    ensures
        spec_parse_eb(eb.spec_encode()) == Ok::<EnhancedBeaconView, CodecError>(eb),
{
    let subs = eb.spec_zigbee_subs();
    let e = ZigbeeIeView::EbPayload {
        beacon_payload: eb.beacon_payload,
        superframe: eb.superframe,
        sender_short: eb.sender_short,
    };
    lemma_zigbee_ie_parse(e);
    assert(zsub_round_trips(e));
    if let Some(p) = eb.tx_power {
        lemma_zigbee_ie_parse(ZigbeeIeView::TxPower(p));
        assert(zsub_round_trips(ZigbeeIeView::TxPower(p)));
    }
    assert(forall|i: int| 0 <= i < subs.len() ==> zsub_round_trips(#[trigger] subs[i]));
    lemma_zigbee_content(subs);
    lemma_zies_bytes_small(subs);
    lemma_vendor_ie(subs);
    let content = seq![0x1Bu8, 0x19u8, 0x4Au8] + zies_bytes(subs);
    lemma_single_ie_payload(GROUP_VENDOR, content, Seq::empty());
    assert(eb.spec_encode() =~= spec_payload_ie(GROUP_VENDOR, content) + u16_bytes(PAYLOAD_TERMINATION) + Seq::<
        u8,
    >::empty());
    let list = seq![PayloadIeView { group: GROUP_VENDOR, content }];
    assert(list.drop_first() =~= Seq::<PayloadIeView>::empty());
    let acc0: EbAcc = (None, None);
    reveal_with_fuel(eb_apply_ies, 2);
    reveal_with_fuel(eb_apply_zigbee, 3);
    assert(list[0].content == content);
    assert(eb_apply_ies(list, acc0) == eb_apply_zigbee(subs, acc0));
    if subs.len() == 1 {
        assert(subs.drop_first() =~= Seq::<ZigbeeIeView>::empty());
    } else {
        assert(subs.drop_first() =~= seq![subs[1]]);
        assert(subs.drop_first().drop_first() =~= Seq::<ZigbeeIeView>::empty());
    }
}

/// A MAC payload made of two payload IEs and the termination IE splits
/// into those IEs, with `tail` after the termination.
proof fn lemma_two_ie_payload(g1: u8, c1: Seq<u8>, g2: u8, c2: Seq<u8>, tail: Seq<u8>)
    requires
        c1.len() <= 0x07FF,
        c2.len() <= 0x07FF,
        g1 & 0xF != 0xF,
        g2 & 0xF != 0xF,
    ensures
        ({
            let z1 = spec_payload_ie(g1, c1);
            let z2 = spec_payload_ie(g2, c2);
            &&& spec_split_payload_ies(z1 + z2 + u16_bytes(PAYLOAD_TERMINATION) + tail) == Ok::<
                (Seq<u8>, Seq<u8>),
                CodecError,
            >((z1 + z2, tail))
            &&& ies_from(z1 + z2, 0) == seq![
                PayloadIeView { group: g1 & 0xF, content: c1 },
                PayloadIeView { group: g2 & 0xF, content: c2 },
            ]
        }),
{
    let z1 = spec_payload_ie(g1, c1);
    let z2 = spec_payload_ie(g2, c2);
    let s = z1 + z2 + u16_bytes(PAYLOAD_TERMINATION) + tail;
    let n1 = z1.len() as int;
    let n2 = z2.len() as int;
    assert(s.subrange(0, n1) =~= z1);
    lemma_payload_ie_at(s, 0, g1, c1);
    assert(s.subrange(n1, n1 + n2) =~= z2);
    lemma_payload_ie_at(s, n1, g2, c2);
    assert(s.subrange(n1 + n2, n1 + n2 + 2) =~= u16_bytes(PAYLOAD_TERMINATION));
    lemma_payload_termination_at(s, n1 + n2);
    assert(s.subrange(0, n1 + n2) =~= z1 + z2);
    assert(s.subrange(n1 + n2 + 2, s.len() as int) =~= tail);
    let l = z1 + z2;
    assert(l.subrange(0, n1) =~= z1);
    lemma_payload_ie_at(l, 0, g1, c1);
    assert(l.subrange(n1, n1 + n2) =~= z2);
    lemma_payload_ie_at(l, n1, g2, c2);
    assert(ies_from(l, n1 + n2) =~= Seq::<PayloadIeView>::empty());
    assert(seq![PayloadIeView { group: g1 & 0xF, content: c1 }] + (seq![PayloadIeView { group: g2 & 0xF, content: c2 }]
        + Seq::<PayloadIeView>::empty()) =~= seq![
        PayloadIeView { group: g1 & 0xF, content: c1 },
        PayloadIeView { group: g2 & 0xF, content: c2 },
    ]);
}

/// The MLME nested IE content holding an EB Filter sub-IE gives the
/// filter back.
proof fn lemma_filter_content(f: EbFilter, acc: EnhancedBeaconRequest)
    ensures
        ebr_apply_mlme(mlme_subs_from(EnhancedBeaconRequest::spec_filter_content(f), 0), acc) == Ok::<
            EnhancedBeaconRequest,
            CodecError,
        >(EnhancedBeaconRequest { filter: Some(f), ..acc }),
        EnhancedBeaconRequest::spec_filter_content(f).len() <= 5,
{
    let e = f.spec_encode();
    let c = EnhancedBeaconRequest::spec_filter_content(f);
    let len = e.len() as u16;
    let id = SUB_ID_EB_FILTER as u16;
    let w = ((id << 8) | len) as u16;
    assert(e.len() <= 3);
    assert(w & 0x8000 == 0 && (w & 0xFF) == len && (((w >> 8) & 0x7F) as u8) == 0x1Eu8) by (bit_vector)
        requires
            len <= 3,
            id == 0x1E,
            w == ((id << 8) | len) as u16,
    ;
    assert(c.subrange(0, 2) =~= u16_bytes(w));
    crate::codec::lemma_le16_at(c, 0, w);
    assert(c.subrange(2, 2 + e.len() as int) =~= e);
    assert(mlme_subs_from(c, 2 + e.len() as int) =~= Seq::<(u8, Seq<u8>)>::empty());
    let subs = mlme_subs_from(c, 0);
    assert(subs =~= seq![(0x1Eu8, e)]);
    lemma_eb_filter_round_trip(f);
    assert(subs.drop_first() =~= Seq::<(u8, Seq<u8>)>::empty());
    reveal_with_fuel(ebr_apply_mlme, 2);
}

/// An Enhanced Beacon Request parses back from the MAC payload it is
/// written as.
pub proof fn lemma_enhanced_beacon_request_round_trip(r: EnhancedBeaconRequest)
    ensures
        spec_parse_ebr(r.spec_encode()) == Ok::<EnhancedBeaconRequest, CodecError>(r),
{
    let zs = r.spec_zigbee_subs();
    let tail = seq![BEACON_REQUEST_ID];
    let empty = EnhancedBeaconRequest::spec_empty();
    reveal_with_fuel(ebr_apply_ies, 3);
    reveal_with_fuel(ebr_apply_zigbee, 3);
    let mlme_g = GROUP_MLME;
    assert((mlme_g & 0xF) == mlme_g && (mlme_g & 0xF) != 0xF) by (bit_vector)
        requires
            mlme_g == 1u8,
    ;
    if zs.len() > 0 {
        assert(1 <= zs.len() <= 2);
        if let Some((epid, short)) = r.rejoin {
            let z = ZigbeeIeView::Rejoin { extended_pan_id: epid, sender_short: short };
            lemma_zigbee_ie_parse(z);
            assert(zsub_round_trips(z));
        }
        if let Some(p) = r.tx_power {
            lemma_zigbee_ie_parse(ZigbeeIeView::TxPower(p));
            assert(zsub_round_trips(ZigbeeIeView::TxPower(p)));
        }
        assert(forall|i: int| 0 <= i < zs.len() ==> zsub_round_trips(#[trigger] zs[i]));
        lemma_zigbee_content(zs);
        lemma_zies_bytes_small(zs);
        lemma_vendor_ie(zs);
        if zs.len() == 1 {
            assert(zs.drop_first() =~= Seq::<ZigbeeIeView>::empty());
        } else {
            assert(zs.drop_first() =~= seq![zs[1]]);
            assert(zs.drop_first().drop_first() =~= Seq::<ZigbeeIeView>::empty());
        }
    }
    let zc = seq![0x1Bu8, 0x19u8, 0x4Au8] + zies_bytes(zs);
    match r.filter {
        Some(f) => {
            let fc = EnhancedBeaconRequest::spec_filter_content(f);
            lemma_filter_content(f, empty);
            if zs.len() > 0 {
                lemma_two_ie_payload(GROUP_MLME, fc, GROUP_VENDOR, zc, tail);
                assert(r.spec_encode() =~= spec_payload_ie(GROUP_MLME, fc) + spec_payload_ie(GROUP_VENDOR, zc)
                    + u16_bytes(PAYLOAD_TERMINATION) + tail);
                let list = seq![PayloadIeView { group: GROUP_MLME, content: fc }, PayloadIeView { group: GROUP_VENDOR, content: zc }];
                assert(list.drop_first() =~= seq![PayloadIeView { group: GROUP_VENDOR, content: zc }]);
                assert(list.drop_first().drop_first() =~= Seq::<PayloadIeView>::empty());
            } else {
                lemma_single_ie_payload(GROUP_MLME, fc, tail);
                assert(r.spec_encode() =~= spec_payload_ie(GROUP_MLME, fc) + u16_bytes(PAYLOAD_TERMINATION) + tail);
                let list = seq![PayloadIeView { group: GROUP_MLME, content: fc }];
                assert(list.drop_first() =~= Seq::<PayloadIeView>::empty());
            }
        },
        None => {
            if zs.len() > 0 {
                lemma_single_ie_payload(GROUP_VENDOR, zc, tail);
                assert(r.spec_encode() =~= spec_payload_ie(GROUP_VENDOR, zc) + u16_bytes(PAYLOAD_TERMINATION) + tail);
                let list = seq![PayloadIeView { group: GROUP_VENDOR, content: zc }];
                assert(list.drop_first() =~= Seq::<PayloadIeView>::empty());
            } else {
                let s = r.spec_encode();
                assert(s =~= u16_bytes(PAYLOAD_TERMINATION) + tail);
                assert(s.subrange(0, 2) =~= u16_bytes(PAYLOAD_TERMINATION));
                lemma_payload_termination_at(s, 0);
                assert(s.subrange(0, 0) =~= Seq::<u8>::empty());
                assert(s.subrange(2, s.len() as int) =~= tail);
                assert(ies_from(Seq::<u8>::empty(), 0) =~= Seq::<PayloadIeView>::empty());
            }
        },
    }
}

/// The information element identifiers: MLME group 1, vendor group 2,
/// payload termination `0xF800`, the Zigbee OUI `1B 19 4A`, the EB Filter
/// sub-ID 0x1E and the Zigbee sub-IDs Rejoin 0, TX Power 1, EB Payload 2.
pub proof fn lemma_ie_identifiers()
    ensures
        GROUP_MLME == 1,
        GROUP_VENDOR == 2,
        GROUP_TERMINATION == 0xF,
        PAYLOAD_TERMINATION == 0xF800,
        SUB_ID_EB_FILTER == 0x1E,
        ZIGBEE_SUB_REJOIN == 0,
        ZIGBEE_SUB_TX_POWER == 1,
        ZIGBEE_SUB_EB_PAYLOAD == 2,
        ZIGBEE_OUI@ == seq![0x1Bu8, 0x19u8, 0x4Au8],
{
}

/// A payload IE starts with a descriptor (least significant octet first)
/// holding the content length in bits 0-10, the group id in bits 11-14 and
/// the payload type bit 15 set, followed by the content.
pub proof fn lemma_payload_ie_octets(group: u8, content: Seq<u8>)
    requires
        group < 16,
        content.len() <= 0x07FF,
    ensures
        ({
            let s = spec_payload_ie(group, content);
            &&& s.len() == 2 + content.len()
            &&& s[0] as int + 256 * (s[1] as int) == 0x8000 + 0x800 * group + content.len()
            &&& s.subrange(2, s.len() as int) == content
        }),
{
    let s = spec_payload_ie(group, content);
    let l = content.len() as u16;
    let g = group;
    let w = (0x8000u16 | (((g & 0xF) as u16) << 11) | l) as u16;
    lemma_wire_bits(0, 0, 0, g, 0, 0, 0, l, 0, 0, 0, 0, 0);
    lemma_u16_octets(w);
    assert(s.subrange(2, s.len() as int) =~= content);
}

/// A Zigbee sub-IE starts with a descriptor (least significant octet
/// first) holding the content length in bits 0-5 and the sub-ID in bits
/// 6-15; a Rejoin IE's content is the extended PAN id then the sender's
/// short address, a TX Power IE's the power octet, and an EB Payload IE's
/// the beacon payload, the superframe specification and the sender's
/// short address.
pub proof fn lemma_zigbee_sub_ie_octets(v: ZigbeeIeView)
    requires
        v.fits(),
        v.sub_id() < 1024,
    ensures
        ({
            let s = v.spec_encode();
            let c = s.subrange(2, s.len() as int);
            &&& s[0] as int + 256 * (s[1] as int) == v.content().len() + 64 * v.sub_id()
            &&& match v {
                ZigbeeIeView::Rejoin { extended_pan_id, sender_short } => {
                    &&& v.sub_id() == 0
                    &&& c.len() == 10
                    &&& c.subrange(0, 8) == u64_bytes(extended_pan_id.0)
                    &&& c[8] as int + 256 * (c[9] as int) == sender_short.0 as int
                },
                ZigbeeIeView::TxPower(p) => v.sub_id() == 1 && c == seq![p as u8],
                ZigbeeIeView::EbPayload { beacon_payload, superframe, sender_short } => {
                    let n = beacon_payload.len() as int;
                    &&& v.sub_id() == 2
                    &&& c.len() == n + 4
                    &&& c.subrange(0, n) == beacon_payload
                    &&& c[n] as int + 256 * (c[n + 1] as int) == superframe.spec_to_raw() as int
                    &&& c[n + 2] as int + 256 * (c[n + 3] as int) == sender_short.0 as int
                },
                _ => true,
            }
        }),
{
    let s = v.spec_encode();
    let l = v.content().len() as u16;
    let id = v.sub_id();
    let w = ((l | (id << 6)) as u16);
    lemma_wire_bits(0, 0, 0, 0, 0, 0, 0, l, id, 0, 0, 0, 0);
    lemma_u16_octets(w);
    let c = s.subrange(2, s.len() as int);
    assert(c =~= v.content());
    match v {
        ZigbeeIeView::Rejoin { extended_pan_id, sender_short } => {
            lemma_u16_octets(sender_short.0);
            assert(c.subrange(0, 8) =~= u64_bytes(extended_pan_id.0));
        },
        ZigbeeIeView::EbPayload { beacon_payload, superframe, sender_short } => {
            lemma_u16_octets(superframe.spec_to_raw());
            lemma_u16_octets(sender_short.0);
            assert(c.subrange(0, beacon_payload.len() as int) =~= beacon_payload);
        },
        ZigbeeIeView::TxPower(p) => {
            assert(c =~= seq![p as u8]);
        },
        _ => {},
    }
}

/// The EB Filter content: a control octet with permit joining on in bit
/// 0, link quality present in bit 1 and percent present in bit 2, then
/// the link quality and the percent when present.
pub proof fn lemma_eb_filter_octets(f: EbFilter)
    ensures
        ({
            let s = f.spec_encode();
            let o = s[0];
            &&& s.len() == 1 + opt_octet(f.link_quality).len() + opt_octet(f.percent).len()
            &&& (o & 0x01 != 0) == f.permit_joining_on
            &&& (o & 0x02 != 0) == f.link_quality.is_some()
            &&& (o & 0x04 != 0) == f.percent.is_some()
            &&& o & 0xF8 == 0
            &&& f.link_quality matches Some(q) ==> s[1] == q
            &&& f.percent matches Some(p) ==> s[1 + opt_octet(f.link_quality).len() as int] == p
        }),
{
    let s = f.spec_encode();
    let a = bit(f.permit_joining_on);
    let b = bit(f.link_quality is Some);
    let c = bit(f.percent is Some);
    let o = s[0];
    assert(o == (a | (b << 1) | (c << 2)) as u8);
    lemma_wire_bits(a, b, c, 0, 0, 0, 0, 0, 0, 0, 0, 0, 0);
}

} // verus!
