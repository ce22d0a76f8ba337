//! Zigbee beacon payload and the beacon appendix.
//!
//! Layout of the 15-octet beacon info field: protocol id (8), stack
//! profile (4), protocol version (4), reserved (2), router capacity (1),
//! device depth (4, deprecated), end device capacity (1), extended PAN id
//! (64), tx offset (24), update id (8). Appendix TLVs follow.
use vstd::prelude::*;
use crate::codec::lemma_wire_bits;

use crate::codec::{
    le24, le64, lemma_le24_at, lemma_le64_at, lemma_step, push_bytes, push_u24_le, push_u64_le, push_u8,
    read_u24_le, read_u64_le, read_u8, truncated, u24_bytes, u64_bytes, CodecError,
};
use crate::nwk::frame::PROTOCOL_VERSION;
use crate::types::ExtendedAddress;

verus! {

broadcast use vstd::slice::group_slice_axioms;

/// Protocol identifier for Zigbee beacons (always 0).
pub const PROTOCOL_ID_ZIGBEE: u8 = 0x00;

/// Stack profile for Zigbee PRO.
pub const STACK_PROFILE_PRO: u8 = 0x02;

/// Tx offset value in beaconless networks.
pub const TX_OFFSET_NONE: u32 = 0x00FF_FFFF;

/// Length of the beacon info field.
pub const BEACON_INFO_LEN: usize = 15;

/// A TLV chain from `pos` on is well formed: each TLV's tag and length
/// octets are present and its value (the length octet plus one) fits, and
/// the last one ends exactly at the end.
pub open spec fn tlv_chain_ok(s: Seq<u8>, pos: int) -> bool
    decreases s.len() - pos,
{
    if pos < 0 || pos > s.len() {
        false
    } else if pos == s.len() {
        true
    } else if pos + 2 > s.len() {
        false
    } else {
        let end = pos + 2 + s[pos + 1] + 1;
        end <= s.len() && tlv_chain_ok(s, end)
    }
}

/// The TLV with tag `tag` of a well-formed chain from `pos` on: the
/// position of its value and the value's length.
pub open spec fn tlv_find_from(s: Seq<u8>, pos: int, tag: u8) -> Option<(int, int)>
    decreases s.len() - pos,
{
    if pos < 0 || pos + 2 > s.len() {
        None
    } else {
        let end = pos + 2 + s[pos + 1] + 1;
        if end > s.len() {
            None
        } else if s[pos] == tag {
            Some((pos + 2, s[pos + 1] + 1))
        } else {
            tlv_find_from(s, end, tag)
        }
    }
}

/// Why a TLV chain was rejected.
#[derive(Clone, Copy, PartialEq, Eq, Debug, Structural)]
pub enum TlvError {
    /// A TLV's header or value runs past the end of the chain.
    Malformed,
}

/// A validated chain of TLVs.
#[derive(Clone, Copy, PartialEq, Eq, Debug)]
pub struct TlvSet<'a> {
    bytes: &'a [u8],
}

impl<'a> View for TlvSet<'a> {
    type V = Seq<u8>;

    closed spec fn view(&self) -> Seq<u8> {
        self.bytes@
    }
}

impl<'a> TlvSet<'a> {
    /// Validates a TLV chain.
    pub fn validate(bytes: &'a [u8]) -> (r: Result<TlvSet<'a>, TlvError>)
        ensures
            tlv_chain_ok(bytes@, 0) ==> (r matches Ok(t) && t@ == bytes@),
            !tlv_chain_ok(bytes@, 0) ==> r == Err::<TlvSet<'a>, TlvError>(TlvError::Malformed),
    {
        let mut pos: usize = 0;
        while pos < bytes.len()
            invariant
                pos <= bytes@.len(),
                tlv_chain_ok(bytes@, 0) == tlv_chain_ok(bytes@, pos as int),
            decreases bytes@.len() - pos,
        {
            if bytes.len() - pos < 2 {
                return Err(TlvError::Malformed);
            }
            let len = bytes[pos + 1] as usize + 1;
            if bytes.len() - pos - 2 < len {
                return Err(TlvError::Malformed);
            }
            pos = pos + 2 + len;
        }
        Ok(TlvSet { bytes })
    }

    /// The value of the first TLV with tag `tag`.
    pub fn find(&self, tag: u8) -> (r: Option<&'a [u8]>)
        ensures
            match tlv_find_from(self@, 0, tag) {
                Some((p, n)) => r matches Some(v) && v@ == self@.subrange(p, p + n),
                None => r is None,
            },
    {
        let bytes = self.bytes;
        let mut pos: usize = 0;
        while bytes.len() - pos >= 2
            invariant
                pos <= bytes@.len(),
                bytes@ == self@,
                tlv_find_from(bytes@, 0, tag) == tlv_find_from(bytes@, pos as int, tag),
            decreases bytes@.len() - pos,
        {
            let len = bytes[pos + 1] as usize + 1;
            if bytes.len() - pos - 2 < len {
                return None;
            }
            if bytes[pos] == tag {
                return Some(vstd::slice::slice_subrange(bytes, pos + 2, pos + 2 + len));
            }
            pos = pos + 2 + len;
        }
        None
    }

    /// The octets of the chain.
    pub fn as_bytes(&self) -> (v: &'a [u8])
        ensures
            v@ == self@,
    {
        self.bytes
    }
}

/// Zigbee beacon payload.
#[derive(Clone, Copy, PartialEq, Eq, Debug)]
pub struct BeaconPayload<'a> {
    /// Protocol identifier (must be 0).
    pub protocol_id: u8,
    /// Stack profile (2 for Zigbee PRO).
    pub stack_profile: u8,
    /// NWK protocol version (2).
    pub protocol_version: u8,
    /// Router capacity available.
    pub router_capacity: bool,
    /// Device depth (deprecated; transmitted as 0, accepted as anything).
    pub device_depth: u8,
    /// End device capacity available.
    pub end_device_capacity: bool,
    /// Extended PAN identifier.
    pub extended_pan_id: ExtendedAddress,
    /// Tx offset (24 bits).
    pub tx_offset: u32,
    /// `nwkUpdateId`.
    pub update_id: u8,
    /// Beacon appendix TLVs (raw; may be empty).
    pub appendix: &'a [u8],
}

/// The mathematical content of a [`BeaconPayload`].
pub struct BeaconPayloadView {
    /// Protocol identifier.
    pub protocol_id: u8,
    /// Stack profile.
    pub stack_profile: u8,
    /// NWK protocol version.
    pub protocol_version: u8,
    /// Router capacity available.
    pub router_capacity: bool,
    /// Device depth.
    pub device_depth: u8,
    /// End device capacity available.
    pub end_device_capacity: bool,
    /// Extended PAN identifier.
    pub extended_pan_id: ExtendedAddress,
    /// Tx offset.
    pub tx_offset: u32,
    /// `nwkUpdateId`.
    pub update_id: u8,
    /// Appendix octets.
    pub appendix: Seq<u8>,
}

impl<'a> View for BeaconPayload<'a> {
    type V = BeaconPayloadView;

    open spec fn view(&self) -> BeaconPayloadView {
        BeaconPayloadView {
            protocol_id: self.protocol_id,
            stack_profile: self.stack_profile,
            protocol_version: self.protocol_version,
            router_capacity: self.router_capacity,
            device_depth: self.device_depth,
            end_device_capacity: self.end_device_capacity,
            extended_pan_id: self.extended_pan_id,
            tx_offset: self.tx_offset,
            update_id: self.update_id,
            appendix: self.appendix@,
        }
    }
}

/// 1 for true, 0 for false.
pub open spec fn bit8(b: bool) -> u8 {
    if b { 1 } else { 0 }
}

impl BeaconPayloadView {
    /// The second octet: stack profile and protocol version.
    pub open spec fn octet1(self) -> u8 {
        ((self.stack_profile & 0x0F) | (self.protocol_version << 4)) as u8
    }

    /// The third octet: capacities and device depth.
    pub open spec fn octet2(self) -> u8 {
        ((bit8(self.router_capacity) << 2) | ((self.device_depth & 0x0F) << 3) | (bit8(self.end_device_capacity) << 7)) as u8
    }

    /// The wire octets.
    pub open spec fn spec_encode(self) -> Seq<u8> {
        seq![self.protocol_id, self.octet1(), self.octet2()] + u64_bytes(self.extended_pan_id.0) + u24_bytes(
            self.tx_offset,
        ) + seq![self.update_id] + self.appendix
    }

    /// Every field fits its place on the wire.
    pub open spec fn wf(self) -> bool {
        self.stack_profile < 16 && self.protocol_version < 16 && self.device_depth < 16 && self.tx_offset
            <= 0x00FF_FFFF
    }

    /// A joinable Zigbee PRO network: protocol id 0, protocol version 2,
    /// stack profile 2.
    pub open spec fn spec_is_zigbee_pro(self) -> bool {
        self.protocol_id == PROTOCOL_ID_ZIGBEE && self.protocol_version == PROTOCOL_VERSION && self.stack_profile
            == STACK_PROFILE_PRO
    }
}

/// The beacon payload a sequence of octets denotes; everything after the
/// beacon info field is the appendix.
pub open spec fn spec_decode_beacon_payload(s: Seq<u8>) -> Result<BeaconPayloadView, CodecError> {
    if s.len() < 1 {
        Err(truncated(s, 0, 1))
    } else if s.len() < 2 {
        Err(truncated(s, 1, 1))
    } else if s.len() < 3 {
        Err(truncated(s, 2, 1))
    } else if s.len() < 11 {
        Err(truncated(s, 3, 8))
    } else if s.len() < 14 {
        Err(truncated(s, 11, 3))
    } else if s.len() < 15 {
        Err(truncated(s, 14, 1))
    } else {
        let b1 = s[1];
        let b2 = s[2];
        Ok(
            BeaconPayloadView {
                protocol_id: s[0],
                stack_profile: b1 & 0x0F,
                protocol_version: b1 >> 4,
                router_capacity: b2 & 0x04 != 0,
                device_depth: (b2 >> 3) & 0x0F,
                end_device_capacity: b2 & 0x80 != 0,
                extended_pan_id: ExtendedAddress(le64(s, 3)),
                tx_offset: le24(s, 11),
                update_id: s[14],
                appendix: s.subrange(15, s.len() as int),
            },
        )
    }
}

impl<'a> BeaconPayload<'a> {
    /// Builds a Zigbee PRO beacon payload.
    pub fn new(
        extended_pan_id: ExtendedAddress,
        router_capacity: bool,
        end_device_capacity: bool,
        update_id: u8,
        appendix: &'a [u8],
    ) -> (b: BeaconPayload<'a>)
        ensures
            b == (BeaconPayload {
                protocol_id: PROTOCOL_ID_ZIGBEE,
                stack_profile: STACK_PROFILE_PRO,
                protocol_version: PROTOCOL_VERSION,
                router_capacity,
                device_depth: 0,
                end_device_capacity,
                extended_pan_id,
                tx_offset: TX_OFFSET_NONE,
                update_id,
                appendix,
            }),
            b@.wf(),
    {
        BeaconPayload {
            protocol_id: PROTOCOL_ID_ZIGBEE,
            stack_profile: STACK_PROFILE_PRO,
            protocol_version: PROTOCOL_VERSION,
            router_capacity,
            device_depth: 0,
            end_device_capacity,
            extended_pan_id,
            tx_offset: TX_OFFSET_NONE,
            update_id,
            appendix,
        }
    }

    /// True when this beacon describes a joinable Zigbee PRO network
    /// (protocol version 2, stack profile 2).
    pub fn is_zigbee_pro(&self) -> (b: bool)
        ensures
            b == self@.spec_is_zigbee_pro(),
    {
        self.protocol_id == PROTOCOL_ID_ZIGBEE && self.protocol_version == PROTOCOL_VERSION && self.stack_profile
            == STACK_PROFILE_PRO
    }

    /// Validated beacon appendix TLVs; `None` when absent or malformed
    /// (malformed appendices are ignored).
    pub fn appendix_tlvs(&self) -> (r: Option<TlvSet<'a>>)
        ensures
            (self.appendix@.len() > 0 && tlv_chain_ok(self.appendix@, 0)) ==> (r matches Some(t) && t@
                == self.appendix@),
            !(self.appendix@.len() > 0 && tlv_chain_ok(self.appendix@, 0)) ==> r is None,
    {
        if self.appendix.len() == 0 {
            return None;
        }
        match TlvSet::validate(self.appendix) {
            Ok(t) => Some(t),
            Err(_) => None,
        }
    }

    /// True when the sender advertises R23 capabilities via a valid beacon
    /// appendix.
    pub fn has_appendix(&self) -> (b: bool)
        ensures
            b == (self.appendix@.len() > 0 && tlv_chain_ok(self.appendix@, 0)),
    {
        self.appendix_tlvs().is_some()
    }

    /// Decodes a beacon payload; all octets after the info field are the
    /// appendix, so the whole input is consumed.
    pub fn decode_exact(bytes: &'a [u8]) -> (r: Result<BeaconPayload<'a>, CodecError>)
        ensures
            match spec_decode_beacon_payload(bytes@) {
                Ok(v) => r matches Ok(b) && b@ == v,
                Err(e) => r == Err::<BeaconPayload<'a>, CodecError>(e),
            },
    {
        let protocol_id = match read_u8(bytes, 0) {
            Ok(v) => v,
            Err(e) => return Err(e),
        };
        let b1 = match read_u8(bytes, 1) {
            Ok(v) => v,
            Err(e) => return Err(e),
        };
        let b2 = match read_u8(bytes, 2) {
            Ok(v) => v,
            Err(e) => return Err(e),
        };
        let epid = match read_u64_le(bytes, 3) {
            Ok(v) => v,
            Err(e) => return Err(e),
        };
        let tx_offset = match read_u24_le(bytes, 11) {
            Ok(v) => v,
            Err(e) => return Err(e),
        };
        let update_id = match read_u8(bytes, 14) {
            Ok(v) => v,
            Err(e) => return Err(e),
        };
        Ok(
            BeaconPayload {
                protocol_id,
                stack_profile: b1 & 0x0F,
                protocol_version: b1 >> 4,
                router_capacity: b2 & 0x04 != 0,
                device_depth: (b2 >> 3) & 0x0F,
                end_device_capacity: b2 & 0x80 != 0,
                extended_pan_id: ExtendedAddress(epid),
                tx_offset,
                update_id,
                appendix: vstd::slice::slice_subrange(bytes, 15, bytes.len()),
            },
        )
    }

    /// Serialised length.
    pub fn encoded_len(&self) -> (n: usize)
        requires
            self.appendix@.len() <= usize::MAX - BEACON_INFO_LEN,
        ensures
            n == self@.spec_encode().len(),
    {
        BEACON_INFO_LEN + self.appendix.len()
    }

    /// Appends the payload's octets to `out`.
    pub fn encode(&self, out: &mut Vec<u8>)
        ensures
            final(out)@ == old(out)@ + self@.spec_encode(),
    {
        let rc: u8 = if self.router_capacity { 1 } else { 0 };
        let ec: u8 = if self.end_device_capacity { 1 } else { 0 };
        push_u8(out, self.protocol_id);
        push_u8(out, (self.stack_profile & 0x0F) | (self.protocol_version << 4));
        push_u8(out, (rc << 2) | ((self.device_depth & 0x0F) << 3) | (ec << 7));
        push_u64_le(out, self.extended_pan_id.0);
        push_u24_le(out, self.tx_offset);
        push_u8(out, self.update_id);
        push_bytes(out, self.appendix);
        assert(out@ =~= old(out)@ + self@.spec_encode());
    }

    /// Encodes into the front of `buf`, returning the length written.
    pub fn encode_to_slice(&self, buf: &mut [u8]) -> (r: Result<usize, CodecError>)
        ensures
            self@.spec_encode().len() <= old(buf)@.len() ==> r == Ok::<usize, CodecError>(
                self@.spec_encode().len() as usize,
            ) && final(buf)@.subrange(0, self@.spec_encode().len() as int) == self@.spec_encode(),
            self@.spec_encode().len() > old(buf)@.len() ==> r is Err && final(buf)@ == old(buf)@,
    {
        let mut v: Vec<u8> = Vec::new();
        self.encode(&mut v);
        crate::codec::copy_to_slice(&v, buf)
    }
}

/// Decoding the encoding of a well-formed beacon payload gives it back.
pub proof fn lemma_beacon_payload_round_trip(b: BeaconPayloadView)
    requires
        b.wf(),
    ensures
        spec_decode_beacon_payload(b.spec_encode()) == Ok::<BeaconPayloadView, CodecError>(b),
{
    let s = b.spec_encode();
    let o1 = b.octet1();
    let o2 = b.octet2();
    let sp = b.stack_profile;
    let pv = b.protocol_version;
    let dd = b.device_depth;
    let rc = bit8(b.router_capacity);
    let ec = bit8(b.end_device_capacity);
    lemma_wire_bits(0, 0, 0, sp, pv, 0, 0, 0, 0, 0, 0, 0, 0);
    lemma_wire_bits(rc, ec, 0, dd, 0, 0, 0, 0, 0, 0, 0, 0, 0);
    let head = seq![b.protocol_id, o1, o2];
    let rest = u64_bytes(b.extended_pan_id.0) + u24_bytes(b.tx_offset) + seq![b.update_id] + b.appendix;
    assert(s =~= head + rest);
    assert(s.subrange(3, s.len() as int) =~= u64_bytes(b.extended_pan_id.0) + (u24_bytes(b.tx_offset) + (
    seq![b.update_id] + b.appendix)));
    lemma_step(s, 3, u64_bytes(b.extended_pan_id.0), u24_bytes(b.tx_offset) + (seq![b.update_id] + b.appendix));
    lemma_le64_at(s, 3, b.extended_pan_id.0);
    lemma_step(s, 11, u24_bytes(b.tx_offset), seq![b.update_id] + b.appendix);
    lemma_le24_at(s, 11, b.tx_offset);
    let tx = b.tx_offset;
    assert(tx & 0x00FF_FFFF == tx) by (bit_vector)
        requires
            tx <= 0x00FF_FFFF,
    ;
    lemma_step(s, 14, seq![b.update_id], b.appendix);
    assert(s[14] == b.update_id);
}

/// The beacon payload's layout: the protocol identifier, then stack
/// profile (low nibble) and protocol version (high nibble), then the
/// capacity octet with router capacity in bit 2, the device depth in bits
/// 3..6 and end device capacity in bit 7 (bits 0 and 1 clear), then the
/// extended PAN id, the tx offset, the update id at octet 14 and the
/// appendix.
pub proof fn lemma_beacon_payload_layout(b: BeaconPayloadView)
    requires
        b.wf(),
    ensures
        ({
            let s = b.spec_encode();
            &&& s.len() == 15 + b.appendix.len()
            &&& s[0] == b.protocol_id
            &&& s[1] & 0x0F == b.stack_profile
            &&& s[1] >> 4u8 == b.protocol_version
            &&& (s[2] & 0x04 != 0) == b.router_capacity
            &&& (s[2] >> 3u8) & 0x0F == b.device_depth
            &&& (s[2] & 0x80 != 0) == b.end_device_capacity
            &&& s[2] & 0x03 == 0
            &&& s[14] == b.update_id
            &&& s.subrange(15, s.len() as int) == b.appendix
        }),
{
    let s = b.spec_encode();
    let o1 = b.octet1();
    let o2 = b.octet2();
    let sp = b.stack_profile;
    let pv = b.protocol_version;
    let dd = b.device_depth;
    let rc = b.router_capacity;
    let ec = b.end_device_capacity;
    assert(s[1] == o1 && s[2] == o2);
    assert(o1 == ((sp & 0x0F) | (pv << 4)) as u8);
    lemma_wire_bits(0, 0, 0, sp, pv, 0, 0, 0, 0, 0, 0, 0, 0);
    let r8: u8 = if rc { 1 } else { 0 };
    let e8: u8 = if ec { 1 } else { 0 };
    assert(o2 == ((r8 << 2) | ((dd & 0x0F) << 3) | (e8 << 7)) as u8);
    lemma_wire_bits(r8, e8, 0, dd, 0, 0, 0, 0, 0, 0, 0, 0, 0);
    assert(s.subrange(15, s.len() as int) =~= b.appendix);
}

/// A decoded beacon payload reads router capacity from bit 2 and end
/// device capacity from bit 7 of the third octet, the device depth from
/// bits 3..6, and the update id from octet 14.
pub proof fn lemma_beacon_payload_decoded_fields(s: Seq<u8>)
    ensures
        spec_decode_beacon_payload(s) matches Ok(b) ==> {
            &&& s.len() >= 15
            &&& b.protocol_id == s[0]
            &&& b.router_capacity == (s[2] & 0x04 != 0)
            &&& b.end_device_capacity == (s[2] & 0x80 != 0)
            &&& b.device_depth == (s[2] >> 3u8) & 0x0F
            &&& b.update_id == s[14]
        },
{
}

/// A Zigbee PRO beacon payload starts with protocol identifier 0, then
/// an octet whose low nibble is stack profile 2 and high nibble protocol
/// version 2; a payload built without depth carries depth 0 and tx offset
/// 0xFFFFFF.
pub proof fn lemma_zigbee_pro_beacon_octets(b: BeaconPayloadView)
    requires
        b.spec_is_zigbee_pro(),
        b.wf(),
    ensures
        b.spec_encode()[0] == 0,
        b.spec_encode()[1] & 0x0F == 2,
        b.spec_encode()[1] >> 4u8 == 2,
        PROTOCOL_ID_ZIGBEE == 0,
        STACK_PROFILE_PRO == 2,
        PROTOCOL_VERSION == 2,
        TX_OFFSET_NONE == 0x00FF_FFFF,
{
    lemma_beacon_payload_layout(b);
}

} // verus!
