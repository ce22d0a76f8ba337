//! IEEE 802.15.4 MAC frame codec: frame control, header, beacon body and
//! MAC commands. Multi-octet fields are little-endian; the FCS never
//! appears here.
use vstd::prelude::*;
use crate::codec::{
    copy_to_slice, le16, le64, push_bytes, push_u16_le, push_u64_le, push_u8, read_bytes,
    read_u16_le, read_u64_le, read_u8, truncated, u16_bytes, u64_bytes, CodecError, Field,
};
use crate::codec::{lemma_le16_octets, lemma_u16_octets, lemma_wire_bits};
use crate::codec::{lemma_concat_parts, lemma_regroup, lemma_step, lemma_le16_at, lemma_le64_at, lemma_u16_bytes_of_le16, lemma_u64_bytes_of_le64};
use crate::types::{ExtendedAddress, MacCapability, MacStatus, PanId, ShortAddress};

verus! {

broadcast use vstd::slice::group_slice_axioms;

/// MAC frame type (frame control bits 0–2).
#[derive(Clone, Copy, PartialEq, Eq, Hash, Debug, Structural)]
pub enum FrameType {
    /// Beacon frame.
    Beacon,
    /// Data frame.
    Data,
    /// Acknowledgement frame.
    Ack,
    /// MAC command frame.
    Command,
    /// Reserved (4), multipurpose (5), fragment (6), extended (7).
    Other(u8),
}

impl FrameType {
    /// The frame type the low three bits of `b` denote.
    pub open spec fn spec_from_bits(b: u16) -> FrameType {
        let v = b & 0x7;
        if v == 0 {
            FrameType::Beacon
        } else if v == 1 {
            FrameType::Data
        } else if v == 2 {
            FrameType::Ack
        } else if v == 3 {
            FrameType::Command
        } else {
            FrameType::Other(v as u8)
        }
    }

    /// The three-bit code of a frame type.
    pub open spec fn spec_bits(self) -> u16 {
        match self {
            FrameType::Beacon => 0,
            FrameType::Data => 1,
            FrameType::Ack => 2,
            FrameType::Command => 3,
            FrameType::Other(v) => (v & 0x7) as u16,
        }
    }

    fn from_bits(b: u16) -> (t: FrameType)
        ensures
            t == Self::spec_from_bits(b),
    {
        let v = b & 0x7;
        if v == 0 {
            FrameType::Beacon
        } else if v == 1 {
            FrameType::Data
        } else if v == 2 {
            FrameType::Ack
        } else if v == 3 {
            FrameType::Command
        } else {
            FrameType::Other(v as u8)
        }
    }

    fn bits(self) -> (b: u16)
        ensures
            b == self.spec_bits(),
            b < 8,
    {
        match self {
            FrameType::Beacon => 0,
            FrameType::Data => 1,
            FrameType::Ack => 2,
            FrameType::Command => 3,
            FrameType::Other(v) => {
                let r = (v & 0x7) as u16;
                assert((v & 0x7) < 8) by (bit_vector);
                r
            },
        }
    }
}

/// Frame version (frame control bits 12–13).
#[derive(Clone, Copy, PartialEq, Eq, Hash, Debug, Structural)]
pub enum FrameVersion {
    /// IEEE 802.15.4-2003.
    V2003,
    /// IEEE 802.15.4-2006.
    V2006,
    /// IEEE 802.15.4-2015 (and later).
    V2015,
    /// Reserved value 3.
    Reserved,
}

impl FrameVersion {
    /// The version the low two bits of `b` denote.
    pub open spec fn spec_from_bits(b: u16) -> FrameVersion {
        let v = b & 0x3;
        if v == 0 {
            FrameVersion::V2003
        } else if v == 1 {
            FrameVersion::V2006
        } else if v == 2 {
            FrameVersion::V2015
        } else {
            FrameVersion::Reserved
        }
    }

    /// The two-bit code of a version.
    pub open spec fn spec_bits(self) -> u16 {
        match self {
            FrameVersion::V2003 => 0,
            FrameVersion::V2006 => 1,
            FrameVersion::V2015 => 2,
            FrameVersion::Reserved => 3,
        }
    }

    fn from_bits(b: u16) -> (v: FrameVersion)
        ensures
            v == Self::spec_from_bits(b),
    {
        let v = b & 0x3;
        if v == 0 {
            FrameVersion::V2003
        } else if v == 1 {
            FrameVersion::V2006
        } else if v == 2 {
            FrameVersion::V2015
        } else {
            FrameVersion::Reserved
        }
    }

    fn bits(self) -> (b: u16)
        ensures
            b == self.spec_bits(),
    {
        match self {
            FrameVersion::V2003 => 0,
            FrameVersion::V2006 => 1,
            FrameVersion::V2015 => 2,
            FrameVersion::Reserved => 3,
        }
    }
}

/// Addressing mode (frame control bits 10–11 / 14–15).
#[derive(Clone, Copy, PartialEq, Eq, Hash, Debug, Structural)]
pub enum AddressMode {
    /// No address present.
    Absent,
    /// Reserved value 1.
    Reserved,
    /// 16-bit short address.
    Short,
    /// 64-bit extended address.
    Extended,
}

impl AddressMode {
    /// The mode the low two bits of `b` denote.
    pub open spec fn spec_from_bits(b: u16) -> AddressMode {
        let v = b & 0x3;
        if v == 0 {
            AddressMode::Absent
        } else if v == 1 {
            AddressMode::Reserved
        } else if v == 2 {
            AddressMode::Short
        } else {
            AddressMode::Extended
        }
    }

    /// The two-bit code of a mode.
    pub open spec fn spec_bits(self) -> u16 {
        match self {
            AddressMode::Absent => 0,
            AddressMode::Reserved => 1,
            AddressMode::Short => 2,
            AddressMode::Extended => 3,
        }
    }

    fn from_bits(b: u16) -> (m: AddressMode)
        ensures
            m == Self::spec_from_bits(b),
    {
        let v = b & 0x3;
        if v == 0 {
            AddressMode::Absent
        } else if v == 1 {
            AddressMode::Reserved
        } else if v == 2 {
            AddressMode::Short
        } else {
            AddressMode::Extended
        }
    }

    fn bits(self) -> (b: u16)
        ensures
            b == self.spec_bits(),
    {
        match self {
            AddressMode::Absent => 0,
            AddressMode::Reserved => 1,
            AddressMode::Short => 2,
            AddressMode::Extended => 3,
        }
    }
}

/// A MAC address field.
#[derive(Clone, Copy, PartialEq, Eq, Hash, Debug, Structural)]
pub enum MacAddress {
    /// Not present.
    Absent,
    /// Short address.
    Short(ShortAddress),
    /// Extended address.
    Extended(ExtendedAddress),
}

impl MacAddress {
    /// The addressing mode of an address.
    pub open spec fn spec_mode(self) -> AddressMode {
        match self {
            MacAddress::Absent => AddressMode::Absent,
            MacAddress::Short(_) => AddressMode::Short,
            MacAddress::Extended(_) => AddressMode::Extended,
        }
    }

    /// The octets of an address field.
    pub open spec fn spec_encode(self) -> Seq<u8> {
        match self {
            MacAddress::Absent => Seq::empty(),
            MacAddress::Short(s) => u16_bytes(s.0),
            MacAddress::Extended(e) => u64_bytes(e.0),
        }
    }

    /// The addressing mode this value encodes as.
    pub fn mode(self) -> (m: AddressMode)
        ensures
            m == self.spec_mode(),
    {
        match self {
            MacAddress::Absent => AddressMode::Absent,
            MacAddress::Short(_) => AddressMode::Short,
            MacAddress::Extended(_) => AddressMode::Extended,
        }
    }

    /// Encoded length in octets.
    pub fn encoded_len(self) -> (n: usize)
        ensures
            n == self.spec_encode().len(),
    {
        match self {
            MacAddress::Absent => 0,
            MacAddress::Short(_) => 2,
            MacAddress::Extended(_) => 8,
        }
    }

    /// True for the short broadcast address `0xFFFF`.
    pub fn is_broadcast(self) -> (b: bool)
        ensures
            b == (self == MacAddress::Short(ShortAddress(0xFFFF))),
    {
        match self {
            MacAddress::Short(s) => s.0 == 0xFFFF,
            _ => false,
        }
    }

    /// Returns the short address if present.
    pub fn short(self) -> (r: Option<ShortAddress>)
        ensures
            r == (match self {
                MacAddress::Short(s) => Some(s),
                _ => None,
            }),
    {
        match self {
            MacAddress::Short(s) => Some(s),
            _ => None,
        }
    }

    /// Returns the extended address if present.
    pub fn extended(self) -> (r: Option<ExtendedAddress>)
        ensures
            r == (match self {
                MacAddress::Extended(e) => Some(e),
                _ => None,
            }),
    {
        match self {
            MacAddress::Extended(e) => Some(e),
            _ => None,
        }
    }

    /// A short address field.
    pub fn from_short(v: ShortAddress) -> (a: MacAddress)
        ensures
            a == MacAddress::Short(v),
    {
        MacAddress::Short(v)
    }

    /// An extended address field.
    pub fn from_extended(v: ExtendedAddress) -> (a: MacAddress)
        ensures
            a == MacAddress::Extended(v),
    {
        MacAddress::Extended(v)
    }
}

impl From<ShortAddress> for MacAddress {
    fn from(v: ShortAddress) -> (a: MacAddress) {
        MacAddress::Short(v)
    }
}

impl vstd::std_specs::convert::FromSpecImpl<ShortAddress> for MacAddress {
    open spec fn obeys_from_spec() -> bool {
        true
    }

    open spec fn from_spec(v: ShortAddress) -> MacAddress {
        MacAddress::Short(v)
    }
}

impl From<ExtendedAddress> for MacAddress {
    fn from(v: ExtendedAddress) -> (a: MacAddress) {
        MacAddress::Extended(v)
    }
}

impl vstd::std_specs::convert::FromSpecImpl<ExtendedAddress> for MacAddress {
    open spec fn obeys_from_spec() -> bool {
        true
    }

    open spec fn from_spec(v: ExtendedAddress) -> MacAddress {
        MacAddress::Extended(v)
    }
}

/// Security enabled bit of the frame control field.
pub const FC_SECURITY_ENABLED: u16 = 0x0008;
/// Frame pending bit.
pub const FC_FRAME_PENDING: u16 = 0x0010;
/// Acknowledgement request bit.
pub const FC_ACK_REQUEST: u16 = 0x0020;
/// PAN ID compression bit.
pub const FC_PAN_ID_COMPRESSION: u16 = 0x0040;
/// Sequence number suppression bit (version 2).
pub const FC_SEQ_SUPPRESSION: u16 = 0x0100;
/// IE present bit (version 2).
pub const FC_IE_PRESENT: u16 = 0x0200;

/// The 16-bit frame control field.
#[derive(Clone, Copy, PartialEq, Eq, Hash, Default, Debug, Structural)]
pub struct FrameControl(pub u16);

/// `v` with `bit` set or cleared.
pub open spec fn spec_with_bit(v: u16, bit: u16, on: bool) -> u16 {
    if on {
        v | bit
    } else {
        v & !bit
    }
}

impl FrameControl {
    /// Frame type of a frame control value.
    pub open spec fn spec_frame_type(self) -> FrameType {
        FrameType::spec_from_bits(self.0)
    }

    /// Version of a frame control value.
    pub open spec fn spec_version(self) -> FrameVersion {
        FrameVersion::spec_from_bits(self.0 >> 12)
    }

    /// Destination mode of a frame control value.
    pub open spec fn spec_dst_mode(self) -> AddressMode {
        AddressMode::spec_from_bits(self.0 >> 10)
    }

    /// Source mode of a frame control value.
    pub open spec fn spec_src_mode(self) -> AddressMode {
        AddressMode::spec_from_bits(self.0 >> 14)
    }

    /// Whether `bit` is set.
    pub open spec fn flag(self, bit: u16) -> bool {
        self.0 & bit != 0
    }

    /// Builds a frame control value.
    pub fn new(frame_type: FrameType, version: FrameVersion) -> (fc: FrameControl)
        ensures
            fc.0 == frame_type.spec_bits() | (version.spec_bits() << 12),
    {
        FrameControl(frame_type.bits() | (version.bits() << 12))
    }

    /// Frame type.
    pub fn frame_type(self) -> (t: FrameType)
        ensures
            t == self.spec_frame_type(),
    {
        FrameType::from_bits(self.0)
    }

    /// Frame version.
    pub fn version(self) -> (v: FrameVersion)
        ensures
            v == self.spec_version(),
    {
        FrameVersion::from_bits(self.0 >> 12)
    }

    /// Security enabled bit (MAC security; unsupported by Zigbee).
    pub fn security_enabled(self) -> (b: bool)
        ensures
            b == self.flag(FC_SECURITY_ENABLED),
    {
        self.0 & FC_SECURITY_ENABLED != 0
    }

    /// Frame pending bit.
    pub fn frame_pending(self) -> (b: bool)
        ensures
            b == self.flag(FC_FRAME_PENDING),
    {
        self.0 & FC_FRAME_PENDING != 0
    }

    /// Acknowledgement request bit.
    pub fn ack_request(self) -> (b: bool)
        ensures
            b == self.flag(FC_ACK_REQUEST),
    {
        self.0 & FC_ACK_REQUEST != 0
    }

    /// PAN ID compression bit.
    pub fn pan_id_compression(self) -> (b: bool)
        ensures
            b == self.flag(FC_PAN_ID_COMPRESSION),
    {
        self.0 & FC_PAN_ID_COMPRESSION != 0
    }

    /// Sequence number suppression (version 2 only).
    pub fn seq_suppression(self) -> (b: bool)
        ensures
            b == self.flag(FC_SEQ_SUPPRESSION),
    {
        self.0 & FC_SEQ_SUPPRESSION != 0
    }

    /// Information elements present (version 2 only).
    pub fn ie_present(self) -> (b: bool)
        ensures
            b == self.flag(FC_IE_PRESENT),
    {
        self.0 & FC_IE_PRESENT != 0
    }

    /// Destination addressing mode.
    pub fn dst_mode(self) -> (m: AddressMode)
        ensures
            m == self.spec_dst_mode(),
    {
        AddressMode::from_bits(self.0 >> 10)
    }

    /// Source addressing mode.
    pub fn src_mode(self) -> (m: AddressMode)
        ensures
            m == self.spec_src_mode(),
    {
        AddressMode::from_bits(self.0 >> 14)
    }

    /// Sets the frame pending bit.
    pub fn with_frame_pending(self, v: bool) -> (fc: FrameControl)
        ensures
            fc.0 == spec_with_bit(self.0, FC_FRAME_PENDING, v),
    {
        self.with_bit(FC_FRAME_PENDING, v)
    }

    /// Sets the acknowledgement request bit.
    pub fn with_ack_request(self, v: bool) -> (fc: FrameControl)
        ensures
            fc.0 == spec_with_bit(self.0, FC_ACK_REQUEST, v),
    {
        self.with_bit(FC_ACK_REQUEST, v)
    }

    /// Sets the PAN ID compression bit.
    pub fn with_pan_id_compression(self, v: bool) -> (fc: FrameControl)
        ensures
            fc.0 == spec_with_bit(self.0, FC_PAN_ID_COMPRESSION, v),
    {
        self.with_bit(FC_PAN_ID_COMPRESSION, v)
    }

    /// Sets the sequence number suppression bit.
    pub fn with_seq_suppression(self, v: bool) -> (fc: FrameControl)
        ensures
            fc.0 == spec_with_bit(self.0, FC_SEQ_SUPPRESSION, v),
    {
        self.with_bit(FC_SEQ_SUPPRESSION, v)
    }

    /// Sets the IE present bit.
    pub fn with_ie_present(self, v: bool) -> (fc: FrameControl)
        ensures
            fc.0 == spec_with_bit(self.0, FC_IE_PRESENT, v),
    {
        self.with_bit(FC_IE_PRESENT, v)
    }

    /// Sets the destination addressing mode.
    pub fn with_dst_mode(self, m: AddressMode) -> (fc: FrameControl)
        ensures
            fc.0 == (self.0 & !0x0C00u16) | (m.spec_bits() << 10),
    {
        FrameControl((self.0 & !0x0C00u16) | (m.bits() << 10))
    }

    /// Sets the source addressing mode.
    pub fn with_src_mode(self, m: AddressMode) -> (fc: FrameControl)
        ensures
            fc.0 == (self.0 & !0xC000u16) | (m.spec_bits() << 14),
    {
        FrameControl((self.0 & !0xC000u16) | (m.bits() << 14))
    }

    fn with_bit(self, bit: u16, v: bool) -> (fc: FrameControl)
        ensures
            fc.0 == spec_with_bit(self.0, bit, v),
    {
        if v {
            FrameControl(self.0 | bit)
        } else {
            FrameControl(self.0 & !bit)
        }
    }
}

/// Setting the destination mode is read back by `dst_mode` and leaves
/// the source mode, version, type and flag bits as they were.
pub proof fn lemma_with_dst_mode(fc: FrameControl, m: AddressMode)
    ensures
        FrameControl((fc.0 & !0x0C00u16) | (m.spec_bits() << 10)).spec_dst_mode() == m,
        FrameControl((fc.0 & !0x0C00u16) | (m.spec_bits() << 10)).spec_src_mode() == fc.spec_src_mode(),
        FrameControl((fc.0 & !0x0C00u16) | (m.spec_bits() << 10)).spec_version() == fc.spec_version(),
        FrameControl((fc.0 & !0x0C00u16) | (m.spec_bits() << 10)).spec_frame_type() == fc.spec_frame_type(),
        ((fc.0 & !0x0C00u16) | (m.spec_bits() << 10)) & 0x03FF == fc.0 & 0x03FF,
{
    let b = m.spec_bits();
    let v = fc.0;
    assert(b < 4);
    assert(((((v & !0x0C00u16) | (b << 10)) >> 10) & 3) == b && ((((v & !0x0C00u16) | (b << 10))
        >> 14) & 3) == ((v >> 14) & 3) && ((((v & !0x0C00u16) | (b << 10)) >> 12) & 3) == ((v
        >> 12) & 3) && (((v & !0x0C00u16) | (b << 10)) & 7) == (v & 7) && (((v & !0x0C00u16) | (b
        << 10)) & 0x03FF) == (v & 0x03FF)) by (bit_vector)
        requires
            b < 4,
    ;
}

/// Setting the source mode is read back by `src_mode` and leaves the
/// destination mode, version and type as they were.
pub proof fn lemma_with_src_mode(fc: FrameControl, m: AddressMode)
    ensures
        FrameControl((fc.0 & !0xC000u16) | (m.spec_bits() << 14)).spec_src_mode() == m,
        FrameControl((fc.0 & !0xC000u16) | (m.spec_bits() << 14)).spec_dst_mode() == fc.spec_dst_mode(),
        FrameControl((fc.0 & !0xC000u16) | (m.spec_bits() << 14)).spec_version() == fc.spec_version(),
        FrameControl((fc.0 & !0xC000u16) | (m.spec_bits() << 14)).spec_frame_type() == fc.spec_frame_type(),
{
    let b = m.spec_bits();
    let v = fc.0;
    assert(b < 4);
    assert(((((v & !0xC000u16) | (b << 14)) >> 14) & 3) == b && ((((v & !0xC000u16) | (b << 14))
        >> 10) & 3) == ((v >> 10) & 3) && ((((v & !0xC000u16) | (b << 14)) >> 12) & 3) == ((v
        >> 12) & 3) && (((v & !0xC000u16) | (b << 14)) & 7) == (v & 7)) by (bit_vector)
        requires
            b < 4,
    ;
}

/// A flag bit written with `spec_with_bit` reads back as written; the
/// other bits are unchanged.
pub proof fn lemma_with_bit(v: u16, bit: u16, other: u16, on: bool)
    requires
        bit == FC_SECURITY_ENABLED || bit == FC_FRAME_PENDING || bit == FC_ACK_REQUEST || bit
            == FC_PAN_ID_COMPRESSION || bit == FC_SEQ_SUPPRESSION || bit == FC_IE_PRESENT,
        other & bit == 0,
    ensures
        (spec_with_bit(v, bit, on) & bit != 0) == on,
        spec_with_bit(v, bit, on) & other == v & other,
{
    if on {
        assert(((v | bit) & bit != 0) && ((v | bit) & other == v & other)) by (bit_vector)
            requires
                bit != 0,
                other & bit == 0,
        ;
    } else {
        assert(((v & !bit) & bit == 0) && ((v & !bit) & other == v & other)) by (bit_vector)
            requires
                other & bit == 0,
        ;
    }
}

/// The octets of an optional one-octet field.
pub open spec fn opt_u8_bytes(o: Option<u8>) -> Seq<u8> {
    match o {
        Some(v) => seq![v],
        None => Seq::empty(),
    }
}

/// The octets of an optional PAN identifier field.
pub open spec fn opt_pan_bytes(o: Option<PanId>) -> Seq<u8> {
    match o {
        Some(p) => u16_bytes(p.0),
        None => Seq::empty(),
    }
}

/// PAN identifier presence for version 0/1 frames.
pub open spec fn spec_pan_presence_legacy(dst: AddressMode, src: AddressMode, compression: bool) -> (bool, bool) {
    if dst is Absent && src is Absent {
        (false, false)
    } else if src is Absent {
        (true, false)
    } else if dst is Absent {
        (false, true)
    } else {
        (true, !compression)
    }
}

/// PAN identifier presence for version 2 frames (IEEE 802.15.4-2015
/// Table 7-2).
pub open spec fn spec_pan_presence_v2(dst: AddressMode, src: AddressMode, compression: bool) -> (bool, bool) {
    let d_addr = dst is Short || dst is Extended;
    let s_addr = src is Short || src is Extended;
    if dst is Absent && src is Absent {
        (compression, false)
    } else if d_addr && src is Absent {
        (!compression, false)
    } else if dst is Absent && s_addr {
        (false, !compression)
    } else if dst is Extended && src is Extended {
        (!compression, false)
    } else if d_addr && s_addr {
        (true, !compression)
    } else {
        (false, false)
    }
}

/// Which PAN identifiers a frame control value says are present.
pub open spec fn spec_pan_presence(fc: FrameControl) -> (bool, bool) {
    if fc.spec_version() is V2015 {
        spec_pan_presence_v2(fc.spec_dst_mode(), fc.spec_src_mode(), fc.flag(FC_PAN_ID_COMPRESSION))
    } else {
        spec_pan_presence_legacy(fc.spec_dst_mode(), fc.spec_src_mode(), fc.flag(FC_PAN_ID_COMPRESSION))
    }
}

/// Whether a frame control value suppresses the sequence number.
pub open spec fn spec_seq_suppressed(fc: FrameControl) -> bool {
    fc.spec_version() is V2015 && fc.flag(FC_SEQ_SUPPRESSION)
}

/// Whether a frame control value announces header IEs.
pub open spec fn spec_has_header_ies(fc: FrameControl) -> bool {
    fc.spec_version() is V2015 && fc.flag(FC_IE_PRESENT)
}

/// Length of the header IE list starting at `pos`, up to and including
/// the terminating HT1 (0x7E) or HT2 (0x7F) element. Each element is a
/// `length(7) | id(8) | type(1)` word followed by `length` octets.
pub open spec fn spec_ie_list_len(s: Seq<u8>, pos: nat) -> Result<int, CodecError>
    decreases s.len() - pos,
{
    if pos + 2 > s.len() {
        Err(truncated(s, pos as int, 2))
    } else {
        let word = le16(s, pos as int);
        let len = (word & 0x7F) as int;
        let id = (word >> 7) & 0xFF;
        let next = pos + 2 + len;
        if next > s.len() {
            Err(CodecError::Truncated { needed: len as usize, available: (s.len() - (pos + 2)) as usize })
        } else if id == 0x7E || id == 0x7F {
            Ok(next)
        } else {
            spec_ie_list_len(s, next as nat)
        }
    }
}

/// A successful IE list length lies past its start and within the input.
pub proof fn lemma_ie_list_len_bounds(s: Seq<u8>, pos: nat)
    ensures
        spec_ie_list_len(s, pos) matches Ok(n) ==> pos + 2 <= n <= s.len(),
    decreases s.len() - pos,
{
    if pos + 2 <= s.len() {
        let word = le16(s, pos as int);
        let next = pos + 2 + (word & 0x7F) as int;
        if next <= s.len() {
            lemma_ie_list_len_bounds(s, next as nat);
        }
    }
}

/// The IE list length depends only on the octets up to its end:
/// anything may follow, and anything past it may be cut.
pub proof fn lemma_ie_list_len_prefix(s: Seq<u8>, t: Seq<u8>, pos: nat)
    requires
        spec_ie_list_len(s, pos) is Ok,
        t.len() >= spec_ie_list_len(s, pos)->Ok_0,
        t.subrange(0, spec_ie_list_len(s, pos)->Ok_0) == s.subrange(0, spec_ie_list_len(s, pos)->Ok_0),
    ensures
        spec_ie_list_len(t, pos) == spec_ie_list_len(s, pos),
    decreases s.len() - pos,
{
    lemma_ie_list_len_bounds(s, pos);
    let n = spec_ie_list_len(s, pos)->Ok_0;
    assert(s[pos as int] == s.subrange(0, n)[pos as int]);
    assert(t[pos as int] == t.subrange(0, n)[pos as int]);
    assert(s[pos + 1int] == s.subrange(0, n)[pos + 1int]);
    assert(t[pos + 1int] == t.subrange(0, n)[pos + 1int]);
    let word = le16(s, pos as int);
    assert(le16(t, pos as int) == word);
    let len = (word & 0x7F) as int;
    let id = (word >> 7) & 0xFF;
    let next = pos + 2 + len;
    if !(id == 0x7E || id == 0x7F) {
        lemma_ie_list_len_bounds(s, next as nat);
        lemma_ie_list_len_prefix(s, t, next as nat);
    }
}

/// A parsed MAC header; IEs are exposed raw.
#[derive(Clone, Copy, PartialEq, Eq, Debug)]
pub struct Header<'a> {
    /// Frame control.
    pub frame_control: FrameControl,
    /// Sequence number, absent only when suppressed in version 2 frames.
    pub sequence: Option<u8>,
    /// Destination PAN identifier when present.
    pub dst_pan: Option<PanId>,
    /// Destination address.
    pub dst: MacAddress,
    /// Source PAN identifier when present.
    pub src_pan: Option<PanId>,
    /// Source address.
    pub src: MacAddress,
    /// Raw header information elements (version 2 frames), empty
    /// otherwise; includes the terminating HT1/HT2 element.
    pub header_ies: &'a [u8],
}

/// The mathematical content of a [`Header`].
pub struct HeaderView {
    /// Frame control.
    pub frame_control: FrameControl,
    /// Sequence number.
    pub sequence: Option<u8>,
    /// Destination PAN identifier.
    pub dst_pan: Option<PanId>,
    /// Destination address.
    pub dst: MacAddress,
    /// Source PAN identifier.
    pub src_pan: Option<PanId>,
    /// Source address.
    pub src: MacAddress,
    /// Header IE octets.
    pub header_ies: Seq<u8>,
}

impl<'a> View for Header<'a> {
    type V = HeaderView;

    open spec fn view(&self) -> HeaderView {
        HeaderView {
            frame_control: self.frame_control,
            sequence: self.sequence,
            dst_pan: self.dst_pan,
            dst: self.dst,
            src_pan: self.src_pan,
            src: self.src,
            header_ies: self.header_ies@,
        }
    }
}

impl HeaderView {
    /// The header [`Header::new`] builds: frame version 0, PAN ID
    /// compression when both addresses are present on one PAN.
    pub open spec fn spec_new(
        frame_type: FrameType,
        sequence: u8,
        dst_pan: PanId,
        dst: MacAddress,
        src_pan: PanId,
        src: MacAddress,
    ) -> HeaderView {
        let both = !(dst is Absent) && !(src is Absent);
        let compress = both && dst_pan == src_pan;
        HeaderView {
            frame_control: FrameControl(spec_with_bit(
                (((frame_type.spec_bits() | (FrameVersion::V2003.spec_bits() << 12)) & !0x0C00u16)
                    | (dst.spec_mode().spec_bits() << 10)) & !0xC000u16 | (src.spec_mode().spec_bits() << 14),
                FC_PAN_ID_COMPRESSION,
                compress,
            )),
            sequence: Some(sequence),
            dst_pan: if dst is Absent && src is Absent {
                None
            } else if src is Absent {
                Some(dst_pan)
            } else if dst is Absent {
                None
            } else {
                Some(dst_pan)
            },
            dst,
            src_pan: if dst is Absent && src is Absent {
                None
            } else if src is Absent {
                None
            } else if dst is Absent {
                Some(src_pan)
            } else if compress {
                None
            } else {
                Some(src_pan)
            },
            src,
            header_ies: Seq::empty(),
        }
    }

    /// The wire octets of a header.
    pub open spec fn spec_encode(self) -> Seq<u8> {
        u16_bytes(self.frame_control.0) + (opt_u8_bytes(self.sequence) + (opt_pan_bytes(self.dst_pan)
            + (self.dst.spec_encode() + (opt_pan_bytes(self.src_pan) + (self.src.spec_encode()
            + self.header_ies)))))
    }

    /// A header whose fields agree with its frame control, so that it
    /// decodes back from its own encoding.
    pub open spec fn wf(self) -> bool {
        let fc = self.frame_control;
        &&& !(fc.spec_dst_mode() is Reserved)
        &&& !(fc.spec_src_mode() is Reserved)
        &&& !(fc.spec_version() is Reserved)
        &&& !fc.flag(FC_SECURITY_ENABLED)
        &&& self.dst.spec_mode() == fc.spec_dst_mode()
        &&& self.src.spec_mode() == fc.spec_src_mode()
        &&& self.sequence.is_some() == !spec_seq_suppressed(fc)
        &&& self.dst_pan.is_some() == spec_pan_presence(fc).0
        &&& self.src_pan.is_some() == spec_pan_presence(fc).1
        &&& if spec_has_header_ies(fc) {
            spec_ie_list_len(self.header_ies, 0) == Ok::<int, CodecError>(self.header_ies.len() as int)
        } else {
            self.header_ies.len() == 0
        }
    }
}

/// An optional one-octet field at `pos`.
pub open spec fn spec_read_opt_u8(s: Seq<u8>, pos: int, present: bool) -> Result<(Option<u8>, int), CodecError> {
    if !present {
        Ok((None, pos))
    } else if pos + 1 <= s.len() {
        Ok((Some(s[pos]), pos + 1))
    } else {
        Err(truncated(s, pos, 1))
    }
}

/// An optional PAN identifier at `pos`.
pub open spec fn spec_read_opt_pan(s: Seq<u8>, pos: int, present: bool) -> Result<(Option<PanId>, int), CodecError> {
    if !present {
        Ok((None, pos))
    } else if pos + 2 <= s.len() {
        Ok((Some(PanId(le16(s, pos))), pos + 2))
    } else {
        Err(truncated(s, pos, 2))
    }
}

/// An address field of `mode` at `pos`.
pub open spec fn spec_read_addr(s: Seq<u8>, pos: int, mode: AddressMode) -> Result<(MacAddress, int), CodecError> {
    match mode {
        AddressMode::Absent => Ok((MacAddress::Absent, pos)),
        AddressMode::Short => if pos + 2 <= s.len() {
            Ok((MacAddress::Short(ShortAddress(le16(s, pos))), pos + 2))
        } else {
            Err(truncated(s, pos, 2))
        },
        AddressMode::Extended => if pos + 8 <= s.len() {
            Ok((MacAddress::Extended(ExtendedAddress(le64(s, pos))), pos + 8))
        } else {
            Err(truncated(s, pos, 8))
        },
        AddressMode::Reserved => Err(CodecError::InvalidField { field: Field::MacAddressMode, value: 1 }),
    }
}

/// Sequence number, destination PAN and destination address after the
/// frame control, and where they end.
#[verifier::opaque]
pub open spec fn spec_decode_dst(s: Seq<u8>, fc: FrameControl) -> Result<(Option<u8>, Option<PanId>, MacAddress, int), CodecError> {
    match spec_read_opt_u8(s, 2, !spec_seq_suppressed(fc)) {
        Err(e) => Err(e),
        Ok((sequence, p1)) => match spec_read_opt_pan(s, p1, spec_pan_presence(fc).0) {
            Err(e) => Err(e),
            Ok((dst_pan, p2)) => match spec_read_addr(s, p2, fc.spec_dst_mode()) {
                Err(e) => Err(e),
                Ok((dst, p3)) => Ok((sequence, dst_pan, dst, p3)),
            },
        },
    }
}

/// Source PAN and source address at `p3`, and where they end.
#[verifier::opaque]
pub open spec fn spec_decode_src(s: Seq<u8>, fc: FrameControl, p3: int) -> Result<(Option<PanId>, MacAddress, int), CodecError> {
    match spec_read_opt_pan(s, p3, spec_pan_presence(fc).1) {
        Err(e) => Err(e),
        Ok((src_pan, p4)) => match spec_read_addr(s, p4, fc.spec_src_mode()) {
            Err(e) => Err(e),
            Ok((src, p5)) => Ok((src_pan, src, p5)),
        },
    }
}

/// The header IE list at `p5` when `present`, and where it ends.
#[verifier::opaque]
pub open spec fn spec_decode_ies(s: Seq<u8>, p5: int, present: bool) -> Result<(Seq<u8>, int), CodecError> {
    if present {
        match spec_ie_list_len(s.subrange(p5, s.len() as int), 0) {
            Err(e) => Err(e),
            Ok(n) => Ok((s.subrange(p5, p5 + n), p5 + n)),
        }
    } else {
        Ok((Seq::empty(), p5))
    }
}

/// The header at the front of `s` and the octets it occupies.
pub open spec fn spec_decode_header(s: Seq<u8>) -> Result<(HeaderView, int), CodecError> {
    if s.len() < 2 {
        Err(truncated(s, 0, 2))
    } else {
        let fc = FrameControl(le16(s, 0));
        if fc.spec_dst_mode() is Reserved || fc.spec_src_mode() is Reserved {
            Err(CodecError::InvalidField { field: Field::MacAddressMode, value: 1 })
        } else if fc.spec_version() is Reserved {
            Err(CodecError::InvalidField { field: Field::MacFrameVersion, value: 3 })
        } else {
            match spec_decode_dst(s, fc) {
                Err(e) => Err(e),
                Ok((sequence, dst_pan, dst, p3)) => match spec_decode_src(s, fc, p3) {
                    Err(e) => Err(e),
                    Ok((src_pan, src, p5)) => if fc.flag(FC_SECURITY_ENABLED) {
                        Err(CodecError::Unsupported { what: Field::MacSecurity })
                    } else {
                        match spec_decode_ies(s, p5, spec_has_header_ies(fc)) {
                            Err(e) => Err(e),
                            Ok((header_ies, end)) => Ok((
                                HeaderView { frame_control: fc, sequence, dst_pan, dst, src_pan, src, header_ies },
                                end,
                            )),
                        }
                    },
                },
            }
        }
    }
}

/// A decode of the whole input: what [`spec_decode_header`] gives, with
/// any octets left over reported.
pub open spec fn exact<T>(r: Result<(T, int), CodecError>, len: int) -> Result<T, CodecError> {
    match r {
        Err(e) => Err(e),
        Ok((v, n)) => if n == len {
            Ok(v)
        } else {
            Err(CodecError::TrailingBytes { count: (len - n) as usize })
        },
    }
}

fn pan_presence_legacy(dst: AddressMode, src: AddressMode, compression: bool) -> (r: (bool, bool))
    ensures
        r == spec_pan_presence_legacy(dst, src, compression),
{
    let d_none = matches!(dst, AddressMode::Absent);
    let s_none = matches!(src, AddressMode::Absent);
    if d_none && s_none {
        (false, false)
    } else if s_none {
        (true, false)
    } else if d_none {
        (false, true)
    } else {
        (true, !compression)
    }
}

fn pan_presence_v2(dst: AddressMode, src: AddressMode, compression: bool) -> (r: (bool, bool))
    ensures
        r == spec_pan_presence_v2(dst, src, compression),
{
    let d_none = matches!(dst, AddressMode::Absent);
    let s_none = matches!(src, AddressMode::Absent);
    let d_addr = matches!(dst, AddressMode::Short | AddressMode::Extended);
    let s_addr = matches!(src, AddressMode::Short | AddressMode::Extended);
    let both_ext = matches!(dst, AddressMode::Extended) && matches!(src, AddressMode::Extended);
    if d_none && s_none {
        (compression, false)
    } else if d_addr && s_none {
        (!compression, false)
    } else if d_none && s_addr {
        (false, !compression)
    } else if both_ext {
        (!compression, false)
    } else if d_addr && s_addr {
        (true, !compression)
    } else {
        (false, false)
    }
}

fn pan_presence(fc: FrameControl) -> (r: (bool, bool))
    ensures
        r == spec_pan_presence(fc),
{
    match fc.version() {
        FrameVersion::V2015 => pan_presence_v2(fc.dst_mode(), fc.src_mode(), fc.pan_id_compression()),
        _ => pan_presence_legacy(fc.dst_mode(), fc.src_mode(), fc.pan_id_compression()),
    }
}

fn read_opt_u8(s: &[u8], pos: usize, present: bool) -> (r: Result<(Option<u8>, usize), CodecError>)
    requires
        pos <= s@.len(),
    ensures
        match r {
            Ok((v, p)) => spec_read_opt_u8(s@, pos as int, present) == Ok::<(Option<u8>, int), CodecError>((v, p as int)) && p <= s@.len(),
            Err(e) => spec_read_opt_u8(s@, pos as int, present) == Err::<(Option<u8>, int), CodecError>(e),
        },
{
    if !present {
        Ok((None, pos))
    } else {
        let v = match read_u8(s, pos) {
            Ok(v) => v,
            Err(e) => return Err(e),
        };
        Ok((Some(v), pos + 1))
    }
}

fn read_opt_pan(s: &[u8], pos: usize, present: bool) -> (r: Result<(Option<PanId>, usize), CodecError>)
    requires
        pos <= s@.len(),
    ensures
        match r {
            Ok((v, p)) => spec_read_opt_pan(s@, pos as int, present) == Ok::<(Option<PanId>, int), CodecError>((v, p as int)) && p <= s@.len(),
            Err(e) => spec_read_opt_pan(s@, pos as int, present) == Err::<(Option<PanId>, int), CodecError>(e),
        },
{
    if !present {
        Ok((None, pos))
    } else {
        let v = match read_u16_le(s, pos) {
            Ok(v) => v,
            Err(e) => return Err(e),
        };
        Ok((Some(PanId(v)), pos + 2))
    }
}

fn decode_address(s: &[u8], pos: usize, mode: AddressMode) -> (r: Result<(MacAddress, usize), CodecError>)
    requires
        pos <= s@.len(),
    ensures
        match r {
            Ok((v, p)) => spec_read_addr(s@, pos as int, mode) == Ok::<(MacAddress, int), CodecError>((v, p as int)) && p <= s@.len(),
            Err(e) => spec_read_addr(s@, pos as int, mode) == Err::<(MacAddress, int), CodecError>(e),
        },
{
    match mode {
        AddressMode::Absent => Ok((MacAddress::Absent, pos)),
        AddressMode::Short => {
            let v = match read_u16_le(s, pos) {
                Ok(v) => v,
                Err(e) => return Err(e),
            };
            Ok((MacAddress::Short(ShortAddress(v)), pos + 2))
        },
        AddressMode::Extended => {
            let v = match read_u64_le(s, pos) {
                Ok(v) => v,
                Err(e) => return Err(e),
            };
            Ok((MacAddress::Extended(ExtendedAddress(v)), pos + 8))
        },
        AddressMode::Reserved => Err(CodecError::InvalidField { field: Field::MacAddressMode, value: 1 }),
    }
}

fn encode_address(out: &mut Vec<u8>, a: MacAddress)
    ensures
        final(out)@ == old(out)@ + a.spec_encode(),
{
    match a {
        MacAddress::Absent => {
            assert(out@ =~= old(out)@ + a.spec_encode());
        },
        MacAddress::Short(s) => push_u16_le(out, s.0),
        MacAddress::Extended(e) => push_u64_le(out, e.0),
    }
}

/// Length of the header IE list at the front of `bytes`.
fn header_ie_list_len(bytes: &[u8]) -> (r: Result<usize, CodecError>)
    ensures
        match r {
            Ok(n) => spec_ie_list_len(bytes@, 0) == Ok::<int, CodecError>(n as int),
            Err(e) => spec_ie_list_len(bytes@, 0) == Err::<int, CodecError>(e),
        },
{
    let mut pos: usize = 0;
    loop
        invariant
            pos <= bytes@.len(),
            spec_ie_list_len(bytes@, 0) == spec_ie_list_len(bytes@, pos as nat),
        decreases bytes@.len() - pos,
    {
        if bytes.len() - pos < 2 {
            return Err(CodecError::Truncated { needed: 2, available: bytes.len() - pos });
        }
        let word = ((bytes[pos] as u16) | ((bytes[pos + 1] as u16) << 8)) as u16;
        let len = (word & 0x7F) as usize;
        let id = (word >> 7) & 0xFF;
        if bytes.len() - pos - 2 < len {
            return Err(CodecError::Truncated { needed: len, available: bytes.len() - (pos + 2) });
        }
        let next = pos + 2 + len;
        if id == 0x7E || id == 0x7F {
            return Ok(next);
        }
        pos = next;
    }
}

impl<'a> Header<'a> {
    /// Builds a frame-version-0 header with automatic PAN ID compression:
    /// when both addresses are present and the PAN identifiers are equal
    /// the source PAN is omitted and the compression bit set.
    pub fn new(
        frame_type: FrameType,
        sequence: u8,
        dst_pan: PanId,
        dst: MacAddress,
        src_pan: PanId,
        src: MacAddress,
    ) -> (h: Header<'a>)
        ensures
            ({
                let both = !(dst is Absent) && !(src is Absent);
                let compress = both && dst_pan == src_pan;
                &&& h.frame_control.0 == spec_with_bit(
                    (((frame_type.spec_bits() | (FrameVersion::V2003.spec_bits() << 12)) & !0x0C00u16)
                        | (dst.spec_mode().spec_bits() << 10)) & !0xC000u16 | (src.spec_mode().spec_bits() << 14),
                    FC_PAN_ID_COMPRESSION,
                    compress,
                )
                &&& h.sequence == Some(sequence)
                &&& h.dst == dst
                &&& h.src == src
                &&& h.dst_pan == (if dst is Absent && src is Absent {
                    None
                } else if src is Absent {
                    Some(dst_pan)
                } else if dst is Absent {
                    None
                } else {
                    Some(dst_pan)
                })
                &&& h.src_pan == (if dst is Absent && src is Absent {
                    None
                } else if src is Absent {
                    None
                } else if dst is Absent {
                    Some(src_pan)
                } else if compress {
                    None
                } else {
                    Some(src_pan)
                })
                &&& h.header_ies@.len() == 0
            }),
            h@ == HeaderView::spec_new(frame_type, sequence, dst_pan, dst, src_pan, src),
    {
        let fc = FrameControl::new(frame_type, FrameVersion::V2003).with_dst_mode(dst.mode()).with_src_mode(src.mode());
        let d_none = matches!(dst, MacAddress::Absent);
        let s_none = matches!(src, MacAddress::Absent);
        let both = !d_none && !s_none;
        let compress = both && dst_pan == src_pan;
        let fc = fc.with_pan_id_compression(compress);
        let (dp, sp) = if d_none && s_none {
            (None, None)
        } else if s_none {
            (Some(dst_pan), None)
        } else if d_none {
            (None, Some(src_pan))
        } else if compress {
            (Some(dst_pan), None)
        } else {
            (Some(dst_pan), Some(src_pan))
        };
        let empty: &'a [u8] = &[];
        assert(empty@ =~= Seq::<u8>::empty());
        Header {
            frame_control: fc,
            sequence: Some(sequence),
            dst_pan: dp,
            dst,
            src_pan: sp,
            src,
            header_ies: empty,
        }
    }

    /// Builds an acknowledgement header for `sequence`.
    pub fn ack(sequence: u8, frame_pending: bool) -> (h: Header<'a>)
        ensures
            h.frame_control.0 == spec_with_bit(0x0002, FC_FRAME_PENDING, frame_pending),
            h.sequence == Some(sequence),
            h.dst_pan.is_none() && h.src_pan.is_none(),
            h.dst is Absent && h.src is Absent,
            h.header_ies@.len() == 0,
    {
        let fc = FrameControl::new(FrameType::Ack, FrameVersion::V2003).with_frame_pending(frame_pending);
        assert((2u16 | (0u16 << 12u16)) == 2u16) by (bit_vector);
        let empty: &'a [u8] = &[];
        Header {
            frame_control: fc,
            sequence: Some(sequence),
            dst_pan: None,
            dst: MacAddress::Absent,
            src_pan: None,
            src: MacAddress::Absent,
            header_ies: empty,
        }
    }

    /// The PAN identifier that applies to the destination (explicit or
    /// compressed from the source).
    pub fn effective_dst_pan(&self) -> (p: Option<PanId>)
        ensures
            p == (if self.dst_pan is Some { self.dst_pan } else { self.src_pan }),
    {
        match self.dst_pan {
            Some(p) => Some(p),
            None => self.src_pan,
        }
    }

    /// The PAN identifier that applies to the source.
    pub fn effective_src_pan(&self) -> (p: Option<PanId>)
        ensures
            p == (if self.src_pan is Some { self.src_pan } else { self.dst_pan }),
    {
        match self.src_pan {
            Some(p) => Some(p),
            None => self.dst_pan,
        }
    }

    /// Serialised header length.
    pub fn encoded_len(&self) -> (n: usize)
        requires
            self.header_ies@.len() <= usize::MAX - 32,
        ensures
            n == self@.spec_encode().len(),
    {
        let seq_len: usize = if self.sequence.is_some() { 1 } else { 0 };
        let dp: usize = if self.dst_pan.is_some() { 2 } else { 0 };
        let sp: usize = if self.src_pan.is_some() { 2 } else { 0 };
        2 + seq_len + dp + self.dst.encoded_len() + sp + self.src.encoded_len() + self.header_ies.len()
    }

    /// Appends the header's octets to `out`.
    pub fn encode(&self, out: &mut Vec<u8>)
        ensures
            final(out)@ == old(out)@ + self@.spec_encode(),
    {
        push_u16_le(out, self.frame_control.0);
        if let Some(s) = self.sequence {
            push_u8(out, s);
        }
        assert(out@ =~= old(out)@ + u16_bytes(self.frame_control.0) + opt_u8_bytes(self.sequence));
        let ghost o1 = out@;
        if let Some(p) = self.dst_pan {
            push_u16_le(out, p.0);
        }
        assert(out@ =~= o1 + opt_pan_bytes(self.dst_pan));
        encode_address(out, self.dst);
        let ghost o2 = out@;
        if let Some(p) = self.src_pan {
            push_u16_le(out, p.0);
        }
        assert(out@ =~= o2 + opt_pan_bytes(self.src_pan));
        encode_address(out, self.src);
        push_bytes(out, self.header_ies);
        assert(out@ =~= old(out)@ + self@.spec_encode());
    }

    /// Writes the header into the front of `buf`, returning its length.
    pub fn encode_to_slice(&self, buf: &mut [u8]) -> (r: Result<usize, CodecError>)
        ensures
            ({
                let enc = self@.spec_encode();
                &&& enc.len() <= old(buf)@.len() ==> r == Ok::<usize, CodecError>(enc.len() as usize)
                    && final(buf)@.subrange(0, enc.len() as int) == enc
                &&& enc.len() > old(buf)@.len() ==> r == Err::<usize, CodecError>(CodecError::BufferTooSmall {
                    needed: enc.len() as usize,
                    available: old(buf)@.len() as usize,
                })
            }),
    {
        let mut out: Vec<u8> = Vec::new();
        self.encode(&mut out);
        copy_to_slice(&out, buf)
    }

    /// Decodes a header from the front of `bytes`, returning it with the
    /// number of octets it occupies.
    pub fn decode(bytes: &'a [u8]) -> (r: Result<(Header<'a>, usize), CodecError>)
        ensures
            match r {
                Ok((h, n)) => spec_decode_header(bytes@) == Ok::<(HeaderView, int), CodecError>((h@, n as int)) && n <= bytes@.len(),
                Err(e) => spec_decode_header(bytes@) == Err::<(HeaderView, int), CodecError>(e),
            },
    {
        proof {
            reveal(spec_decode_dst);
            reveal(spec_decode_src);
            reveal(spec_decode_ies);
        }
        let raw = match read_u16_le(bytes, 0) {
            Ok(v) => v,
            Err(e) => return Err(e),
        };
        let fc = FrameControl(raw);
        if matches!(fc.dst_mode(), AddressMode::Reserved) || matches!(fc.src_mode(), AddressMode::Reserved) {
            return Err(CodecError::InvalidField { field: Field::MacAddressMode, value: 1 });
        }
        if matches!(fc.version(), FrameVersion::Reserved) {
            return Err(CodecError::InvalidField { field: Field::MacFrameVersion, value: 3 });
        }
        let v2015 = matches!(fc.version(), FrameVersion::V2015);
        let seq_suppressed = v2015 && fc.seq_suppression();
        let (dst_pan_present, src_pan_present) = pan_presence(fc);
        let (sequence, p1) = match read_opt_u8(bytes, 2, !seq_suppressed) {
            Ok(v) => v,
            Err(e) => return Err(e),
        };
        let (dst_pan, p2) = match read_opt_pan(bytes, p1, dst_pan_present) {
            Ok(v) => v,
            Err(e) => return Err(e),
        };
        let (dst, p3) = match decode_address(bytes, p2, fc.dst_mode()) {
            Ok(v) => v,
            Err(e) => return Err(e),
        };
        let (src_pan, p4) = match read_opt_pan(bytes, p3, src_pan_present) {
            Ok(v) => v,
            Err(e) => return Err(e),
        };
        let (src, p5) = match decode_address(bytes, p4, fc.src_mode()) {
            Ok(v) => v,
            Err(e) => return Err(e),
        };
        if fc.security_enabled() {
            return Err(CodecError::Unsupported { what: Field::MacSecurity });
        }
        if v2015 && fc.ie_present() {
            let rest = vstd::slice::slice_subrange(bytes, p5, bytes.len());
            let n = match header_ie_list_len(rest) {
                Ok(v) => v,
                Err(e) => return Err(e),
            };
            proof {
                lemma_ie_list_len_bounds(rest@, 0);
            }
            let header_ies = vstd::slice::slice_subrange(bytes, p5, p5 + n);
            assert(header_ies@ =~= bytes@.subrange(p5 as int, p5 + n));
            Ok((Header { frame_control: fc, sequence, dst_pan, dst, src_pan, src, header_ies }, p5 + n))
        } else {
            let empty: &'a [u8] = &[];
            assert(empty@ =~= Seq::<u8>::empty());
            Ok((Header { frame_control: fc, sequence, dst_pan, dst, src_pan, src, header_ies: empty }, p5))
        }
    }

    /// Decodes a header that must occupy all of `bytes`.
    pub fn decode_exact(bytes: &'a [u8]) -> (r: Result<Header<'a>, CodecError>)
        ensures
            match r {
                Ok(h) => exact(spec_decode_header(bytes@), bytes@.len() as int) == Ok::<HeaderView, CodecError>(h@),
                Err(e) => exact(spec_decode_header(bytes@), bytes@.len() as int) == Err::<HeaderView, CodecError>(e),
            },
    {
        let (h, n) = match Self::decode(bytes) {
            Ok(v) => v,
            Err(e) => return Err(e),
        };
        if n == bytes.len() {
            Ok(h)
        } else {
            Err(CodecError::TrailingBytes { count: bytes.len() - n })
        }
    }
}

/// Where each field of an encoded header stands.
proof fn lemma_header_layout(h: HeaderView, rest: Seq<u8>)
    ensures
        ({
            let s = h.spec_encode() + rest;
            let p1: int = 2 + opt_u8_bytes(h.sequence).len() as int;
            let p2: int = p1 + opt_pan_bytes(h.dst_pan).len();
            let p3: int = p2 + h.dst.spec_encode().len();
            let p4: int = p3 + opt_pan_bytes(h.src_pan).len();
            let p5: int = p4 + h.src.spec_encode().len();
            &&& s.len() == p5 + h.header_ies.len() + rest.len()
            &&& s.subrange(0, 2) == u16_bytes(h.frame_control.0)
            &&& s.subrange(2, p1) == opt_u8_bytes(h.sequence)
            &&& s.subrange(p1, p2) == opt_pan_bytes(h.dst_pan)
            &&& s.subrange(p2, p3) == h.dst.spec_encode()
            &&& s.subrange(p3, p4) == opt_pan_bytes(h.src_pan)
            &&& s.subrange(p4, p5) == h.src.spec_encode()
            &&& s.subrange(p5, s.len() as int) == h.header_ies + rest
            &&& h.spec_encode().len() == p5 + h.header_ies.len()
        }),
{
    let fc = h.frame_control;
    let a = u16_bytes(fc.0);
    let b = opt_u8_bytes(h.sequence);
    let c = opt_pan_bytes(h.dst_pan);
    let d = h.dst.spec_encode();
    let e = opt_pan_bytes(h.src_pan);
    let f = h.src.spec_encode();
    let g = h.header_ies;
    let s = h.spec_encode() + rest;
    let t5 = g + rest;
    let t4 = f + t5;
    let t3 = e + t4;
    let t2 = d + t3;
    let t1 = c + t2;
    let t0 = b + t1;
    lemma_regroup(a, b + (c + (d + (e + (f + g)))), rest);
    lemma_regroup(b, c + (d + (e + (f + g))), rest);
    lemma_regroup(c, d + (e + (f + g)), rest);
    lemma_regroup(d, e + (f + g), rest);
    lemma_regroup(e, f + g, rest);
    lemma_regroup(f, g, rest);
    assert(s.subrange(0, s.len() as int) == a + t0) by {
        assert(s.subrange(0, s.len() as int) =~= s);
    }
    lemma_step(s, 0, a, t0);
    let p1: int = 2 + b.len() as int;
    lemma_step(s, 2, b, t1);
    let p2: int = p1 + c.len();
    lemma_step(s, p1, c, t2);
    let p3: int = p2 + d.len();
    lemma_step(s, p2, d, t3);
    let p4: int = p3 + e.len();
    lemma_step(s, p3, e, t4);
    lemma_step(s, p4, f, t5);
}

proof fn lemma_dst_stage(h: HeaderView, s: Seq<u8>, p1: int, p2: int, p3: int)
    requires
        h.wf(),
        p1 == 2 + opt_u8_bytes(h.sequence).len(),
        p2 == p1 + opt_pan_bytes(h.dst_pan).len(),
        p3 == p2 + h.dst.spec_encode().len(),
        p3 <= s.len(),
        s.subrange(2, p1) == opt_u8_bytes(h.sequence),
        s.subrange(p1, p2) == opt_pan_bytes(h.dst_pan),
        s.subrange(p2, p3) == h.dst.spec_encode(),
    ensures
        spec_decode_dst(s, h.frame_control) == Ok::<(Option<u8>, Option<PanId>, MacAddress, int), CodecError>((h.sequence, h.dst_pan, h.dst, p3)),
{
    reveal(spec_decode_dst);
    if let Some(v) = h.sequence {
        assert(s[2] == s.subrange(2, p1)[0]);
    }
    if let Some(p) = h.dst_pan {
        lemma_le16_at(s, p1, p.0);
    }
    match h.dst {
        MacAddress::Short(x) => lemma_le16_at(s, p2, x.0),
        MacAddress::Extended(x) => lemma_le64_at(s, p2, x.0),
        MacAddress::Absent => {},
    }
}

proof fn lemma_src_stage(h: HeaderView, s: Seq<u8>, p3: int, p4: int, p5: int)
    requires
        h.wf(),
        0 <= p3,
        p4 == p3 + opt_pan_bytes(h.src_pan).len(),
        p5 == p4 + h.src.spec_encode().len(),
        p5 <= s.len(),
        s.subrange(p3, p4) == opt_pan_bytes(h.src_pan),
        s.subrange(p4, p5) == h.src.spec_encode(),
    ensures
        spec_decode_src(s, h.frame_control, p3) == Ok::<(Option<PanId>, MacAddress, int), CodecError>((h.src_pan, h.src, p5)),
{
    reveal(spec_decode_src);
    if let Some(p) = h.src_pan {
        lemma_le16_at(s, p3, p.0);
    }
    match h.src {
        MacAddress::Short(x) => lemma_le16_at(s, p4, x.0),
        MacAddress::Extended(x) => lemma_le64_at(s, p4, x.0),
        MacAddress::Absent => {},
    }
}

proof fn lemma_ies_stage(h: HeaderView, s: Seq<u8>, rest: Seq<u8>, p5: int)
    requires
        h.wf(),
        0 <= p5 <= s.len(),
        s.subrange(p5, s.len() as int) == h.header_ies + rest,
    ensures
        spec_decode_ies(s, p5, spec_has_header_ies(h.frame_control)) == Ok::<(Seq<u8>, int), CodecError>((h.header_ies, p5 + h.header_ies.len())),
{
    reveal(spec_decode_ies);
    let g = h.header_ies;
    let t5 = g + rest;
    if spec_has_header_ies(h.frame_control) {
        assert(t5.subrange(0, g.len() as int) =~= g.subrange(0, g.len() as int));
        lemma_ie_list_len_prefix(g, t5, 0);
        assert(s.subrange(p5, p5 + g.len()) =~= t5.subrange(0, g.len() as int));
        assert(t5.subrange(0, g.len() as int) =~= g);
    } else {
        assert(g =~= Seq::<u8>::empty());
    }
}

/// Decoding the encoding of a well-formed header gives the header back,
/// whatever octets follow it.
#[verifier::spinoff_prover]
pub proof fn lemma_header_encode_decode(h: HeaderView, rest: Seq<u8>)
    requires
        h.wf(),
    ensures
        spec_decode_header(h.spec_encode() + rest) == Ok::<(HeaderView, int), CodecError>((h, h.spec_encode().len() as int)),
{
    let fc = h.frame_control;
    let s = h.spec_encode() + rest;
    let p1: int = 2 + opt_u8_bytes(h.sequence).len() as int;
    let p2: int = p1 + opt_pan_bytes(h.dst_pan).len();
    let p3: int = p2 + h.dst.spec_encode().len();
    let p4: int = p3 + opt_pan_bytes(h.src_pan).len();
    let p5: int = p4 + h.src.spec_encode().len();
    lemma_header_layout(h, rest);
    lemma_le16_at(s, 0, fc.0);
    lemma_dst_stage(h, s, p1, p2, p3);
    lemma_src_stage(h, s, p3, p4, p5);
    lemma_ies_stage(h, s, rest, p5);
}

proof fn lemma_dst_stage_rev(s: Seq<u8>, fc: FrameControl)
    requires
        s.len() >= 2,
        spec_decode_dst(s, fc) is Ok,
    ensures
        ({
            let (sq, dp, dst, p3) = spec_decode_dst(s, fc)->Ok_0;
            let p1: int = 2 + opt_u8_bytes(sq).len() as int;
            let p2: int = p1 + opt_pan_bytes(dp).len();
            &&& p3 == p2 + dst.spec_encode().len()
            &&& p3 <= s.len()
            &&& p1 <= s.len()
            &&& s.subrange(2, p1) == opt_u8_bytes(sq)
            &&& s.subrange(p1, p2) == opt_pan_bytes(dp)
            &&& s.subrange(p2, p3) == dst.spec_encode()
            &&& dst.spec_mode() == fc.spec_dst_mode()
            &&& sq.is_some() == !spec_seq_suppressed(fc)
            &&& dp.is_some() == spec_pan_presence(fc).0
        }),
{
    reveal(spec_decode_dst);
    let (sq, dp, dst, p3) = spec_decode_dst(s, fc)->Ok_0;
    let p1: int = 2 + opt_u8_bytes(sq).len() as int;
    let p2: int = p1 + opt_pan_bytes(dp).len();
    assert(opt_u8_bytes(sq) =~= s.subrange(2, p1));
    if dp is Some {
        lemma_u16_bytes_of_le16(s, p1);
    }
    assert(opt_pan_bytes(dp) =~= s.subrange(p1, p2));
    match dst {
        MacAddress::Short(_) => lemma_u16_bytes_of_le16(s, p2),
        MacAddress::Extended(_) => lemma_u64_bytes_of_le64(s, p2),
        MacAddress::Absent => {},
    }
    assert(dst.spec_encode() =~= s.subrange(p2, p3));
}

proof fn lemma_src_stage_rev(s: Seq<u8>, fc: FrameControl, p3: int)
    requires
        0 <= p3 <= s.len(),
        spec_decode_src(s, fc, p3) is Ok,
    ensures
        ({
            let (sp, src, p5) = spec_decode_src(s, fc, p3)->Ok_0;
            let p4: int = p3 + opt_pan_bytes(sp).len();
            &&& p5 == p4 + src.spec_encode().len()
            &&& p5 <= s.len()
            &&& s.subrange(p3, p4) == opt_pan_bytes(sp)
            &&& s.subrange(p4, p5) == src.spec_encode()
            &&& src.spec_mode() == fc.spec_src_mode()
            &&& sp.is_some() == spec_pan_presence(fc).1
        }),
{
    reveal(spec_decode_src);
    let (sp, src, p5) = spec_decode_src(s, fc, p3)->Ok_0;
    let p4: int = p3 + opt_pan_bytes(sp).len();
    if sp is Some {
        lemma_u16_bytes_of_le16(s, p3);
    }
    assert(opt_pan_bytes(sp) =~= s.subrange(p3, p4));
    match src {
        MacAddress::Short(_) => lemma_u16_bytes_of_le16(s, p4),
        MacAddress::Extended(_) => lemma_u64_bytes_of_le64(s, p4),
        MacAddress::Absent => {},
    }
    assert(src.spec_encode() =~= s.subrange(p4, p5));
}

proof fn lemma_ies_stage_rev(s: Seq<u8>, p5: int, present: bool)
    requires
        0 <= p5 <= s.len(),
        spec_decode_ies(s, p5, present) is Ok,
    ensures
        ({
            let (ies, end) = spec_decode_ies(s, p5, present)->Ok_0;
            &&& p5 <= end <= s.len()
            &&& ies == s.subrange(p5, end)
            &&& if present {
                spec_ie_list_len(ies, 0) == Ok::<int, CodecError>(ies.len() as int)
            } else {
                ies.len() == 0
            }
        }),
{
    reveal(spec_decode_ies);
    let (ies, end) = spec_decode_ies(s, p5, present)->Ok_0;
    if present {
        let t = s.subrange(p5, s.len() as int);
        lemma_ie_list_len_bounds(t, 0);
        let m = spec_ie_list_len(t, 0)->Ok_0;
        assert(ies =~= t.subrange(0, m));
        assert(ies.subrange(0, m) =~= t.subrange(0, m));
        lemma_ie_list_len_prefix(t, ies, 0);
    } else {
        assert(ies =~= s.subrange(p5, end));
    }
}

/// Adjacent ranges join.
proof fn lemma_join(s: Seq<u8>, a: int, b: int, c: int)
    requires
        0 <= a <= b <= c <= s.len(),
    ensures
        s.subrange(a, b) + s.subrange(b, c) == s.subrange(a, c),
{
    assert(s.subrange(a, b) + s.subrange(b, c) =~= s.subrange(a, c));
}

/// A decoded header is well formed and its encoding is exactly the
/// octets it was decoded from.
#[verifier::spinoff_prover]
pub proof fn lemma_header_decode_encode(s: Seq<u8>)
    ensures
        spec_decode_header(s) matches Ok((h, n)) ==> h.wf() && 0 <= n <= s.len() && h.spec_encode()
            == s.subrange(0, n),
{
    if let Ok((h, n)) = spec_decode_header(s) {
        let fc = h.frame_control;
        lemma_u16_bytes_of_le16(s, 0);
        lemma_dst_stage_rev(s, fc);
        let p3 = spec_decode_dst(s, fc)->Ok_0.3;
        lemma_src_stage_rev(s, fc, p3);
        let p5 = spec_decode_src(s, fc, p3)->Ok_0.2;
        lemma_ies_stage_rev(s, p5, spec_has_header_ies(fc));
        let p1: int = 2 + opt_u8_bytes(h.sequence).len() as int;
        let p2: int = p1 + opt_pan_bytes(h.dst_pan).len();
        let p4: int = p3 + opt_pan_bytes(h.src_pan).len();
        lemma_join(s, p4, p5, n);
        lemma_join(s, p3, p4, n);
        lemma_join(s, p2, p3, n);
        lemma_join(s, p1, p2, n);
        lemma_join(s, 2, p1, n);
        lemma_join(s, 0, 2, n);
    }
}

/// A complete MAC frame: header plus raw payload (MSDU, beacon body or
/// command).
#[derive(Clone, Copy, PartialEq, Eq, Debug)]
pub struct Frame<'a> {
    /// Parsed header.
    pub header: Header<'a>,
    /// Frame payload after the header (and IEs).
    pub payload: &'a [u8],
}

/// The frame a sequence of octets decodes to: its header and every octet
/// after it.
pub open spec fn spec_decode_frame(s: Seq<u8>) -> Result<(HeaderView, Seq<u8>), CodecError> {
    match spec_decode_header(s) {
        Err(e) => Err(e),
        Ok((h, n)) => Ok((h, s.subrange(n, s.len() as int))),
    }
}

impl<'a> Frame<'a> {
    /// The wire octets of a frame.
    pub open spec fn spec_encode(&self) -> Seq<u8> {
        self.header@.spec_encode() + self.payload@
    }

    /// Decodes a frame; the payload is every octet after the header.
    pub fn decode_exact(bytes: &'a [u8]) -> (r: Result<Frame<'a>, CodecError>)
        ensures
            match r {
                Ok(f) => spec_decode_frame(bytes@) == Ok::<(HeaderView, Seq<u8>), CodecError>((f.header@, f.payload@)),
                Err(e) => spec_decode_frame(bytes@) == Err::<(HeaderView, Seq<u8>), CodecError>(e),
            },
    {
        let (header, n) = match Header::decode(bytes) {
            Ok(v) => v,
            Err(e) => return Err(e),
        };
        let payload = vstd::slice::slice_subrange(bytes, n, bytes.len());
        Ok(Frame { header, payload })
    }

    /// Serialised length.
    pub fn encoded_len(&self) -> (n: usize)
        requires
            self.header.header_ies@.len() + self.payload@.len() <= usize::MAX - 32,
        ensures
            n == self.spec_encode().len(),
    {
        self.header.encoded_len() + self.payload.len()
    }

    /// Appends the frame's octets to `out`.
    pub fn encode(&self, out: &mut Vec<u8>)
        ensures
            final(out)@ == old(out)@ + self.spec_encode(),
    {
        self.header.encode(out);
        push_bytes(out, self.payload);
        assert(out@ =~= old(out)@ + self.spec_encode());
    }

    /// Writes the frame into the front of `buf`, returning its length.
    pub fn encode_to_slice(&self, buf: &mut [u8]) -> (r: Result<usize, CodecError>)
        ensures
            ({
                let enc = self.spec_encode();
                &&& enc.len() <= old(buf)@.len() ==> r == Ok::<usize, CodecError>(enc.len() as usize)
                    && final(buf)@.subrange(0, enc.len() as int) == enc
                &&& enc.len() > old(buf)@.len() ==> r == Err::<usize, CodecError>(CodecError::BufferTooSmall {
                    needed: enc.len() as usize,
                    available: old(buf)@.len() as usize,
                })
            }),
    {
        let mut out: Vec<u8> = Vec::new();
        self.encode(&mut out);
        copy_to_slice(&out, buf)
    }
}

/// A frame with a well-formed header decodes from its own encoding to the
/// same header and payload.
pub proof fn lemma_frame_round_trip(h: HeaderView, payload: Seq<u8>)
    requires
        h.wf(),
    ensures
        spec_decode_frame(h.spec_encode() + payload) == Ok::<(HeaderView, Seq<u8>), CodecError>((h, payload)),
{
    lemma_header_encode_decode(h, payload);
    lemma_concat_parts(h.spec_encode(), payload);
}

/// A decoded frame re-encodes to the octets it came from.
pub proof fn lemma_frame_decode_encode(s: Seq<u8>)
    ensures
        spec_decode_frame(s) matches Ok((h, p)) ==> h.wf() && h.spec_encode() + p == s,
{
    lemma_header_decode_encode(s);
    if let Ok((h, n)) = spec_decode_header(s) {
        assert(s.subrange(0, n) + s.subrange(n, s.len() as int) =~= s);
    }
}

/// Superframe specification field of a beacon.
#[derive(Clone, Copy, PartialEq, Eq, Debug, Default, Structural)]
pub struct SuperframeSpec {
    /// Beacon order (15 for non-beacon PANs).
    pub beacon_order: u8,
    /// Superframe order (15 for non-beacon PANs).
    pub superframe_order: u8,
    /// Final CAP slot.
    pub final_cap_slot: u8,
    /// Battery life extension.
    pub battery_life_extension: bool,
    /// Set when the sender is the PAN coordinator.
    pub pan_coordinator: bool,
    /// Set when the sender accepts association requests.
    pub association_permit: bool,
}

/// 1 for true, 0 for false.
pub open spec fn bit16(b: bool) -> u16 {
    if b {
        1
    } else {
        0
    }
}

/// The superframe specification field: beacon order in bits 0-3,
/// superframe order in bits 4-7, final CAP slot in bits 8-11, battery life
/// extension 0x1000, PAN coordinator 0x4000, association permit 0x8000
/// (bit 13 reserved, clear); decoding reads the same positions.
pub proof fn lemma_superframe_layout(ss: SuperframeSpec, v: u16)
    ensures
        ss.wf() ==> {
            let r = ss.spec_to_raw();
            &&& r & 0xF == ss.beacon_order
            &&& (r >> 4u16) & 0xF == ss.superframe_order
            &&& (r >> 8u16) & 0xF == ss.final_cap_slot
            &&& (r & 0x1000 != 0) == ss.battery_life_extension
            &&& (r & 0x4000 != 0) == ss.pan_coordinator
            &&& (r & 0x8000 != 0) == ss.association_permit
            &&& r & 0x2000 == 0
        },
        SuperframeSpec::spec_from_raw(v).association_permit == (v & 0x8000 != 0),
        SuperframeSpec::spec_from_raw(v).pan_coordinator == (v & 0x4000 != 0),
        SuperframeSpec::spec_from_raw(v).battery_life_extension == (v & 0x1000 != 0),
        SuperframeSpec::spec_from_raw(v).beacon_order == v & 0xF,
{
    lemma_wire_bits(0, 0, 0, 0, 0, 0, v, 0, 0, 0, 0, 0, 0);
    if ss.wf() {
        let bo = ss.beacon_order as u16;
        let so = ss.superframe_order as u16;
        let fcs = ss.final_cap_slot as u16;
        let a: u16 = if ss.battery_life_extension { 1 } else { 0 };
        let b: u16 = if ss.pan_coordinator { 1 } else { 0 };
        let c: u16 = if ss.association_permit { 1 } else { 0 };
        let r = ss.spec_to_raw();
        assert(r == (bo & 0xF) | ((so & 0xF) << 4) | ((fcs & 0xF) << 8) | (a << 12) | (b << 14) | (c << 15));
        lemma_wire_bits(0, 0, 0, 0, 0, 0, 0, bo, so, fcs, a, b, c);
    }
}

impl SuperframeSpec {
    /// The wire value of a superframe specification.
    pub open spec fn spec_to_raw(self) -> u16 {
        ((self.beacon_order as u16) & 0xF) | (((self.superframe_order as u16) & 0xF) << 4) | (((
        self.final_cap_slot as u16) & 0xF) << 8) | (bit16(self.battery_life_extension) << 12) | (
        bit16(self.pan_coordinator) << 14) | (bit16(self.association_permit) << 15)
    }

    /// The superframe specification a wire value denotes.
    pub open spec fn spec_from_raw(v: u16) -> SuperframeSpec {
        SuperframeSpec {
            beacon_order: (v & 0xF) as u8,
            superframe_order: ((v >> 4) & 0xF) as u8,
            final_cap_slot: ((v >> 8) & 0xF) as u8,
            battery_life_extension: (v >> 12) & 1 != 0,
            pan_coordinator: (v >> 14) & 1 != 0,
            association_permit: (v >> 15) & 1 != 0,
        }
    }

    /// Every four-bit field is below 16.
    pub open spec fn wf(self) -> bool {
        self.beacon_order < 16 && self.superframe_order < 16 && self.final_cap_slot < 16
    }

    /// Non-beacon superframe specification as used by Zigbee routers and
    /// coordinators.
    pub fn non_beacon(pan_coordinator: bool, association_permit: bool) -> (s: SuperframeSpec)
        ensures
            s == (SuperframeSpec {
                beacon_order: 15,
                superframe_order: 15,
                final_cap_slot: 15,
                battery_life_extension: false,
                pan_coordinator,
                association_permit,
            }),
    {
        SuperframeSpec {
            beacon_order: 15,
            superframe_order: 15,
            final_cap_slot: 15,
            battery_life_extension: false,
            pan_coordinator,
            association_permit,
        }
    }

    /// Wire encoding.
    pub fn to_raw(self) -> (v: u16)
        ensures
            v == self.spec_to_raw(),
    {
        let ble: u16 = if self.battery_life_extension { 1 } else { 0 };
        let pc: u16 = if self.pan_coordinator { 1 } else { 0 };
        let ap: u16 = if self.association_permit { 1 } else { 0 };
        ((self.beacon_order as u16) & 0xF) | (((self.superframe_order as u16) & 0xF) << 4) | (((
        self.final_cap_slot as u16) & 0xF) << 8) | (ble << 12) | (pc << 14) | (ap << 15)
    }

    /// Parses the wire encoding (bit 13 is reserved and ignored).
    pub fn from_raw(v: u16) -> (s: SuperframeSpec)
        ensures
            s == Self::spec_from_raw(v),
            s.wf(),
    {
        assert((v & 0xF) < 16 && ((v >> 4) & 0xF) < 16 && ((v >> 8) & 0xF) < 16) by (bit_vector);
        SuperframeSpec {
            beacon_order: (v & 0xF) as u8,
            superframe_order: ((v >> 4) & 0xF) as u8,
            final_cap_slot: ((v >> 8) & 0xF) as u8,
            battery_life_extension: (v >> 12) & 1 != 0,
            pan_coordinator: (v >> 14) & 1 != 0,
            association_permit: (v >> 15) & 1 != 0,
        }
    }
}

/// Parsing the encoding of a superframe specification gives it back;
/// encoding a parsed value gives the wire value with the reserved bit 13
/// cleared.
pub proof fn lemma_superframe_round_trip(s: SuperframeSpec, v: u16)
    ensures
        s.wf() ==> SuperframeSpec::spec_from_raw(s.spec_to_raw()) == s,
        SuperframeSpec::spec_from_raw(v).spec_to_raw() == v & 0xDFFF,
{
    let bo = s.beacon_order as u16;
    let so = s.superframe_order as u16;
    let fcs = s.final_cap_slot as u16;
    let ble = bit16(s.battery_life_extension);
    let pc = bit16(s.pan_coordinator);
    let ap = bit16(s.association_permit);
    let raw = s.spec_to_raw();
    if s.wf() {
        assert(((raw & 0xF) == bo && ((raw >> 4) & 0xF) == so && ((raw >> 8) & 0xF) == fcs && ((raw
            >> 12) & 1) == ble && ((raw >> 14) & 1) == pc && ((raw >> 15) & 1) == ap)) by (bit_vector)
            requires
                bo < 16,
                so < 16,
                fcs < 16,
                ble < 2,
                pc < 2,
                ap < 2,
                raw == (bo & 0xF) | ((so & 0xF) << 4) | ((fcs & 0xF) << 8) | (ble << 12) | (pc << 14)
                    | (ap << 15),
        ;
    }
    let t = SuperframeSpec::spec_from_raw(v);
    let b12 = bit16(t.battery_life_extension);
    let b14 = bit16(t.pan_coordinator);
    let b15 = bit16(t.association_permit);
    assert(b12 == (v >> 12) & 1 && b14 == (v >> 14) & 1 && b15 == (v >> 15) & 1) by {
        assert(((v >> 12) & 1) < 2 && ((v >> 14) & 1) < 2 && ((v >> 15) & 1) < 2) by (bit_vector);
    }
    assert(((v & 0xF) as u8) as u16 == v & 0xF && (((v >> 4) & 0xF) as u8) as u16 == (v >> 4) & 0xF
        && (((v >> 8) & 0xF) as u8) as u16 == (v >> 8) & 0xF) by (bit_vector);
    assert(((v & 0xF) & 0xF) | ((((v >> 4) & 0xF) & 0xF) << 4) | ((((v >> 8) & 0xF) & 0xF) << 8) | (((
    v >> 12) & 1) << 12) | (((v >> 14) & 1) << 14) | (((v >> 15) & 1) << 15) == v & 0xDFFF)
        by (bit_vector);
}

/// A beacon frame body. GTS and pending-address lists are parsed for
/// length only.
#[derive(Clone, Copy, PartialEq, Eq, Debug)]
pub struct Beacon<'a> {
    /// Superframe specification.
    pub superframe: SuperframeSpec,
    /// Number of pending short addresses advertised.
    pub pending_short: u8,
    /// Number of pending extended addresses advertised.
    pub pending_extended: u8,
    /// Beacon payload (the Zigbee NWK beacon payload).
    pub payload: &'a [u8],
}

/// The mathematical content of a [`Beacon`].
pub struct BeaconView {
    /// Superframe specification.
    pub superframe: SuperframeSpec,
    /// Pending short addresses.
    pub pending_short: u8,
    /// Pending extended addresses.
    pub pending_extended: u8,
    /// Payload octets.
    pub payload: Seq<u8>,
}

impl<'a> View for Beacon<'a> {
    type V = BeaconView;

    open spec fn view(&self) -> BeaconView {
        BeaconView {
            superframe: self.superframe,
            pending_short: self.pending_short,
            pending_extended: self.pending_extended,
            payload: self.payload@,
        }
    }
}

/// The beacon body a sequence of octets decodes to: superframe
/// specification, GTS fields (skipped), pending address fields (counted
/// and skipped) and the payload.
pub open spec fn spec_decode_beacon(s: Seq<u8>) -> Result<BeaconView, CodecError> {
    if s.len() < 2 {
        Err(truncated(s, 0, 2))
    } else if s.len() < 3 {
        Err(truncated(s, 2, 1))
    } else {
        let superframe = SuperframeSpec::spec_from_raw(le16(s, 0));
        let gts_count = (s[2] & 0x7) as int;
        let skip1 = if gts_count > 0 { 1 + 3 * gts_count } else { 0 };
        if 3 + skip1 > s.len() {
            Err(truncated(s, 3, skip1))
        } else if 3 + skip1 + 1 > s.len() {
            Err(truncated(s, 3 + skip1, 1))
        } else {
            let pending = s[3 + skip1];
            let ps = pending & 0x7;
            let pe = (pending >> 4) & 0x7;
            let p = 4 + skip1;
            let skip2 = 2 * ps + 8 * pe;
            if p + skip2 > s.len() {
                Err(truncated(s, p, skip2))
            } else {
                Ok(
                    BeaconView {
                        superframe,
                        pending_short: ps,
                        pending_extended: pe,
                        payload: s.subrange(p + skip2, s.len() as int),
                    },
                )
            }
        }
    }
}

impl BeaconView {
    /// The wire octets of a beacon body with empty GTS and pending
    /// address lists.
    pub open spec fn spec_encode(self) -> Seq<u8> {
        u16_bytes(self.superframe.spec_to_raw()) + seq![0u8, 0u8] + self.payload
    }
}

impl<'a> Beacon<'a> {
    /// Builds a non-beacon-PAN beacon with a payload.
    pub fn non_beacon(pan_coordinator: bool, association_permit: bool, payload: &'a [u8]) -> (b: Beacon<'a>)
        ensures
            b.superframe == SuperframeSpec::non_beacon_spec(pan_coordinator, association_permit),
            b.pending_short == 0,
            b.pending_extended == 0,
            b.payload == payload,
    {
        Beacon {
            superframe: SuperframeSpec::non_beacon(pan_coordinator, association_permit),
            pending_short: 0,
            pending_extended: 0,
            payload,
        }
    }

    /// Decodes a beacon body occupying all of `bytes`.
    pub fn decode_exact(bytes: &'a [u8]) -> (r: Result<Beacon<'a>, CodecError>)
        ensures
            match r {
                Ok(b) => spec_decode_beacon(bytes@) == Ok::<BeaconView, CodecError>(b@),
                Err(e) => spec_decode_beacon(bytes@) == Err::<BeaconView, CodecError>(e),
            },
    {
        let raw = match read_u16_le(bytes, 0) {
            Ok(v) => v,
            Err(e) => return Err(e),
        };
        let superframe = SuperframeSpec::from_raw(raw);
        let gts = match read_u8(bytes, 2) {
            Ok(v) => v,
            Err(e) => return Err(e),
        };
        let gts_count = (gts & 0x7) as usize;
        assert(gts & 0x7 < 8) by (bit_vector);
        let skip1: usize = if gts_count > 0 { 1 + 3 * gts_count } else { 0 };
        if bytes.len() - 3 < skip1 {
            return Err(CodecError::Truncated { needed: skip1, available: bytes.len() - 3 });
        }
        let pending = match read_u8(bytes, 3 + skip1) {
            Ok(v) => v,
            Err(e) => return Err(e),
        };
        let pending_short = pending & 0x7;
        let pending_extended = (pending >> 4) & 0x7;
        assert(pending & 0x7 < 8 && (pending >> 4) & 0x7 < 8) by (bit_vector);
        let p = 4 + skip1;
        let skip2 = 2 * (pending_short as usize) + 8 * (pending_extended as usize);
        if bytes.len() - p < skip2 {
            return Err(CodecError::Truncated { needed: skip2, available: bytes.len() - p });
        }
        let payload = vstd::slice::slice_subrange(bytes, p + skip2, bytes.len());
        Ok(Beacon { superframe, pending_short, pending_extended, payload })
    }

    /// Serialised length.
    pub fn encoded_len(&self) -> (n: usize)
        requires
            self.payload@.len() <= usize::MAX - 4,
        ensures
            n == 4 + self.payload@.len(),
    {
        4 + self.payload.len()
    }

    /// Appends the beacon body's octets to `out`; a pending address list
    /// cannot be encoded.
    pub fn encode(&self, out: &mut Vec<u8>) -> (r: Result<(), CodecError>)
        ensures
            (self.pending_short != 0 || self.pending_extended != 0) ==> r == Err::<(), CodecError>(
                CodecError::Unsupported { what: Field::BeaconPendingList },
            ) && final(out)@ == old(out)@,
            (self.pending_short == 0 && self.pending_extended == 0) ==> r is Ok && final(out)@ == old(out)@ + self@.spec_encode(),
    {
        if self.pending_short != 0 || self.pending_extended != 0 {
            return Err(CodecError::Unsupported { what: Field::BeaconPendingList });
        }
        push_u16_le(out, self.superframe.to_raw());
        push_u8(out, 0);
        push_u8(out, 0);
        push_bytes(out, self.payload);
        assert(out@ =~= old(out)@ + self@.spec_encode());
        Ok(())
    }

    /// Writes the beacon body into the front of `buf`, returning its
    /// length.
    pub fn encode_to_slice(&self, buf: &mut [u8]) -> (r: Result<usize, CodecError>)
        ensures
            (self.pending_short != 0 || self.pending_extended != 0) ==> r == Err::<usize, CodecError>(
                CodecError::Unsupported { what: Field::BeaconPendingList },
            ),
            (self.pending_short == 0 && self.pending_extended == 0) ==> ({
                let enc = self@.spec_encode();
                &&& enc.len() <= old(buf)@.len() ==> r == Ok::<usize, CodecError>(enc.len() as usize)
                    && final(buf)@.subrange(0, enc.len() as int) == enc
                &&& enc.len() > old(buf)@.len() ==> r == Err::<usize, CodecError>(CodecError::BufferTooSmall {
                    needed: enc.len() as usize,
                    available: old(buf)@.len() as usize,
                })
            }),
    {
        let mut out: Vec<u8> = Vec::new();
        match self.encode(&mut out) {
            Ok(()) => {},
            Err(e) => return Err(e),
        }
        assert(out@ =~= self@.spec_encode());
        copy_to_slice(&out, buf)
    }
}

impl SuperframeSpec {
    /// The non-beacon superframe specification.
    pub open spec fn non_beacon_spec(pan_coordinator: bool, association_permit: bool) -> SuperframeSpec {
        SuperframeSpec {
            beacon_order: 15,
            superframe_order: 15,
            final_cap_slot: 15,
            battery_life_extension: false,
            pan_coordinator,
            association_permit,
        }
    }
}

/// A beacon body is the superframe specification (least significant
/// octet first), an empty GTS field and an empty pending address field,
/// then the beacon payload; a non-beacon PAN's superframe specification
/// has beacon order, superframe order and final CAP slot all 15.
pub proof fn lemma_beacon_octets(b: BeaconView, pan_coordinator: bool, association_permit: bool)
    ensures
        ({
            let s = b.spec_encode();
            &&& s.len() == 4 + b.payload.len()
            &&& s[0] as int + 256 * (s[1] as int) == b.superframe.spec_to_raw() as int
            &&& s[2] == 0
            &&& s[3] == 0
            &&& s.subrange(4, s.len() as int) == b.payload
        }),
        ({
            let r = SuperframeSpec::non_beacon_spec(pan_coordinator, association_permit).spec_to_raw();
            &&& r & 0x0FFF == 0x0FFF
            &&& (r & 0x4000 != 0) == pan_coordinator
            &&& (r & 0x8000 != 0) == association_permit
        }),
{
    let s = b.spec_encode();
    lemma_u16_octets(b.superframe.spec_to_raw());
    assert(s.subrange(4, s.len() as int) =~= b.payload);
    let ss = SuperframeSpec::non_beacon_spec(pan_coordinator, association_permit);
    lemma_superframe_layout(ss, 0);
    let r = ss.spec_to_raw();
    lemma_wire_bits(0, 0, 0, 0, 0, 0, r, 0, 0, 0, 0, 0, 0);
}

/// A beacon body without pending addresses decodes from its encoding to
/// itself.
pub proof fn lemma_beacon_round_trip(b: BeaconView)
    requires
        b.superframe.wf(),
        b.pending_short == 0,
        b.pending_extended == 0,
    ensures
        spec_decode_beacon(b.spec_encode()) == Ok::<BeaconView, CodecError>(b),
{
    let s = b.spec_encode();
    assert(s.subrange(0, 2) =~= u16_bytes(b.superframe.spec_to_raw()));
    lemma_le16_at(s, 0, b.superframe.spec_to_raw());
    lemma_superframe_round_trip(b.superframe, 0);
    assert(s[2] == 0u8 && s[3] == 0u8);
    assert(0u8 & 0x7 == 0 && (0u8 >> 4u8) & 0x7 == 0) by (bit_vector);
    assert(s.subrange(4, s.len() as int) =~= b.payload);
}

/// The MAC frame control layout (IEEE 802.15.4 Figure 7-2): frame type in
/// bits 0-2 (beacon 0, data 1, acknowledgement 2, command 3), security
/// 0x0008, frame pending 0x0010, acknowledgement request 0x0020, PAN ID
/// compression 0x0040, sequence number suppression 0x0100, IE present
/// 0x0200, destination addressing mode in bits 10-11, frame version in
/// bits 12-13 and source addressing mode in bits 14-15 (absent 0, short 2,
/// extended 3; versions 2003 0, 2006 1, 2015 2).
pub proof fn lemma_mac_frame_control_layout()
    ensures
        FrameType::Beacon.spec_bits() == 0,
        FrameType::Data.spec_bits() == 1,
        FrameType::Ack.spec_bits() == 2,
        FrameType::Command.spec_bits() == 3,
        FrameVersion::V2003.spec_bits() == 0,
        FrameVersion::V2006.spec_bits() == 1,
        FrameVersion::V2015.spec_bits() == 2,
        AddressMode::Absent.spec_bits() == 0,
        AddressMode::Short.spec_bits() == 2,
        AddressMode::Extended.spec_bits() == 3,
        FC_SECURITY_ENABLED == 0x0008,
        FC_FRAME_PENDING == 0x0010,
        FC_ACK_REQUEST == 0x0020,
        FC_PAN_ID_COMPRESSION == 0x0040,
        FC_SEQ_SUPPRESSION == 0x0100,
        FC_IE_PRESENT == 0x0200,
        forall|fc: FrameControl| (fc.spec_frame_type() == FrameType::Beacon) <==> fc.0 & 0x7 == 0,
        forall|fc: FrameControl| (fc.spec_frame_type() == FrameType::Data) <==> fc.0 & 0x7 == 1,
        forall|fc: FrameControl| (fc.spec_frame_type() == FrameType::Ack) <==> fc.0 & 0x7 == 2,
        forall|fc: FrameControl| (fc.spec_frame_type() == FrameType::Command) <==> fc.0 & 0x7 == 3,
        forall|fc: FrameControl| (fc.spec_dst_mode() == AddressMode::Absent) <==> (fc.0 >> 10u16) & 0x3 == 0,
        forall|fc: FrameControl| (fc.spec_dst_mode() == AddressMode::Short) <==> (fc.0 >> 10u16) & 0x3 == 2,
        forall|fc: FrameControl| (fc.spec_dst_mode() == AddressMode::Extended) <==> (fc.0 >> 10u16) & 0x3 == 3,
        forall|fc: FrameControl| (fc.spec_src_mode() == AddressMode::Absent) <==> (fc.0 >> 14u16) & 0x3 == 0,
        forall|fc: FrameControl| (fc.spec_src_mode() == AddressMode::Short) <==> (fc.0 >> 14u16) & 0x3 == 2,
        forall|fc: FrameControl| (fc.spec_src_mode() == AddressMode::Extended) <==> (fc.0 >> 14u16) & 0x3 == 3,
        forall|fc: FrameControl| (fc.spec_version() == FrameVersion::V2003) <==> (fc.0 >> 12u16) & 0x3 == 0,
        forall|fc: FrameControl| (fc.spec_version() == FrameVersion::V2015) <==> (fc.0 >> 12u16) & 0x3 == 2,
{
    assert forall|v: u16| #[trigger] (v & 0x3) <= 3 && (v & 0x7) <= 7 by {
        lemma_wire_bits(0, 0, 0, 0, 0, 0, v, 0, 0, 0, 0, 0, 0);
    }
}

/// A short address field is two octets, least significant first; an
/// extended one the eight octets of the address, least significant
/// first; an absent one nothing.
pub proof fn lemma_mac_address_octets(a: MacAddress)
    ensures
        a matches MacAddress::Short(x) ==> a.spec_encode().len() == 2 && a.spec_encode()[0] as int + 256 * (
        a.spec_encode()[1] as int) == x.0 as int,
        a matches MacAddress::Extended(e) ==> a.spec_encode() == u64_bytes(e.0),
        a is Absent ==> a.spec_encode().len() == 0,
{
    if let MacAddress::Short(x) = a {
        lemma_u16_octets(x.0);
    }
}

/// PAN identifier presence in 2003/2006 frames: the destination PAN is
/// present exactly with a destination address; the source PAN with a
/// source address, unless a destination address is present too and PAN ID
/// compression is set.
pub proof fn lemma_pan_presence_legacy(dst: AddressMode, src: AddressMode, compression: bool)
    ensures
        spec_pan_presence_legacy(dst, src, compression).0 == !(dst is Absent),
        spec_pan_presence_legacy(dst, src, compression).1 == (!(src is Absent) && (dst is Absent || !compression)),
{
}

/// The MAC header's layout: frame control (least significant octet
/// first), the sequence number when present, the destination PAN, the
/// destination address, the source PAN and the source address, each when
/// present, then the header IEs.
pub proof fn lemma_mac_header_octets(h: HeaderView)
    ensures
        ({
            let s = h.spec_encode();
            let a: int = 2int + opt_u8_bytes(h.sequence).len();
            let b: int = a + opt_pan_bytes(h.dst_pan).len();
            let c: int = b + h.dst.spec_encode().len();
            let d: int = c + opt_pan_bytes(h.src_pan).len();
            let e: int = d + h.src.spec_encode().len();
            &&& s.len() == e + h.header_ies.len()
            &&& s[0] as int + 256 * (s[1] as int) == h.frame_control.0 as int
            &&& h.sequence matches Some(q) ==> s[2] == q
            &&& h.dst_pan matches Some(p) ==> s[a] as int + 256 * (s[a + 1] as int) == p.0 as int
            &&& s.subrange(b, c) == h.dst.spec_encode()
            &&& h.src_pan matches Some(p) ==> s[c] as int + 256 * (s[c + 1] as int) == p.0 as int
            &&& s.subrange(d, e) == h.src.spec_encode()
            &&& s.subrange(e, s.len() as int) == h.header_ies
        }),
{
    let s = h.spec_encode();
    let a: int = 2int + opt_u8_bytes(h.sequence).len();
    let b: int = a + opt_pan_bytes(h.dst_pan).len();
    let c: int = b + h.dst.spec_encode().len();
    let d: int = c + opt_pan_bytes(h.src_pan).len();
    let e: int = d + h.src.spec_encode().len();
    let p0 = u16_bytes(h.frame_control.0);
    let p1 = opt_u8_bytes(h.sequence);
    let p2 = opt_pan_bytes(h.dst_pan);
    let p3 = h.dst.spec_encode();
    let p4 = opt_pan_bytes(h.src_pan);
    let p5 = h.src.spec_encode();
    let p6 = h.header_ies;
    let t5 = p5 + p6;
    let t4 = p4 + t5;
    let t3 = p3 + t4;
    let t2 = p2 + t3;
    let t1 = p1 + t2;
    assert(s == p0 + t1);
    assert(s.subrange(0, s.len() as int) =~= s);
    lemma_step(s, 0, p0, t1);
    lemma_step(s, 2, p1, t2);
    lemma_step(s, a, p2, t3);
    lemma_step(s, b, p3, t4);
    lemma_step(s, c, p4, t5);
    lemma_step(s, d, p5, p6);
    lemma_u16_octets(h.frame_control.0);
    assert(s[0] == s.subrange(0, 2)[0] && s[1] == s.subrange(0, 2)[1]);
    if let Some(q) = h.sequence {
        assert(s[2] == s.subrange(2, 3)[0]);
    }
    if let Some(p) = h.dst_pan {
        lemma_u16_octets(p.0);
        assert(s[a] == s.subrange(a, a + 2)[0] && s[a + 1] == s.subrange(a, a + 2)[1]);
    }
    if let Some(p) = h.src_pan {
        lemma_u16_octets(p.0);
        assert(s[c] == s.subrange(c, c + 2)[0] && s[c + 1] == s.subrange(c, c + 2)[1]);
    }
}

/// MAC command identifiers (IEEE 802.15.4-2015 Table 7-49).
#[derive(Clone, Copy, PartialEq, Eq, Hash, Debug, Structural)]
pub enum MacCommandId {
    /// Association request.
    AssociationRequest,
    /// Association response.
    AssociationResponse,
    /// Disassociation notification.
    DisassociationNotification,
    /// Data request.
    DataRequest,
    /// PAN ID conflict notification.
    PanIdConflictNotification,
    /// Orphan notification.
    OrphanNotification,
    /// Beacon request.
    BeaconRequest,
    /// Coordinator realignment.
    CoordinatorRealignment,
    /// GTS request.
    GtsRequest,
    /// Any other identifier (reserved or 2015 additions).
    Other(u8),
}

impl MacCommandId {
    /// Wire value of an identifier.
    pub open spec fn spec_raw(self) -> u8 {
        match self {
            MacCommandId::AssociationRequest => 0x01,
            MacCommandId::AssociationResponse => 0x02,
            MacCommandId::DisassociationNotification => 0x03,
            MacCommandId::DataRequest => 0x04,
            MacCommandId::PanIdConflictNotification => 0x05,
            MacCommandId::OrphanNotification => 0x06,
            MacCommandId::BeaconRequest => 0x07,
            MacCommandId::CoordinatorRealignment => 0x08,
            MacCommandId::GtsRequest => 0x09,
            MacCommandId::Other(v) => v,
        }
    }

    /// Identifier a wire value denotes.
    pub open spec fn spec_from_raw(v: u8) -> MacCommandId {
        if v == 0x01 {
            MacCommandId::AssociationRequest
        } else if v == 0x02 {
            MacCommandId::AssociationResponse
        } else if v == 0x03 {
            MacCommandId::DisassociationNotification
        } else if v == 0x04 {
            MacCommandId::DataRequest
        } else if v == 0x05 {
            MacCommandId::PanIdConflictNotification
        } else if v == 0x06 {
            MacCommandId::OrphanNotification
        } else if v == 0x07 {
            MacCommandId::BeaconRequest
        } else if v == 0x08 {
            MacCommandId::CoordinatorRealignment
        } else if v == 0x09 {
            MacCommandId::GtsRequest
        } else {
            MacCommandId::Other(v)
        }
    }

    /// Wire value.
    pub fn raw(self) -> (v: u8)
        ensures
            v == self.spec_raw(),
    {
        match self {
            MacCommandId::AssociationRequest => 0x01,
            MacCommandId::AssociationResponse => 0x02,
            MacCommandId::DisassociationNotification => 0x03,
            MacCommandId::DataRequest => 0x04,
            MacCommandId::PanIdConflictNotification => 0x05,
            MacCommandId::OrphanNotification => 0x06,
            MacCommandId::BeaconRequest => 0x07,
            MacCommandId::CoordinatorRealignment => 0x08,
            MacCommandId::GtsRequest => 0x09,
            MacCommandId::Other(v) => v,
        }
    }

    /// Parses a wire value.
    pub fn from_raw(v: u8) -> (id: MacCommandId)
        ensures
            id == Self::spec_from_raw(v),
    {
        if v == 0x01 {
            MacCommandId::AssociationRequest
        } else if v == 0x02 {
            MacCommandId::AssociationResponse
        } else if v == 0x03 {
            MacCommandId::DisassociationNotification
        } else if v == 0x04 {
            MacCommandId::DataRequest
        } else if v == 0x05 {
            MacCommandId::PanIdConflictNotification
        } else if v == 0x06 {
            MacCommandId::OrphanNotification
        } else if v == 0x07 {
            MacCommandId::BeaconRequest
        } else if v == 0x08 {
            MacCommandId::CoordinatorRealignment
        } else if v == 0x09 {
            MacCommandId::GtsRequest
        } else {
            MacCommandId::Other(v)
        }
    }
}

/// Every wire value parses to an identifier whose wire value it is.
pub proof fn lemma_mac_command_id_raw(v: u8)
    ensures
        MacCommandId::spec_from_raw(v).spec_raw() == v,
{
}

/// The MAC command identifiers take the wire values of IEEE 802.15.4
/// Table 7-49 (Association Request 0x01 up to GTS Request 0x09), in both
/// directions: each of those octets denotes exactly its command, and
/// every other octet is left as it is.
pub proof fn lemma_mac_command_id_wire_values()
    ensures
        MacCommandId::AssociationRequest.spec_raw() == 0x01,
        MacCommandId::AssociationResponse.spec_raw() == 0x02,
        MacCommandId::DisassociationNotification.spec_raw() == 0x03,
        MacCommandId::DataRequest.spec_raw() == 0x04,
        MacCommandId::PanIdConflictNotification.spec_raw() == 0x05,
        MacCommandId::OrphanNotification.spec_raw() == 0x06,
        MacCommandId::BeaconRequest.spec_raw() == 0x07,
        MacCommandId::CoordinatorRealignment.spec_raw() == 0x08,
        MacCommandId::GtsRequest.spec_raw() == 0x09,
        forall|v: u8| (MacCommandId::spec_from_raw(v) == MacCommandId::AssociationRequest) <==> v == 0x01,
        forall|v: u8| (MacCommandId::spec_from_raw(v) == MacCommandId::AssociationResponse) <==> v == 0x02,
        forall|v: u8| (MacCommandId::spec_from_raw(v) == MacCommandId::DisassociationNotification) <==> v == 0x03,
        forall|v: u8| (MacCommandId::spec_from_raw(v) == MacCommandId::DataRequest) <==> v == 0x04,
        forall|v: u8| (MacCommandId::spec_from_raw(v) == MacCommandId::PanIdConflictNotification) <==> v == 0x05,
        forall|v: u8| (MacCommandId::spec_from_raw(v) == MacCommandId::OrphanNotification) <==> v == 0x06,
        forall|v: u8| (MacCommandId::spec_from_raw(v) == MacCommandId::BeaconRequest) <==> v == 0x07,
        forall|v: u8| (MacCommandId::spec_from_raw(v) == MacCommandId::CoordinatorRealignment) <==> v == 0x08,
        forall|v: u8| (MacCommandId::spec_from_raw(v) == MacCommandId::GtsRequest) <==> v == 0x09,
        forall|v: u8| (v == 0 || v > 0x09) ==> MacCommandId::spec_from_raw(v) == MacCommandId::Other(v),
{
}

/// The first octet of an encoded MAC command is its identifier's Table
/// 7-49 value; the commands without a payload are that single octet
/// (a Data Request is `[0x04]`, an Orphan Notification `[0x06]`).
pub proof fn lemma_mac_command_first_octet(c: MacCommandView)
    ensures
        c.spec_encode().len() >= 1,
        c.spec_encode()[0] == (match c {
            MacCommandView::AssociationRequest { .. } => 0x01u8,
            MacCommandView::AssociationResponse { .. } => 0x02u8,
            MacCommandView::DisassociationNotification { .. } => 0x03u8,
            MacCommandView::DataRequest => 0x04u8,
            MacCommandView::PanIdConflictNotification => 0x05u8,
            MacCommandView::OrphanNotification => 0x06u8,
            MacCommandView::BeaconRequest => 0x07u8,
            MacCommandView::CoordinatorRealignment { .. } => 0x08u8,
            MacCommandView::Other { id, .. } => id,
        }),
        c is DataRequest ==> c.spec_encode() == seq![0x04u8],
        c is PanIdConflictNotification ==> c.spec_encode() == seq![0x05u8],
        c is OrphanNotification ==> c.spec_encode() == seq![0x06u8],
        c is BeaconRequest ==> c.spec_encode() == seq![0x07u8],
{
    assert(c is DataRequest ==> c.spec_encode() =~= seq![0x04u8]);
    assert(c is PanIdConflictNotification ==> c.spec_encode() =~= seq![0x05u8]);
    assert(c is OrphanNotification ==> c.spec_encode() =~= seq![0x06u8]);
    assert(c is BeaconRequest ==> c.spec_encode() =~= seq![0x07u8]);
}

/// The bodies of the MAC commands with parameters: an Association
/// Request carries the capability octet; an Association Response the
/// short address (least significant octet first) then the status; a
/// Disassociation Notification the reason (coordinator 1, device 2); a
/// Coordinator Realignment the PAN id, the coordinator's short address,
/// the channel, the short address and, when present, the channel page.
pub proof fn lemma_mac_command_bodies(c: MacCommandView)
    ensures
        ({
            let s = c.spec_encode();
            match c {
                MacCommandView::AssociationRequest { capability } => s == seq![0x01u8, capability.0],
                MacCommandView::AssociationResponse { short_address, status } => s.len() == 4 && s[1] as int + 256 * (
                s[2] as int) == short_address.0 as int && s[3] == status.spec_raw(),
                MacCommandView::DisassociationNotification { reason } => s == seq![0x03u8, reason.spec_raw()],
                MacCommandView::CoordinatorRealignment {
                    pan_id,
                    coordinator_short,
                    channel,
                    short_address,
                    channel_page,
                } => {
                    &&& s.len() == 8 + (if channel_page is Some { 1int } else { 0 })
                    &&& s[1] as int + 256 * (s[2] as int) == pan_id.0 as int
                    &&& s[3] as int + 256 * (s[4] as int) == coordinator_short.0 as int
                    &&& s[5] == channel
                    &&& s[6] as int + 256 * (s[7] as int) == short_address.0 as int
                    &&& channel_page matches Some(p) ==> s[8] == p
                },
                _ => true,
            }
        }),
        DisassociationReason::CoordinatorWishesDeviceToLeave.spec_raw() == 1,
        DisassociationReason::DeviceWishesToLeave.spec_raw() == 2,
        MacStatus::Success.spec_raw() == 0,
        MacStatus::PanAtCapacity.spec_raw() == 1,
        MacStatus::PanAccessDenied.spec_raw() == 2,
        MacStatus::ChannelAccessFailure.spec_raw() == 0xE1,
        MacStatus::NoAck.spec_raw() == 0xE9,
        MacStatus::NoData.spec_raw() == 0xEB,
        MacStatus::TransactionExpired.spec_raw() == 0xF0,
        MacStatus::TransactionOverflow.spec_raw() == 0xF1,
{
    let s = c.spec_encode();
    match c {
        MacCommandView::AssociationRequest { capability } => {
            assert(s =~= seq![0x01u8, capability.0]);
        },
        MacCommandView::AssociationResponse { short_address, status } => {
            lemma_u16_octets(short_address.0);
        },
        MacCommandView::DisassociationNotification { reason } => {
            assert(s =~= seq![0x03u8, reason.spec_raw()]);
        },
        MacCommandView::CoordinatorRealignment { pan_id, coordinator_short, channel, short_address, channel_page } => {
            lemma_u16_octets(pan_id.0);
            lemma_u16_octets(coordinator_short.0);
            lemma_u16_octets(short_address.0);
        },
        _ => {},
    }
}

/// Disassociation reasons.
#[derive(Clone, Copy, PartialEq, Eq, Hash, Debug, Structural)]
pub enum DisassociationReason {
    /// The coordinator wishes the device to leave.
    CoordinatorWishesDeviceToLeave,
    /// The device wishes to leave.
    DeviceWishesToLeave,
    /// Reserved or unknown value.
    Other(u8),
}

impl DisassociationReason {
    /// Wire value of a reason.
    pub open spec fn spec_raw(self) -> u8 {
        match self {
            DisassociationReason::CoordinatorWishesDeviceToLeave => 1,
            DisassociationReason::DeviceWishesToLeave => 2,
            DisassociationReason::Other(v) => v,
        }
    }

    /// Reason a wire value denotes.
    pub open spec fn spec_from_raw(v: u8) -> DisassociationReason {
        if v == 1 {
            DisassociationReason::CoordinatorWishesDeviceToLeave
        } else if v == 2 {
            DisassociationReason::DeviceWishesToLeave
        } else {
            DisassociationReason::Other(v)
        }
    }

    fn raw(self) -> (v: u8)
        ensures
            v == self.spec_raw(),
    {
        match self {
            DisassociationReason::CoordinatorWishesDeviceToLeave => 1,
            DisassociationReason::DeviceWishesToLeave => 2,
            DisassociationReason::Other(v) => v,
        }
    }

    fn from_raw(v: u8) -> (r: DisassociationReason)
        ensures
            r == Self::spec_from_raw(v),
    {
        if v == 1 {
            DisassociationReason::CoordinatorWishesDeviceToLeave
        } else if v == 2 {
            DisassociationReason::DeviceWishesToLeave
        } else {
            DisassociationReason::Other(v)
        }
    }
}

/// A decoded MAC command payload.
#[derive(Clone, Copy, PartialEq, Eq, Debug)]
pub enum MacCommand<'a> {
    /// Association request with capability information.
    AssociationRequest {
        /// Joiner capability.
        capability: MacCapability,
    },
    /// Association response with allocated address and status.
    AssociationResponse {
        /// Allocated short address (`0xFFFE` when none allocated).
        short_address: ShortAddress,
        /// Association status.
        status: MacStatus,
    },
    /// Disassociation notification.
    DisassociationNotification {
        /// Reason.
        reason: DisassociationReason,
    },
    /// Data request (poll).
    DataRequest,
    /// PAN ID conflict notification.
    PanIdConflictNotification,
    /// Orphan notification.
    OrphanNotification,
    /// Beacon request.
    BeaconRequest,
    /// Coordinator realignment.
    CoordinatorRealignment {
        /// PAN identifier.
        pan_id: PanId,
        /// Coordinator short address.
        coordinator_short: ShortAddress,
        /// Logical channel.
        channel: u8,
        /// Short address assigned to the orphaned device.
        short_address: ShortAddress,
        /// Channel page (present in 2006+ frames only).
        channel_page: Option<u8>,
    },
    /// Any other command, carried raw.
    Other {
        /// Command identifier.
        id: u8,
        /// Payload bytes.
        payload: &'a [u8],
    },
}

/// The mathematical content of a [`MacCommand`].
pub enum MacCommandView {
    /// Association request.
    AssociationRequest { capability: MacCapability },
    /// Association response.
    AssociationResponse { short_address: ShortAddress, status: MacStatus },
    /// Disassociation notification.
    DisassociationNotification { reason: DisassociationReason },
    /// Data request.
    DataRequest,
    /// PAN ID conflict notification.
    PanIdConflictNotification,
    /// Orphan notification.
    OrphanNotification,
    /// Beacon request.
    BeaconRequest,
    /// Coordinator realignment.
    CoordinatorRealignment {
        pan_id: PanId,
        coordinator_short: ShortAddress,
        channel: u8,
        short_address: ShortAddress,
        channel_page: Option<u8>,
    },
    /// Any other command.
    Other { id: u8, payload: Seq<u8> },
}

impl<'a> View for MacCommand<'a> {
    type V = MacCommandView;

    open spec fn view(&self) -> MacCommandView {
        match *self {
            MacCommand::AssociationRequest { capability } => MacCommandView::AssociationRequest { capability },
            MacCommand::AssociationResponse { short_address, status } => MacCommandView::AssociationResponse {
                short_address,
                status,
            },
            MacCommand::DisassociationNotification { reason } => MacCommandView::DisassociationNotification { reason },
            MacCommand::DataRequest => MacCommandView::DataRequest,
            MacCommand::PanIdConflictNotification => MacCommandView::PanIdConflictNotification,
            MacCommand::OrphanNotification => MacCommandView::OrphanNotification,
            MacCommand::BeaconRequest => MacCommandView::BeaconRequest,
            MacCommand::CoordinatorRealignment { pan_id, coordinator_short, channel, short_address, channel_page } =>
                MacCommandView::CoordinatorRealignment {
                pan_id,
                coordinator_short,
                channel,
                short_address,
                channel_page,
            },
            MacCommand::Other { id, payload } => MacCommandView::Other { id, payload: payload@ },
        }
    }
}

impl MacCommandView {
    /// Identifier of a command.
    pub open spec fn spec_id(self) -> MacCommandId {
        match self {
            MacCommandView::AssociationRequest { .. } => MacCommandId::AssociationRequest,
            MacCommandView::AssociationResponse { .. } => MacCommandId::AssociationResponse,
            MacCommandView::DisassociationNotification { .. } => MacCommandId::DisassociationNotification,
            MacCommandView::DataRequest => MacCommandId::DataRequest,
            MacCommandView::PanIdConflictNotification => MacCommandId::PanIdConflictNotification,
            MacCommandView::OrphanNotification => MacCommandId::OrphanNotification,
            MacCommandView::BeaconRequest => MacCommandId::BeaconRequest,
            MacCommandView::CoordinatorRealignment { .. } => MacCommandId::CoordinatorRealignment,
            MacCommandView::Other { id, .. } => MacCommandId::Other(id),
        }
    }

    /// The wire octets of a command.
    pub open spec fn spec_encode(self) -> Seq<u8> {
        seq![self.spec_id().spec_raw()] + match self {
            MacCommandView::AssociationRequest { capability } => seq![capability.0],
            MacCommandView::AssociationResponse { short_address, status } => u16_bytes(short_address.0)
                + seq![status.spec_raw()],
            MacCommandView::DisassociationNotification { reason } => seq![reason.spec_raw()],
            MacCommandView::CoordinatorRealignment { pan_id, coordinator_short, channel, short_address, channel_page } =>
                u16_bytes(pan_id.0) + u16_bytes(coordinator_short.0) + seq![channel] + u16_bytes(short_address.0)
                + match channel_page {
                Some(p) => seq![p],
                None => Seq::empty(),
            },
            MacCommandView::Other { payload, .. } => payload,
            _ => Seq::empty(),
        }
    }

    /// A command the decoder can produce: reserved values are only carried
    /// as `Other`, and `Other` carries no identifier that has its own
    /// variant (except GTS request).
    pub open spec fn wf(self) -> bool {
        match self {
            MacCommandView::AssociationResponse { status, .. } => status.wf(),
            MacCommandView::DisassociationNotification { reason } => reason matches DisassociationReason::Other(v) ==> v != 1 && v != 2,
            MacCommandView::Other { id, .. } => id == 9 || id == 0 || id > 9,
            _ => true,
        }
    }
}

/// The command a sequence of octets decodes to, with the octets it
/// occupies. Unknown identifiers and GTS requests take all remaining
/// octets as their payload; a coordinator realignment takes a channel
/// page when one octet follows.
pub open spec fn spec_decode_mac_command(s: Seq<u8>) -> Result<(MacCommandView, int), CodecError> {
    if s.len() < 1 {
        Err(truncated(s, 0, 1))
    } else {
        let id = s[0];
        let cid = MacCommandId::spec_from_raw(id);
        match cid {
            MacCommandId::AssociationRequest => if s.len() < 2 {
                Err(truncated(s, 1, 1))
            } else {
                Ok((MacCommandView::AssociationRequest { capability: MacCapability(s[1]) }, 2))
            },
            MacCommandId::AssociationResponse => if s.len() < 3 {
                Err(truncated(s, 1, 2))
            } else if s.len() < 4 {
                Err(truncated(s, 3, 1))
            } else {
                Ok((
                    MacCommandView::AssociationResponse {
                        short_address: ShortAddress(le16(s, 1)),
                        status: MacStatus::spec_from_raw(s[3]),
                    },
                    4,
                ))
            },
            MacCommandId::DisassociationNotification => if s.len() < 2 {
                Err(truncated(s, 1, 1))
            } else {
                Ok((MacCommandView::DisassociationNotification { reason: DisassociationReason::spec_from_raw(s[1]) }, 2))
            },
            MacCommandId::DataRequest => Ok((MacCommandView::DataRequest, 1)),
            MacCommandId::PanIdConflictNotification => Ok((MacCommandView::PanIdConflictNotification, 1)),
            MacCommandId::OrphanNotification => Ok((MacCommandView::OrphanNotification, 1)),
            MacCommandId::BeaconRequest => Ok((MacCommandView::BeaconRequest, 1)),
            MacCommandId::CoordinatorRealignment => if s.len() < 3 {
                Err(truncated(s, 1, 2))
            } else if s.len() < 5 {
                Err(truncated(s, 3, 2))
            } else if s.len() < 6 {
                Err(truncated(s, 5, 1))
            } else if s.len() < 8 {
                Err(truncated(s, 6, 2))
            } else {
                let channel_page = if s.len() == 8 { None } else { Some(s[8]) };
                Ok((
                    MacCommandView::CoordinatorRealignment {
                        pan_id: PanId(le16(s, 1)),
                        coordinator_short: ShortAddress(le16(s, 3)),
                        channel: s[5],
                        short_address: ShortAddress(le16(s, 6)),
                        channel_page,
                    },
                    if s.len() == 8 { 8 } else { 9 },
                ))
            },
            _ => Ok((MacCommandView::Other { id, payload: s.subrange(1, s.len() as int) }, s.len() as int)),
        }
    }
}

impl<'a> MacCommand<'a> {
    /// Command identifier of this command.
    pub fn id(&self) -> (id: MacCommandId)
        ensures
            id == self@.spec_id(),
    {
        match self {
            MacCommand::AssociationRequest { .. } => MacCommandId::AssociationRequest,
            MacCommand::AssociationResponse { .. } => MacCommandId::AssociationResponse,
            MacCommand::DisassociationNotification { .. } => MacCommandId::DisassociationNotification,
            MacCommand::DataRequest => MacCommandId::DataRequest,
            MacCommand::PanIdConflictNotification => MacCommandId::PanIdConflictNotification,
            MacCommand::OrphanNotification => MacCommandId::OrphanNotification,
            MacCommand::BeaconRequest => MacCommandId::BeaconRequest,
            MacCommand::CoordinatorRealignment { .. } => MacCommandId::CoordinatorRealignment,
            MacCommand::Other { id, .. } => MacCommandId::Other(*id),
        }
    }

    /// Decodes a command from the front of `bytes`, with the octets it
    /// occupies.
    pub fn decode(bytes: &'a [u8]) -> (r: Result<(MacCommand<'a>, usize), CodecError>)
        ensures
            match r {
                Ok((c, n)) => spec_decode_mac_command(bytes@) == Ok::<(MacCommandView, int), CodecError>((c@, n as int))
                    && n <= bytes@.len(),
                Err(e) => spec_decode_mac_command(bytes@) == Err::<(MacCommandView, int), CodecError>(e),
            },
    {
        let id = match read_u8(bytes, 0) {
            Ok(v) => v,
            Err(e) => return Err(e),
        };
        match MacCommandId::from_raw(id) {
            MacCommandId::AssociationRequest => {
                let c = match read_u8(bytes, 1) {
                    Ok(v) => v,
                    Err(e) => return Err(e),
                };
                Ok((MacCommand::AssociationRequest { capability: MacCapability::from_raw(c) }, 2))
            },
            MacCommandId::AssociationResponse => {
                let a = match read_u16_le(bytes, 1) {
                    Ok(v) => v,
                    Err(e) => return Err(e),
                };
                let st = match read_u8(bytes, 3) {
                    Ok(v) => v,
                    Err(e) => return Err(e),
                };
                Ok((MacCommand::AssociationResponse { short_address: ShortAddress(a), status: MacStatus::from_raw(st) }, 4))
            },
            MacCommandId::DisassociationNotification => {
                let v = match read_u8(bytes, 1) {
                    Ok(v) => v,
                    Err(e) => return Err(e),
                };
                Ok((MacCommand::DisassociationNotification { reason: DisassociationReason::from_raw(v) }, 2))
            },
            MacCommandId::DataRequest => Ok((MacCommand::DataRequest, 1)),
            MacCommandId::PanIdConflictNotification => Ok((MacCommand::PanIdConflictNotification, 1)),
            MacCommandId::OrphanNotification => Ok((MacCommand::OrphanNotification, 1)),
            MacCommandId::BeaconRequest => Ok((MacCommand::BeaconRequest, 1)),
            MacCommandId::CoordinatorRealignment => {
                let pan_id = match read_u16_le(bytes, 1) {
                    Ok(v) => v,
                    Err(e) => return Err(e),
                };
                let coordinator_short = match read_u16_le(bytes, 3) {
                    Ok(v) => v,
                    Err(e) => return Err(e),
                };
                let channel = match read_u8(bytes, 5) {
                    Ok(v) => v,
                    Err(e) => return Err(e),
                };
                let short_address = match read_u16_le(bytes, 6) {
                    Ok(v) => v,
                    Err(e) => return Err(e),
                };
                let (channel_page, n) = if bytes.len() == 8 {
                    (None, 8)
                } else {
                    (Some(bytes[8]), 9)
                };
                Ok((
                    MacCommand::CoordinatorRealignment {
                        pan_id: PanId(pan_id),
                        coordinator_short: ShortAddress(coordinator_short),
                        channel,
                        short_address: ShortAddress(short_address),
                        channel_page,
                    },
                    n,
                ))
            },
            _ => {
                let payload = vstd::slice::slice_subrange(bytes, 1, bytes.len());
                Ok((MacCommand::Other { id, payload }, bytes.len()))
            },
        }
    }

    /// Decodes a command that must occupy all of `bytes`.
    pub fn decode_exact(bytes: &'a [u8]) -> (r: Result<MacCommand<'a>, CodecError>)
        ensures
            match r {
                Ok(c) => exact(spec_decode_mac_command(bytes@), bytes@.len() as int) == Ok::<MacCommandView, CodecError>(c@),
                Err(e) => exact(spec_decode_mac_command(bytes@), bytes@.len() as int) == Err::<MacCommandView, CodecError>(e),
            },
    {
        let (c, n) = match Self::decode(bytes) {
            Ok(v) => v,
            Err(e) => return Err(e),
        };
        if n == bytes.len() {
            Ok(c)
        } else {
            Err(CodecError::TrailingBytes { count: bytes.len() - n })
        }
    }

    /// Serialised length.
    pub fn encoded_len(&self) -> (n: usize)
        requires
            self matches MacCommand::Other { payload, .. } ==> payload@.len() < usize::MAX,
        ensures
            n == self@.spec_encode().len(),
    {
        match self {
            MacCommand::AssociationRequest { .. } | MacCommand::DisassociationNotification { .. } => 2,
            MacCommand::AssociationResponse { .. } => 4,
            MacCommand::DataRequest
            | MacCommand::PanIdConflictNotification
            | MacCommand::OrphanNotification
            | MacCommand::BeaconRequest => 1,
            MacCommand::CoordinatorRealignment { channel_page, .. } => if channel_page.is_some() {
                9
            } else {
                8
            },
            MacCommand::Other { payload, .. } => 1 + payload.len(),
        }
    }

    /// Appends the command's octets to `out`.
    pub fn encode(&self, out: &mut Vec<u8>)
        ensures
            final(out)@ == old(out)@ + self@.spec_encode(),
    {
        push_u8(out, self.id().raw());
        match self {
            MacCommand::AssociationRequest { capability } => push_u8(out, capability.raw()),
            MacCommand::AssociationResponse { short_address, status } => {
                push_u16_le(out, short_address.0);
                push_u8(out, status.raw());
            },
            MacCommand::DisassociationNotification { reason } => push_u8(out, reason.raw()),
            MacCommand::DataRequest
            | MacCommand::PanIdConflictNotification
            | MacCommand::OrphanNotification
            | MacCommand::BeaconRequest => {},
            MacCommand::CoordinatorRealignment { pan_id, coordinator_short, channel, short_address, channel_page } => {
                push_u16_le(out, pan_id.0);
                push_u16_le(out, coordinator_short.0);
                push_u8(out, *channel);
                push_u16_le(out, short_address.0);
                if let Some(p) = channel_page {
                    push_u8(out, *p);
                }
            },
            MacCommand::Other { payload, .. } => push_bytes(out, payload),
        }
        assert(out@ =~= old(out)@ + self@.spec_encode());
    }

    /// Writes the command into the front of `buf`, returning its length.
    pub fn encode_to_slice(&self, buf: &mut [u8]) -> (r: Result<usize, CodecError>)
        ensures
            ({
                let enc = self@.spec_encode();
                &&& enc.len() <= old(buf)@.len() ==> r == Ok::<usize, CodecError>(enc.len() as usize)
                    && final(buf)@.subrange(0, enc.len() as int) == enc
                &&& enc.len() > old(buf)@.len() ==> r == Err::<usize, CodecError>(CodecError::BufferTooSmall {
                    needed: enc.len() as usize,
                    available: old(buf)@.len() as usize,
                })
            }),
    {
        let mut out: Vec<u8> = Vec::new();
        self.encode(&mut out);
        assert(out@ =~= self@.spec_encode());
        copy_to_slice(&out, buf)
    }
}

/// Every well-formed command decodes exactly from its own encoding.
pub proof fn lemma_mac_command_round_trip(c: MacCommandView)
    requires
        c.wf(),
    ensures
        exact(spec_decode_mac_command(c.spec_encode()), c.spec_encode().len() as int) == Ok::<MacCommandView, CodecError>(c),
{
    let s = c.spec_encode();
    assert(s[0] == c.spec_id().spec_raw());
    match c {
        MacCommandView::AssociationResponse { short_address, status } => {
            assert(s.subrange(1, 3) =~= u16_bytes(short_address.0));
            lemma_le16_at(s, 1, short_address.0);
        },
        MacCommandView::CoordinatorRealignment { pan_id, coordinator_short, channel, short_address, channel_page } => {
            assert(s.subrange(1, 3) =~= u16_bytes(pan_id.0));
            lemma_le16_at(s, 1, pan_id.0);
            assert(s.subrange(3, 5) =~= u16_bytes(coordinator_short.0));
            lemma_le16_at(s, 3, coordinator_short.0);
            assert(s.subrange(6, 8) =~= u16_bytes(short_address.0));
            lemma_le16_at(s, 6, short_address.0);
        },
        MacCommandView::Other { id, payload } => {
            assert(s.subrange(1, s.len() as int) =~= payload);
        },
        _ => {},
    }
}

/// A decoded command re-encodes to the octets it came from.
pub proof fn lemma_mac_command_decode_encode(s: Seq<u8>)
    ensures
        spec_decode_mac_command(s) matches Ok((c, n)) ==> c.wf() && 0 < n <= s.len() && c.spec_encode() == s.subrange(0, n),
{
    if let Ok((c, n)) = spec_decode_mac_command(s) {
        match c {
            MacCommandView::AssociationResponse { .. } => {
                lemma_u16_bytes_of_le16(s, 1);
            },
            MacCommandView::CoordinatorRealignment { .. } => {
                lemma_u16_bytes_of_le16(s, 1);
                lemma_u16_bytes_of_le16(s, 3);
                lemma_u16_bytes_of_le16(s, 6);
            },
            _ => {},
        }
        assert(c.spec_encode() =~= s.subrange(0, n));
    }
}

} // verus!
