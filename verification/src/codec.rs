//! Little-endian octet encoding: errors, field readers and writers, and
//! the facts that tie them together.
use vstd::prelude::*;

verus! {

/// The field or feature an error refers to.
#[derive(Clone, Copy, PartialEq, Eq, Hash, Debug, Structural)]
pub enum Field {
    /// MAC addressing mode.
    MacAddressMode,
    /// MAC frame version.
    MacFrameVersion,
    /// MAC security (auxiliary security header).
    MacSecurity,
    /// Beacon pending address list.
    BeaconPendingList,
    /// Payload IE type bit.
    PayloadIeType,
    /// Payload IE length.
    PayloadIeLength,
    /// Zigbee sub-IE length.
    ZigbeeSubIeLength,
    /// Zigbee Payload IE length.
    ZigbeePayloadIeLength,
    /// MAC command identifier.
    MacCommand,
    /// EB Payload IE.
    EbPayloadIe,
    /// Source route relay index.
    RelayIndex,
    /// Source route or route record relay count.
    RelayCount,
    /// NWK frame control presence flags.
    NwkPresenceFlags,
    /// Link status entry count.
    LinkStatusCount,
    /// Network report count.
    ReportCount,
    /// Network update information type.
    NetworkUpdateType,
    /// Link power delta list count.
    PowerListCount,
}

/// Encoding and decoding failures.
#[derive(Clone, Copy, PartialEq, Eq, Hash, Debug, Structural)]
pub enum CodecError {
    /// The input ended early.
    Truncated {
        /// Octets the field needed.
        needed: usize,
        /// Octets that were left.
        available: usize,
    },
    /// A field holds a value the format forbids.
    InvalidField {
        /// Which field.
        field: Field,
        /// The offending value.
        value: u32,
    },
    /// A valid but unsupported feature.
    Unsupported {
        /// Which feature.
        what: Field,
    },
    /// A value cannot be represented on the wire.
    Unrepresentable {
        /// Which field.
        field: Field,
    },
    /// The output buffer is too small.
    BufferTooSmall {
        /// Octets needed.
        needed: usize,
        /// Octets available.
        available: usize,
    },
    /// Octets were left over after an exact decode.
    TrailingBytes {
        /// How many.
        count: usize,
    },
}

/// The truncation error for `n` octets wanted at `pos` of `s`.
pub open spec fn truncated(s: Seq<u8>, pos: int, n: int) -> CodecError {
    CodecError::Truncated { needed: n as usize, available: (s.len() - pos) as usize }
}

/// Little-endian 16-bit value at `pos`.
pub open spec fn le16(s: Seq<u8>, pos: int) -> u16 {
    ((s[pos] as u16) | ((s[pos + 1] as u16) << 8)) as u16
}

/// Little-endian 24-bit value at `pos`.
pub open spec fn le24(s: Seq<u8>, pos: int) -> u32 {
    ((s[pos] as u32) | ((s[pos + 1] as u32) << 8) | ((s[pos + 2] as u32) << 16)) as u32
}

/// Little-endian 64-bit value at `pos`.
pub open spec fn le64(s: Seq<u8>, pos: int) -> u64 {
    ((s[pos] as u64) | ((s[pos + 1] as u64) << 8) | ((s[pos + 2] as u64) << 16) | ((s[pos
        + 3] as u64) << 24) | ((s[pos + 4] as u64) << 32) | ((s[pos + 5] as u64) << 40) | ((s[pos
        + 6] as u64) << 48) | ((s[pos + 7] as u64) << 56)) as u64
}

/// The two octets of `v`, least significant first.
pub open spec fn u16_bytes(v: u16) -> Seq<u8> {
    seq![(v & 0xFF) as u8, (v >> 8) as u8]
}

/// The three low octets of `v`, least significant first.
pub open spec fn u24_bytes(v: u32) -> Seq<u8> {
    seq![(v & 0xFF) as u8, ((v >> 8) & 0xFF) as u8, ((v >> 16) & 0xFF) as u8]
}

/// The eight octets of `v`, least significant first.
pub open spec fn u64_bytes(v: u64) -> Seq<u8> {
    seq![
        (v & 0xFF) as u8,
        ((v >> 8) & 0xFF) as u8,
        ((v >> 16) & 0xFF) as u8,
        ((v >> 24) & 0xFF) as u8,
        ((v >> 32) & 0xFF) as u8,
        ((v >> 40) & 0xFF) as u8,
        ((v >> 48) & 0xFF) as u8,
        ((v >> 56) & 0xFF) as u8,
    ]
}

/// Reading a 16-bit value back from its octets gives the value.
pub proof fn lemma_u16_round_trip(v: u16)
    ensures
        le16(u16_bytes(v), 0) == v,
{
    let b0 = (v & 0xFF) as u8;
    let b1 = (v >> 8) as u8;
    assert(((b0 as u16) | ((b1 as u16) << 8)) as u16 == v) by (bit_vector)
        requires
            b0 == (v & 0xFF) as u8,
            b1 == (v >> 8) as u8,
    ;
}

/// The octets of a 16-bit value read from `s` are the octets of `s`.
pub proof fn lemma_u16_bytes_of_le16(s: Seq<u8>, pos: int)
    requires
        0 <= pos,
        pos + 2 <= s.len(),
    ensures
        u16_bytes(le16(s, pos)) == s.subrange(pos, pos + 2),
{
    let b0 = s[pos];
    let b1 = s[pos + 1];
    let v = ((b0 as u16) | ((b1 as u16) << 8)) as u16;
    assert((v & 0xFF) as u8 == b0 && (v >> 8) as u8 == b1) by (bit_vector)
        requires
            v == ((b0 as u16) | ((b1 as u16) << 8)) as u16,
    ;
    assert(u16_bytes(le16(s, pos)) =~= s.subrange(pos, pos + 2));
}

/// Reading a 24-bit value back from its octets gives its low 24 bits.
pub proof fn lemma_u24_round_trip(v: u32)
    ensures
        le24(u24_bytes(v), 0) == v & 0x00FF_FFFF,
{
    let b0 = (v & 0xFF) as u8;
    let b1 = ((v >> 8) & 0xFF) as u8;
    let b2 = ((v >> 16) & 0xFF) as u8;
    assert(((b0 as u32) | ((b1 as u32) << 8) | ((b2 as u32) << 16)) as u32 == v & 0x00FF_FFFF)
        by (bit_vector)
        requires
            b0 == (v & 0xFF) as u8,
            b1 == ((v >> 8) & 0xFF) as u8,
            b2 == ((v >> 16) & 0xFF) as u8,
    ;
}

/// The octets of a 24-bit value read from `s` are the octets of `s`.
pub proof fn lemma_u24_bytes_of_le24(s: Seq<u8>, pos: int)
    requires
        0 <= pos,
        pos + 3 <= s.len(),
    ensures
        u24_bytes(le24(s, pos)) == s.subrange(pos, pos + 3),
        le24(s, pos) <= 0x00FF_FFFF,
{
    let b0 = s[pos];
    let b1 = s[pos + 1];
    let b2 = s[pos + 2];
    let v = ((b0 as u32) | ((b1 as u32) << 8) | ((b2 as u32) << 16)) as u32;
    assert((v & 0xFF) as u8 == b0 && ((v >> 8) & 0xFF) as u8 == b1 && ((v >> 16) & 0xFF) as u8
        == b2 && v <= 0x00FF_FFFF) by (bit_vector)
        requires
            v == ((b0 as u32) | ((b1 as u32) << 8) | ((b2 as u32) << 16)) as u32,
    ;
    assert(u24_bytes(le24(s, pos)) =~= s.subrange(pos, pos + 3));
}

/// Reading a 64-bit value back from its octets gives the value.
pub proof fn lemma_u64_round_trip(v: u64)
    ensures
        le64(u64_bytes(v), 0) == v,
{
    let b0 = (v & 0xFF) as u8;
    let b1 = ((v >> 8) & 0xFF) as u8;
    let b2 = ((v >> 16) & 0xFF) as u8;
    let b3 = ((v >> 24) & 0xFF) as u8;
    let b4 = ((v >> 32) & 0xFF) as u8;
    let b5 = ((v >> 40) & 0xFF) as u8;
    let b6 = ((v >> 48) & 0xFF) as u8;
    let b7 = ((v >> 56) & 0xFF) as u8;
    assert(((b0 as u64) | ((b1 as u64) << 8) | ((b2 as u64) << 16) | ((b3 as u64) << 24) | ((
    b4 as u64) << 32) | ((b5 as u64) << 40) | ((b6 as u64) << 48) | ((b7 as u64) << 56)) as u64
        == v) by (bit_vector)
        requires
            b0 == (v & 0xFF) as u8,
            b1 == ((v >> 8) & 0xFF) as u8,
            b2 == ((v >> 16) & 0xFF) as u8,
            b3 == ((v >> 24) & 0xFF) as u8,
            b4 == ((v >> 32) & 0xFF) as u8,
            b5 == ((v >> 40) & 0xFF) as u8,
            b6 == ((v >> 48) & 0xFF) as u8,
            b7 == ((v >> 56) & 0xFF) as u8,
    ;
}

/// The octets of a 64-bit value read from `s` are the octets of `s`.
pub proof fn lemma_u64_bytes_of_le64(s: Seq<u8>, pos: int)
    requires
        0 <= pos,
        pos + 8 <= s.len(),
    ensures
        u64_bytes(le64(s, pos)) == s.subrange(pos, pos + 8),
{
    let b0 = s[pos];
    let b1 = s[pos + 1];
    let b2 = s[pos + 2];
    let b3 = s[pos + 3];
    let b4 = s[pos + 4];
    let b5 = s[pos + 5];
    let b6 = s[pos + 6];
    let b7 = s[pos + 7];
    let v = ((b0 as u64) | ((b1 as u64) << 8) | ((b2 as u64) << 16) | ((b3 as u64) << 24) | ((
    b4 as u64) << 32) | ((b5 as u64) << 40) | ((b6 as u64) << 48) | ((b7 as u64) << 56)) as u64;
    assert((v & 0xFF) as u8 == b0 && ((v >> 8) & 0xFF) as u8 == b1 && ((v >> 16) & 0xFF) as u8
        == b2 && ((v >> 24) & 0xFF) as u8 == b3 && ((v >> 32) & 0xFF) as u8 == b4 && ((v >> 40)
        & 0xFF) as u8 == b5 && ((v >> 48) & 0xFF) as u8 == b6 && ((v >> 56) & 0xFF) as u8 == b7)
        by (bit_vector)
        requires
            v == ((b0 as u64) | ((b1 as u64) << 8) | ((b2 as u64) << 16) | ((b3 as u64) << 24)
                | ((b4 as u64) << 32) | ((b5 as u64) << 40) | ((b6 as u64) << 48) | ((b7 as u64)
                << 56)) as u64,
    ;
    assert(u64_bytes(le64(s, pos)) =~= s.subrange(pos, pos + 8));
}

/// A 16-bit value whose octets stand at `pos` reads back from there.
pub proof fn lemma_le16_at(s: Seq<u8>, pos: int, v: u16)
    requires
        0 <= pos,
        pos + 2 <= s.len(),
        s.subrange(pos, pos + 2) == u16_bytes(v),
    ensures
        le16(s, pos) == v,
{
    assert(s[pos] == s.subrange(pos, pos + 2)[0]);
    assert(s[pos + 1] == s.subrange(pos, pos + 2)[1]);
    lemma_u16_round_trip(v);
}

/// A 24-bit value whose octets stand at `pos` reads back from there.
pub proof fn lemma_le24_at(s: Seq<u8>, pos: int, v: u32)
    requires
        0 <= pos,
        pos + 3 <= s.len(),
        s.subrange(pos, pos + 3) == u24_bytes(v),
    ensures
        le24(s, pos) == v & 0x00FF_FFFF,
{
    assert(s[pos] == s.subrange(pos, pos + 3)[0]);
    assert(s[pos + 1] == s.subrange(pos, pos + 3)[1]);
    assert(s[pos + 2] == s.subrange(pos, pos + 3)[2]);
    lemma_u24_round_trip(v);
}

/// A 64-bit value whose octets stand at `pos` reads back from there.
pub proof fn lemma_le64_at(s: Seq<u8>, pos: int, v: u64)
    requires
        0 <= pos,
        pos + 8 <= s.len(),
        s.subrange(pos, pos + 8) == u64_bytes(v),
    ensures
        le64(s, pos) == v,
{
    assert(s[pos] == s.subrange(pos, pos + 8)[0]);
    assert(s[pos + 1] == s.subrange(pos, pos + 8)[1]);
    assert(s[pos + 2] == s.subrange(pos, pos + 8)[2]);
    assert(s[pos + 3] == s.subrange(pos, pos + 8)[3]);
    assert(s[pos + 4] == s.subrange(pos, pos + 8)[4]);
    assert(s[pos + 5] == s.subrange(pos, pos + 8)[5]);
    assert(s[pos + 6] == s.subrange(pos, pos + 8)[6]);
    assert(s[pos + 7] == s.subrange(pos, pos + 8)[7]);
    lemma_u64_round_trip(v);
}

/// Stepping over `part` when the octets from `p` on are `part + tail`.
pub proof fn lemma_step(s: Seq<u8>, p: int, part: Seq<u8>, tail: Seq<u8>)
    requires
        0 <= p <= s.len(),
        s.subrange(p, s.len() as int) == part + tail,
    ensures
        s.subrange(p, p + part.len()) == part,
        s.subrange(p + part.len(), s.len() as int) == tail,
{
    assert(s.subrange(p, p + part.len()) =~= (part + tail).subrange(0, part.len() as int));
    assert((part + tail).subrange(0, part.len() as int) =~= part);
    assert(s.subrange(p + part.len(), s.len() as int) =~= (part + tail).subrange(part.len() as int, (part + tail).len() as int));
    assert((part + tail).subrange(part.len() as int, (part + tail).len() as int) =~= tail);
}

/// Concatenation regroups to the right.
pub proof fn lemma_regroup(a: Seq<u8>, b: Seq<u8>, c: Seq<u8>)
    ensures
        (a + b) + c == a + (b + c),
{
    assert((a + b) + c =~= a + (b + c));
}

/// Splitting a concatenation at the end of its first part.
pub proof fn lemma_concat_parts(a: Seq<u8>, b: Seq<u8>)
    ensures
        (a + b).subrange(0, a.len() as int) == a,
        (a + b).subrange(a.len() as int, (a + b).len() as int) == b,
{
    assert((a + b).subrange(0, a.len() as int) =~= a);
    assert((a + b).subrange(a.len() as int, (a + b).len() as int) =~= b);
}

/// Reads the octet at `pos`.
pub fn read_u8(s: &[u8], pos: usize) -> (r: Result<u8, CodecError>)
    requires
        pos <= s@.len(),
    ensures
        pos + 1 <= s@.len() ==> r == Ok::<u8, CodecError>(s@[pos as int]),
        r is Ok ==> pos + 1 <= s.len(),
        pos + 1 > s@.len() ==> r == Err::<u8, CodecError>(truncated(s@, pos as int, 1)),
{
    if pos < s.len() {
        Ok(s[pos])
    } else {
        Err(CodecError::Truncated { needed: 1, available: s.len() - pos })
    }
}

/// Reads a little-endian 16-bit value at `pos`.
pub fn read_u16_le(s: &[u8], pos: usize) -> (r: Result<u16, CodecError>)
    requires
        pos <= s@.len(),
    ensures
        pos + 2 <= s@.len() ==> r == Ok::<u16, CodecError>(le16(s@, pos as int)),
        r is Ok ==> pos + 2 <= s.len(),
        pos + 2 > s@.len() ==> r == Err::<u16, CodecError>(truncated(s@, pos as int, 2)),
{
    if s.len() - pos >= 2 {
        Ok(((s[pos] as u16) | ((s[pos + 1] as u16) << 8)) as u16)
    } else {
        Err(CodecError::Truncated { needed: 2, available: s.len() - pos })
    }
}

/// Reads a little-endian 24-bit value at `pos`.
pub fn read_u24_le(s: &[u8], pos: usize) -> (r: Result<u32, CodecError>)
    requires
        pos <= s@.len(),
    ensures
        pos + 3 <= s@.len() ==> r == Ok::<u32, CodecError>(le24(s@, pos as int)),
        r is Ok ==> pos + 3 <= s.len(),
        pos + 3 > s@.len() ==> r == Err::<u32, CodecError>(truncated(s@, pos as int, 3)),
{
    if s.len() - pos >= 3 {
        Ok(((s[pos] as u32) | ((s[pos + 1] as u32) << 8) | ((s[pos + 2] as u32) << 16)) as u32)
    } else {
        Err(CodecError::Truncated { needed: 3, available: s.len() - pos })
    }
}

/// Reads a little-endian 64-bit value at `pos`.
pub fn read_u64_le(s: &[u8], pos: usize) -> (r: Result<u64, CodecError>)
    requires
        pos <= s@.len(),
    ensures
        pos + 8 <= s@.len() ==> r == Ok::<u64, CodecError>(le64(s@, pos as int)),
        r is Ok ==> pos + 8 <= s.len(),
        pos + 8 > s@.len() ==> r == Err::<u64, CodecError>(truncated(s@, pos as int, 8)),
{
    if s.len() - pos >= 8 {
        Ok(((s[pos] as u64) | ((s[pos + 1] as u64) << 8) | ((s[pos + 2] as u64) << 16) | ((s[pos
            + 3] as u64) << 24) | ((s[pos + 4] as u64) << 32) | ((s[pos + 5] as u64) << 40) | ((
        s[pos + 6] as u64) << 48) | ((s[pos + 7] as u64) << 56)) as u64)
    } else {
        Err(CodecError::Truncated { needed: 8, available: s.len() - pos })
    }
}

/// The `n` octets at `pos`.
pub fn read_bytes<'a>(s: &'a [u8], pos: usize, n: usize) -> (r: Result<&'a [u8], CodecError>)
    requires
        pos <= s@.len(),
    ensures
        pos + n <= s@.len() ==> (r matches Ok(b) && b@ == s@.subrange(pos as int, pos + n)),
        r is Ok ==> pos + n <= s.len(),
        pos + n > s@.len() ==> r == Err::<&[u8], CodecError>(truncated(s@, pos as int, n as int)),
{
    if s.len() - pos >= n {
        Ok(vstd::slice::slice_subrange(s, pos, pos + n))
    } else {
        Err(CodecError::Truncated { needed: n, available: s.len() - pos })
    }
}

/// Appends one octet.
pub fn push_u8(out: &mut Vec<u8>, v: u8)
    ensures
        final(out)@ == old(out)@.push(v),
{
    out.push(v);
}

/// Appends a 16-bit value, least significant octet first.
pub fn push_u16_le(out: &mut Vec<u8>, v: u16)
    ensures
        final(out)@ == old(out)@ + u16_bytes(v),
{
    out.push((v & 0xFF) as u8);
    out.push((v >> 8) as u8);
    assert(out@ =~= old(out)@ + u16_bytes(v));
}

/// Appends the low 24 bits of a value, least significant octet first.
pub fn push_u24_le(out: &mut Vec<u8>, v: u32)
    ensures
        final(out)@ == old(out)@ + u24_bytes(v),
{
    out.push((v & 0xFF) as u8);
    out.push(((v >> 8) & 0xFF) as u8);
    out.push(((v >> 16) & 0xFF) as u8);
    assert(out@ =~= old(out)@ + u24_bytes(v));
}

/// Appends a 64-bit value, least significant octet first.
pub fn push_u64_le(out: &mut Vec<u8>, v: u64)
    ensures
        final(out)@ == old(out)@ + u64_bytes(v),
{
    out.push((v & 0xFF) as u8);
    out.push(((v >> 8) & 0xFF) as u8);
    out.push(((v >> 16) & 0xFF) as u8);
    out.push(((v >> 24) & 0xFF) as u8);
    out.push(((v >> 32) & 0xFF) as u8);
    out.push(((v >> 40) & 0xFF) as u8);
    out.push(((v >> 48) & 0xFF) as u8);
    out.push(((v >> 56) & 0xFF) as u8);
    assert(out@ =~= old(out)@ + u64_bytes(v));
}

/// Appends all of `b`.
pub fn push_bytes(out: &mut Vec<u8>, b: &[u8])
    ensures
        final(out)@ == old(out)@ + b@,
{
    let mut i: usize = 0;
    while i < b.len()
        invariant
            i <= b@.len(),
            out@ == old(out)@ + b@.subrange(0, i as int),
        decreases b@.len() - i,
    {
        out.push(b[i]);
        i = i + 1;
        assert(out@ =~= old(out)@ + b@.subrange(0, i as int));
    }
    assert(b@.subrange(0, b@.len() as int) =~= b@);
}

/// Copies an encoding into the front of `buf`: its length, or the
/// buffer error when it does not fit.
pub fn copy_to_slice(enc: &Vec<u8>, buf: &mut [u8]) -> (r: Result<usize, CodecError>)
    ensures
        enc@.len() <= old(buf)@.len() ==> r == Ok::<usize, CodecError>(enc@.len() as usize)
            && final(buf)@.subrange(0, enc@.len() as int) == enc@ && final(buf)@.len() == old(
            buf)@.len(),
        enc@.len() > old(buf)@.len() ==> r == Err::<usize, CodecError>(
            CodecError::BufferTooSmall { needed: enc@.len() as usize, available: old(buf)@.len() as usize },
        ) && final(buf)@ == old(buf)@,
{
    if enc.len() > buf.len() {
        return Err(CodecError::BufferTooSmall { needed: enc.len(), available: buf.len() });
    }
    let mut i: usize = 0;
    while i < enc.len()
        invariant
            i <= enc@.len() <= buf@.len(),
            buf@.len() == old(buf)@.len(),
            forall|j: int| 0 <= j < i ==> buf@[j] == enc@[j],
        decreases enc@.len() - i,
    {
        buf[i] = enc[i];
        i = i + 1;
    }
    assert(buf@.subrange(0, enc@.len() as int) =~= enc@);
    Ok(enc.len())
}

/// Bit-level facts about the packed octets and words of the wire
/// formats, for octets `a`, `b`, `c`, `n`, `m`, `o` and words `v`, `p`,
/// `q`, `r`, `x`, `y`, `z`: how a word splits into its two octets and back;
/// where one-bit flags and small fields land when packed into an octet
/// (flags of 0 or 1, fields below their width); the fields of the
/// superframe specification word; the descriptor words of payload IEs and
/// Zigbee sub-IEs; the low fields of an octet read arithmetically; and
/// clearing bits 1 and 5, or bit 1, of an octet.
pub proof fn lemma_wire_bits(
    a: u8,
    b: u8,
    c: u8,
    n: u8,
    m: u8,
    o: u8,
    v: u16,
    p: u16,
    q: u16,
    r: u16,
    x: u16,
    y: u16,
    z: u16,
)
    by (bit_vector)
    ensures
        ((v & 0xFF) as u8) as int + 256 * (((v >> 8) as u8) as int) == v as int,
        ((a as u16) | ((b as u16) << 8)) as u16 as int == a as int + 256 * (b as int),
        v & 0x3 <= 3,
        v & 0x7 <= 7,
        0u16 & 0x0001 == 0 && 0u16 & 0x0002 == 0 && 0u16 & 0x0004 == 0,
        (o & 0x7) as int == o as int % 8,
        ((o >> 4u8) & 0x7) as int == (o as int / 16) % 8,
        (o & 0x1F) as int == o as int % 32,
        (o & 0x20 != 0) == ((o as int / 32) % 2 == 1),
        (o & 0x40 != 0) == ((o as int / 64) % 2 == 1),
        (a < 2 && b < 2 && c < 2) ==> (((a << 5) | (b << 6) | (c << 7)) as u8 & 0x20 != 0) == (a == 1) && (((a << 5) | (b
            << 6) | (c << 7)) as u8 & 0x40 != 0) == (b == 1) && (((a << 5) | (b << 6) | (c << 7)) as u8 & 0x80 != 0) == (c
            == 1) && ((a << 5) | (b << 6) | (c << 7)) as u8 & 0x1F == 0,
        (a < 2 && b < 2) ==> (((a << 4) | (b << 5)) as u8 & 0x10 != 0) == (a == 1) && (((a << 4) | (b << 5)) as u8 & 0x20
            != 0) == (b == 1),
        (n < 4 && a < 2) ==> ((((n << 3) | (a << 5)) as u8) >> 3u8) & 0x03 == n && (((n << 3) | (a << 5)) as u8 & 0x20 != 0)
            == (a == 1) && ((n << 3) | (a << 5)) as u8 & 0xC7 == 0,
        (n <= 31 && a < 2 && b < 2) ==> (n | (a << 5) | (b << 6)) as u8 & 0x1F == n && ((n | (a << 5) | (b << 6)) as u8
            & 0x20 != 0) == (a == 1) && ((n | (a << 5) | (b << 6)) as u8 & 0x40 != 0) == (b == 1) && (n | (a << 5) | (b
            << 6)) as u8 & 0x80 == 0,
        (n <= 31 && m < 8) ==> (n | ((m << 5) as u8)) as u8 & 0x1F == n && (n | ((m << 5) as u8)) as u8 >> 5u8 == m,
        (a < 2 && b < 2 && c < 2) ==> ((a | (b << 1) | (c << 2)) as u8 & 0x01 != 0) == (a == 1) && ((a | (b << 1) | (c
            << 2)) as u8 & 0x02 != 0) == (b == 1) && ((a | (b << 1) | (c << 2)) as u8 & 0x04 != 0) == (c == 1) && (a | (b
            << 1) | (c << 2)) as u8 & 0xF8 == 0,
        (n < 16 && m < 16) ==> ((n & 0x0F) | (m << 4)) as u8 & 0x0F == n && ((n & 0x0F) | (m << 4)) as u8 >> 4u8 == m,
        (a < 2 && b < 2 && n < 16) ==> (((a << 2) | ((n & 0x0F) << 3) | (b << 7)) as u8 & 0x04 != 0) == (a == 1) && ((((a
            << 2) | ((n & 0x0F) << 3) | (b << 7)) as u8 >> 3u8) & 0x0F) == n && (((a << 2) | ((n & 0x0F) << 3) | (b << 7))
            as u8 & 0x80 != 0) == (b == 1) && ((a << 2) | ((n & 0x0F) << 3) | (b << 7)) as u8 & 0x03 == 0,
        ((v >> 15u16) & 1 != 0) == (v & 0x8000 != 0) && ((v >> 14u16) & 1 != 0) == (v & 0x4000 != 0) && ((v >> 12u16) & 1
            != 0) == (v & 0x1000 != 0),
        (v & 0xF) as u8 == v & 0xF,
        (v & 0xF == 15 && (v >> 4u16) & 0xF == 15 && (v >> 8u16) & 0xF == 15) ==> v & 0x0FFF == 0x0FFF,
        (p < 16 && q < 16 && r < 16 && x < 2 && y < 2 && z < 2) ==> ((p & 0xF) | ((q & 0xF) << 4) | ((r & 0xF) << 8) | (x
            << 12) | (y << 14) | (z << 15)) & 0xF == p && (((p & 0xF) | ((q & 0xF) << 4) | ((r & 0xF) << 8) | (x << 12) | (
        y << 14) | (z << 15)) >> 4u16) & 0xF == q && (((p & 0xF) | ((q & 0xF) << 4) | ((r & 0xF) << 8) | (x << 12) | (y
            << 14) | (z << 15)) >> 8u16) & 0xF == r && (((p & 0xF) | ((q & 0xF) << 4) | ((r & 0xF) << 8) | (x << 12) | (y
            << 14) | (z << 15)) & 0x1000 != 0) == (x == 1) && (((p & 0xF) | ((q & 0xF) << 4) | ((r & 0xF) << 8) | (x << 12)
            | (y << 14) | (z << 15)) & 0x4000 != 0) == (y == 1) && (((p & 0xF) | ((q & 0xF) << 4) | ((r & 0xF) << 8) | (x
            << 12) | (y << 14) | (z << 15)) & 0x8000 != 0) == (z == 1) && ((p & 0xF) | ((q & 0xF) << 4) | ((r & 0xF) << 8)
            | (x << 12) | (y << 14) | (z << 15)) & 0x2000 == 0,
        (n < 16 && p <= 0x07FF) ==> (0x8000u16 | (((n & 0xF) as u16) << 11) | p) as u16 as int == 0x8000 + 0x800 * (n as int)
            + p as int,
        (p < 64 && q < 1024) ==> ((p | (q << 6)) as u16) as int == p as int + 64 * (q as int),
        (o & 0xDD) & 0x02 == 0 && (o & 0xDD) & 0x20 == 0 && ((o & 0xDD) | 0x22) == (o | 0x22),
        (o & 0xFD) & 0x02 == 0 && ((o & 0xFD) | 0x02) == (o | 0x02),
{
}

/// The two octets of a 16-bit value, least significant first, make the
/// value back.
pub proof fn lemma_u16_octets(v: u16)
    ensures
        ((v & 0xFF) as u8) as int + 256 * (((v >> 8) as u8) as int) == v as int,
{
    lemma_wire_bits(0, 0, 0, 0, 0, 0, v, 0, 0, 0, 0, 0, 0);
}

/// A little-endian 16-bit value read from two octets.
pub proof fn lemma_le16_octets(s: Seq<u8>, pos: int)
    requires
        0 <= pos,
        pos + 2 <= s.len(),
    ensures
        le16(s, pos) as int == s[pos] as int + 256 * (s[pos + 1] as int),
{
    lemma_wire_bits(s[pos], s[pos + 1], 0, 0, 0, 0, 0, 0, 0, 0, 0, 0, 0);
}

} // verus!
