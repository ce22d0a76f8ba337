//! Broadcast communication of the network layer: the broadcast
//! transaction records kept for received and originated broadcasts,
//! passive acknowledgement, jittered relay and retransmission, and the
//! copies sent to sleepy end-device children.
//!
//! The decisions are step functions over [`BroadcastState`]; securing a
//! frame and drawing random jitter stay with the caller, which hands the
//! results in.
use vstd::prelude::*;

use crate::nwk::broadcast::{
    first_record, is_broadcast_of, expired_at, other_than, record_views, BroadcastRecord, BroadcastRecordView,
    BroadcastTransactionTable, PASSIVE_ACK_TRACKED,
};
use crate::nwk::layer::{BROADCAST_BUFFERS, MAX_NPDU};
use crate::nwk::neighbor::{NeighborEntry, NeighborTable};
use crate::nwk::nib::constants::MAX_BROADCAST_JITTER_MS;
use crate::nwk::nib::Nib;
use crate::types::{
    Duration, Instant, ShortAddress, BROADCAST_ALL_RAW, NO_SHORT_ADDRESS_RAW, BROADCAST_ROUTERS_RAW, BROADCAST_RX_ON_RAW,
    FIRST_NON_UNICAST_RAW,
};

verus! {

/// At most `n` leading elements of `s`.
pub open spec fn at_most<A>(s: Seq<A>, n: int) -> Seq<A> {
    if s.len() <= n {
        s
    } else {
        s.take(n)
    }
}

/// Appending to a bounded sequence adds the element only while below the
/// bound.
pub proof fn lemma_at_most_push<A>(s: Seq<A>, x: A, n: int)
    requires
        0 <= n,
    ensures
        at_most(s.push(x), n) == if at_most(s, n).len() < n { at_most(s, n).push(x) } else { at_most(s, n) },
{
    if s.len() + 1 <= n {
        assert(at_most(s.push(x), n) =~= at_most(s, n).push(x));
    } else if s.len() < n {
        assert(at_most(s.push(x), n) =~= s);
    } else {
        assert(at_most(s.push(x), n) =~= s.take(n));
    }
}

/// `t` plus `ms` milliseconds, saturating.
pub open spec fn after_ms(t: Instant, ms: u64) -> Instant {
    if t.0 + ms <= u64::MAX {
        Instant((t.0 + ms) as u64)
    } else {
        Instant(u64::MAX)
    }
}

/// The local device belongs to the broadcast group `dst`: every device
/// for `0xFFFF`, devices with the receiver on when idle for `0xFFFD`,
/// routers and the coordinator for `0xFFFC`; nobody for the other
/// reserved values.
pub open spec fn spec_in_broadcast_group(nib: Nib, dst: ShortAddress) -> bool {
    if dst.0 == BROADCAST_ALL_RAW {
        true
    } else if dst.0 == BROADCAST_RX_ON_RAW {
        nib.rx_on_when_idle
    } else if dst.0 == BROADCAST_ROUTERS_RAW {
        !(nib.device_type is EndDevice)
    } else {
        false
    }
}

/// Whether the local device belongs to the broadcast group `dst`.
pub fn in_broadcast_group(nib: &Nib, dst: ShortAddress) -> (b: bool)
    ensures
        b == spec_in_broadcast_group(*nib, dst),
{
    if dst.0 == BROADCAST_ALL_RAW {
        true
    } else if dst.0 == BROADCAST_RX_ON_RAW {
        nib.rx_on_when_idle
    } else if dst.0 == BROADCAST_ROUTERS_RAW {
        nib.is_router_or_coordinator()
    } else {
        false
    }
}

/// A router neighbor other than `exclude`, with a known outgoing cost and
/// a unicast address, is expected to relay a broadcast.
pub open spec fn expected_relayer(exclude: ShortAddress) -> spec_fn(NeighborEntry) -> bool {
    |e: NeighborEntry|
        e.spec_is_router() && e.short != exclude && e.outgoing_cost != 0 && e.short.0 < FIRST_NON_UNICAST_RAW
}

/// The neighbors a broadcast waits to hear relaying it (passive
/// acknowledgement): the expected relayers in table order, at most
/// [`PASSIVE_ACK_TRACKED`] of them; none when passive acknowledgement is
/// off.
pub open spec fn spec_passive_ack_set(s: Seq<NeighborEntry>, exclude: ShortAddress, enabled: bool) -> Seq<ShortAddress> {
    if !enabled {
        Seq::empty()
    } else {
        at_most(s.filter(expected_relayer(exclude)).map_values(|e: NeighborEntry| e.short), PASSIVE_ACK_TRACKED as int)
    }
}

/// The neighbors a broadcast waits to hear relaying it.
pub fn passive_ack_set<const N: usize>(neighbors: &NeighborTable<N>, exclude: ShortAddress, enabled: bool) -> (v: Vec<
    ShortAddress,
>)
    ensures
        v@ == spec_passive_ack_set(neighbors@, exclude, enabled),
{
    let mut v: Vec<ShortAddress> = Vec::new();
    if !enabled {
        return v;
    }
    let entries = neighbors.entries();
    let ghost s = neighbors@;
    let mut i: usize = 0;
    while i < entries.len()
        invariant
            entries@ == s,
            i <= s.len(),
            v@ == at_most(
                s.take(i as int).filter(expected_relayer(exclude)).map_values(|e: NeighborEntry| e.short),
                PASSIVE_ACK_TRACKED as int,
            ),
        decreases s.len() - i,
    {
        let e = entries[i];
        proof {
            let t = s.take(i as int);
            assert(s.take(i + 1) =~= t.push(e));
            t.lemma_filter_push(e, expected_relayer(exclude));
            let m = t.filter(expected_relayer(exclude)).map_values(|e: NeighborEntry| e.short);
            assert(t.filter(expected_relayer(exclude)).push(e).map_values(|e: NeighborEntry| e.short) =~= m.push(e.short));
            lemma_at_most_push(m, e.short, PASSIVE_ACK_TRACKED as int);
        }
        if e.is_router() && e.short != exclude && e.outgoing_cost != 0 && e.short.is_unicast() {
            if v.len() < PASSIVE_ACK_TRACKED {
                v.push(e.short);
            }
        }
        i = i + 1;
    }
    assert(s.take(i as int) =~= s);
    v
}

/// `b[lo..hi]`, or nothing when the range does not lie within `b`.
pub open spec fn range_or_empty(b: Seq<u8>, lo: int, hi: int) -> Seq<u8> {
    if 0 <= lo <= hi <= b.len() {
        b.subrange(lo, hi)
    } else {
        Seq::empty()
    }
}

/// The plaintext copy of a received broadcast that the local device
/// relays: its NWK header and payload (without the auxiliary security
/// header and MIC), with the radius set to `radius - 1` and the security
/// and end-device-initiator frame control bits cleared; `None` when the
/// copy does not fit in an NPDU.
pub open spec fn spec_relay_copy(buf: Seq<u8>, header_len: int, payload_start: int, payload_end: int, radius: u8) -> Option<
    Seq<u8>,
> {
    let h = range_or_empty(buf, 0, header_len);
    let p = range_or_empty(buf, payload_start, payload_end);
    if h.len() + p.len() > MAX_NPDU {
        None
    } else {
        let c = h + p;
        let c1 = if c.len() > 6 { c.update(6, (radius - 1) as u8) } else { c };
        Some(if c1.len() > 1 { c1.update(1, c1[1] & 0xDD) } else { c1 })
    }
}

/// The relay copy of a frame is its header followed by its (plaintext)
/// payload, with the radius octet lowered by one and the security and end
/// device initiator flags (frame control bits 9 and 13) cleared; every
/// other octet is the original's.
pub proof fn lemma_relay_copy_octets(buf: Seq<u8>, header_len: int, ps: int, pe: int, radius: u8)
    requires
        8 <= header_len <= buf.len(),
        0 <= ps <= pe <= buf.len(),
        header_len + (pe - ps) <= MAX_NPDU,
        radius >= 1,
    ensures
        spec_relay_copy(buf, header_len, ps, pe, radius) matches Some(c) && {
            &&& c.len() == header_len + (pe - ps)
            &&& c[6] == radius - 1
            &&& c[1] & 0x02 == 0
            &&& c[1] & 0x20 == 0
            &&& c[1] | 0x22 == buf[1] | 0x22
            &&& forall|i: int| 0 <= i < header_len && i != 1 && i != 6 ==> #[trigger] c[i] == buf[i]
            &&& forall|j: int| 0 <= j < pe - ps ==> #[trigger] c[header_len + j] == buf[ps + j]
        },
{
    let h = buf.subrange(0, header_len);
    let p = buf.subrange(ps, pe);
    let c = h + p;
    let c1 = c.update(6, (radius - 1) as u8);
    let c2 = c1.update(1, c1[1] & 0xDD);
    assert(spec_relay_copy(buf, header_len, ps, pe, radius) == Some(c2));
    crate::codec::lemma_wire_bits(0, 0, 0, 0, 0, buf[1], 0, 0, 0, 0, 0, 0, 0);
    assert forall|j: int| 0 <= j < pe - ps implies #[trigger] c2[header_len + j] == buf[ps + j] by {
        assert(c2[header_len + j] == c[header_len + j]);
    }
}

/// The relay copy of a unicast frame for another device is its header
/// followed by its plaintext payload with the security flag (frame control
/// bit 9) cleared; every other octet is the original's, the radius
/// included.
pub proof fn lemma_unicast_relay_copy_octets(frame: Seq<u8>, header_len: int, ps: int, pe: int)
    requires
        8 <= header_len <= frame.len(),
        0 <= ps <= pe <= frame.len(),
        header_len + (pe - ps) <= MAX_NPDU,
    ensures
        crate::nwk::state::NwkStateView::unicast_relay_copy(frame, header_len, ps, pe) matches Some(c) ==> {
            &&& c.len() == header_len + (pe - ps)
            &&& c[1] & 0x02 == 0
            &&& c[1] | 0x02 == frame[1] | 0x02
            &&& forall|i: int| 0 <= i < header_len && i != 1 ==> #[trigger] c[i] == frame[i]
            &&& forall|j: int| 0 <= j < pe - ps ==> #[trigger] c[header_len + j] == frame[ps + j]
        },
{
    let c = frame.subrange(0, header_len) + frame.subrange(ps, pe);
    let c1 = c.update(1, c[1] & 0xFD);
    crate::codec::lemma_wire_bits(0, 0, 0, 0, 0, frame[1], 0, 0, 0, 0, 0, 0, 0);
    assert forall|j: int| 0 <= j < pe - ps implies #[trigger] c1[header_len + j] == frame[ps + j] by {
        assert(c1[header_len + j] == c[header_len + j]);
    }
}

/// Copies `buf[lo..hi]` onto `out`, or nothing when the range does not lie
/// within `buf`.
fn push_range(out: &mut Vec<u8>, buf: &[u8], lo: usize, hi: usize)
    ensures
        final(out)@ == old(out)@ + range_or_empty(buf@, lo as int, hi as int),
{
    if lo <= hi && hi <= buf.len() {
        let mut i = lo;
        while i < hi
            invariant
                lo <= i <= hi <= buf@.len(),
                out@ == old(out)@ + buf@.subrange(lo as int, i as int),
            decreases hi - i,
        {
            out.push(buf[i]);
            assert(buf@.subrange(lo as int, i + 1) =~= buf@.subrange(lo as int, i as int).push(buf@[i as int]));
            i = i + 1;
        }
    } else {
        assert(out@ =~= old(out)@ + Seq::<u8>::empty());
    }
}

/// The plaintext copy of a received broadcast for relaying.
pub fn relay_copy(buf: &[u8], header_len: usize, payload_start: usize, payload_end: usize, radius: u8) -> (r: Option<
    Vec<u8>,
>)
    requires
        radius >= 1,
    ensures
        match spec_relay_copy(buf@, header_len as int, payload_start as int, payload_end as int, radius) {
            Some(c) => r matches Some(v) && v@ == c,
            None => r is None,
        },
{
    let h_ok = header_len <= buf.len();
    let p_ok = payload_start <= payload_end && payload_end <= buf.len();
    let h_len: usize = if h_ok { header_len } else { 0 };
    let p_len: usize = if p_ok { payload_end - payload_start } else { 0 };
    if h_len > MAX_NPDU || p_len > MAX_NPDU - h_len {
        return None;
    }
    let mut c: Vec<u8> = Vec::new();
    push_range(&mut c, buf, 0, header_len);
    push_range(&mut c, buf, payload_start, payload_end);
    assert(c@ =~= range_or_empty(buf@, 0, header_len as int) + range_or_empty(
        buf@,
        payload_start as int,
        payload_end as int,
    ));
    if c.len() > 6 {
        c.set(6, radius - 1);
    }
    if c.len() > 1 {
        let b = c[1] & 0xDD;
        c.set(1, b);
    }
    Some(c)
}

/// A broadcast frame held for (re)transmission.
#[derive(Clone, Debug)]
pub struct BroadcastBuf {
    /// Broadcast initiator.
    pub source: ShortAddress,
    /// NWK sequence number.
    pub sequence: u8,
    /// The frame as sent on the air; empty until secured.
    pub frame: Vec<u8>,
    /// A plaintext NPDU still to be secured: the NPDU, the length of its
    /// NWK header and whether it is to be secured.
    pub plaintext: Option<(Vec<u8>, usize, bool)>,
}

/// The mathematical content of a [`BroadcastBuf`].
pub struct BroadcastBufView {
    /// Broadcast initiator.
    pub source: ShortAddress,
    /// NWK sequence number.
    pub sequence: u8,
    /// The frame as sent on the air.
    pub frame: Seq<u8>,
    /// A plaintext NPDU still to be secured.
    pub plaintext: Option<(Seq<u8>, usize, bool)>,
}

impl View for BroadcastBuf {
    type V = BroadcastBufView;

    open spec fn view(&self) -> BroadcastBufView {
        BroadcastBufView {
            source: self.source,
            sequence: self.sequence,
            frame: self.frame@,
            plaintext: match self.plaintext {
                Some((p, h, sec)) => Some((p@, h, sec)),
                None => None,
            },
        }
    }
}

/// The views of buffers.
pub open spec fn buf_views(s: Seq<BroadcastBuf>) -> Seq<BroadcastBufView> {
    s.map_values(|b: BroadcastBuf| b@)
}

/// Index of the first buffer holding the broadcast `(source, sequence)`.
pub open spec fn first_buf(s: Seq<BroadcastBufView>, source: ShortAddress, sequence: u8) -> Option<int>
    decreases s.len(),
{
    if s.len() == 0 {
        None
    } else if s[0].source == source && s[0].sequence == sequence {
        Some(0)
    } else {
        match first_buf(s.drop_first(), source, sequence) {
            Some(i) => Some(i + 1),
            None => None,
        }
    }
}

/// `first_buf` is the lowest index holding the broadcast.
pub proof fn lemma_first_buf(s: Seq<BroadcastBufView>, source: ShortAddress, sequence: u8)
    ensures
        match first_buf(s, source, sequence) {
            Some(i) => 0 <= i < s.len() && s[i].source == source && s[i].sequence == sequence && forall|j: int|
                0 <= j < i ==> !((#[trigger] s[j]).source == source && s[j].sequence == sequence),
            None => forall|j: int| 0 <= j < s.len() ==> !((#[trigger] s[j]).source == source && s[j].sequence == sequence),
        },
    decreases s.len(),
{
    if s.len() > 0 && !(s[0].source == source && s[0].sequence == sequence) {
        lemma_first_buf(s.drop_first(), source, sequence);
        assert forall|j: int| 1 <= j < s.len() implies s[j] == s.drop_first()[j - 1] by {}
    }
}

/// Storing a buffer: it replaces the buffer of the same broadcast, or is
/// appended after dropping the oldest buffer when all are in use.
pub open spec fn spec_store_buf(s: Seq<BroadcastBufView>, b: BroadcastBufView) -> Seq<BroadcastBufView> {
    match first_buf(s, b.source, b.sequence) {
        Some(i) => s.update(i, b),
        None => if s.len() >= BROADCAST_BUFFERS {
            s.drop_first().push(b)
        } else {
            s.push(b)
        },
    }
}

/// A record after `neighbor` was heard relaying its broadcast.
pub open spec fn acked(r: BroadcastRecordView, neighbor: ShortAddress) -> BroadcastRecordView {
    BroadcastRecordView { awaiting: r.awaiting.filter(other_than(neighbor)), ..r }
}

/// The records after inserting `rec` into a table holding `s` with
/// capacity `cap`: appended while there is room, else in place of the
/// first expired record (the last record moving into its slot); `None`
/// when full with nothing expired.
pub open spec fn spec_insert_record(s: Seq<BroadcastRecordView>, rec: BroadcastRecordView, now: Instant, cap: int) -> Option<
    Seq<BroadcastRecordView>,
> {
    if s.len() < cap {
        Some(s.push(rec))
    } else {
        match first_record(s, expired_at(now)) {
            Some(v) => Some(s.update(v, s.last()).drop_last().push(rec)),
            None => None,
        }
    }
}

/// Delay, in milliseconds, before a frame waiting for a frame counter
/// reservation is tried again.
pub const COUNTER_RETRY_DELAY_MS: u64 = 2;

/// Number of broadcasts serviced per timer pass.
pub const DUE_PER_PASS: usize = 8;

/// Number of sleepy children a broadcast is copied to.
pub const SLEEPY_COPIES: usize = 8;

/// The record's (re)transmission is due at `now`.
pub open spec fn is_due(now: Instant) -> spec_fn(BroadcastRecordView) -> bool {
    |r: BroadcastRecordView| r.next_tx matches Some(t) && now.0 >= t.0
}

/// The broadcast of the record.
pub open spec fn record_key(r: BroadcastRecordView) -> (ShortAddress, u8) {
    (r.source, r.sequence)
}

/// The broadcasts due at `now`, in table order, at most
/// [`DUE_PER_PASS`] of them.
pub open spec fn spec_due(s: Seq<BroadcastRecordView>, now: Instant) -> Seq<(ShortAddress, u8)> {
    at_most(s.filter(is_due(now)).map_values(|r: BroadcastRecordView| record_key(r)), DUE_PER_PASS as int)
}

/// Buffers of every broadcast but `(source, sequence)`.
pub open spec fn not_buf_of(source: ShortAddress, sequence: u8) -> spec_fn(BroadcastBufView) -> bool {
    |b: BroadcastBufView| !(b.source == source && b.sequence == sequence)
}

/// Buffers whose broadcast still has a record in `btt`.
pub open spec fn tracked_in(btt: Seq<BroadcastRecordView>) -> spec_fn(BroadcastBufView) -> bool {
    |b: BroadcastBufView| first_record(btt, is_broadcast_of(b.source, b.sequence)) is Some
}

/// A sleepy end-device child other than `src` gets a unicast copy of a
/// broadcast.
pub open spec fn sleepy_child_of(src: ShortAddress) -> spec_fn(NeighborEntry) -> bool {
    |e: NeighborEntry| e.relationship.spec_is_child() && e.device_type is EndDevice && !e.rx_on_when_idle && e.short != src
}

/// The children a broadcast from `src` to `dst` is copied to: on its first
/// transmission to all devices, the sleepy end-device children other than
/// the originator, in table order, at most [`SLEEPY_COPIES`] of them.
pub open spec fn spec_sleepy_copies(s: Seq<NeighborEntry>, src: ShortAddress, dst: ShortAddress, first: bool) -> Seq<
    ShortAddress,
> {
    if first && dst.0 == BROADCAST_ALL_RAW {
        at_most(s.filter(sleepy_child_of(src)).map_values(|e: NeighborEntry| e.short), SLEEPY_COPIES as int)
    } else {
        Seq::empty()
    }
}

/// The children a broadcast is copied to.
pub fn sleepy_copies<const N: usize>(neighbors: &NeighborTable<N>, src: ShortAddress, dst: ShortAddress, first: bool) -> (v: Vec<
    ShortAddress,
>)
    ensures
        v@ == spec_sleepy_copies(neighbors@, src, dst, first),
{
    let mut v: Vec<ShortAddress> = Vec::new();
    if !(first && dst.0 == BROADCAST_ALL_RAW) {
        return v;
    }
    let entries = neighbors.entries();
    let ghost s = neighbors@;
    let mut i: usize = 0;
    while i < entries.len()
        invariant
            entries@ == s,
            i <= s.len(),
            v@ == at_most(
                s.take(i as int).filter(sleepy_child_of(src)).map_values(|e: NeighborEntry| e.short),
                SLEEPY_COPIES as int,
            ),
        decreases s.len() - i,
    {
        let e = entries[i];
        proof {
            let t = s.take(i as int);
            assert(s.take(i + 1) =~= t.push(e));
            t.lemma_filter_push(e, sleepy_child_of(src));
            let m = t.filter(sleepy_child_of(src)).map_values(|e: NeighborEntry| e.short);
            assert(t.filter(sleepy_child_of(src)).push(e).map_values(|e: NeighborEntry| e.short) =~= m.push(e.short));
            lemma_at_most_push(m, e.short, SLEEPY_COPIES as int);
        }
        if e.relationship.is_child() && e.is_end_device() && !e.rx_on_when_idle && e.short != src {
            if v.len() < SLEEPY_COPIES {
                v.push(e.short);
            }
        }
        i = i + 1;
    }
    assert(s.take(i as int) =~= s);
    v
}

/// The next step of servicing a due broadcast.
#[derive(Clone, Copy, PartialEq, Eq, Debug, Structural)]
pub enum ServiceStep {
    /// No record of the broadcast.
    Missing,
    /// Every neighbor relayed it, or the retries are used up: nothing
    /// more is sent and its buffer was dropped.
    Done,
    /// The buffered plaintext must be secured, then sent (`first`: its
    /// first transmission by this device).
    Secure {
        /// First transmission.
        first: bool,
    },
    /// The buffered frame is to be sent.
    Send {
        /// First transmission.
        first: bool,
    },
    /// Nothing buffered to send: the retransmission timer was stopped.
    NoFrame,
}

/// How an originated broadcast proceeds.
#[derive(Clone, Copy, PartialEq, Eq, Debug, Structural)]
pub enum OriginateOutcome {
    /// No room to track it (or an end device waiting for its frame
    /// counter): retry later.
    Busy,
    /// Parked until the frame counter reservation is committed.
    Parked,
    /// An end device sends it to its parent and keeps no record.
    ToParent,
    /// Recorded: transmit it now.
    Broadcast,
}

/// Byte `i` of `b`, or `d` when `b` is shorter.
pub open spec fn byte_or(b: Seq<u8>, i: int, d: u8) -> u8 {
    if 0 <= i < b.len() {
        b[i]
    } else {
        d
    }
}

/// Byte `i` of `b`, or `d` when `b` is shorter.
pub fn get_byte_or(b: &[u8], i: usize, d: u8) -> (v: u8)
    ensures
        v == byte_or(b@, i as int, d),
{
    if i < b.len() {
        b[i]
    } else {
        d
    }
}

/// The NWK destination of a frame: octets 2 and 3, little-endian, with
/// missing octets read as `0xFF`.
pub fn broadcast_destination(frame: &[u8]) -> (d: ShortAddress)
    ensures
        d.0 == byte_or(frame@, 2, 0xFF) + 256 * byte_or(frame@, 3, 0xFF),
{
    let lo = get_byte_or(frame, 2, 0xFF);
    let hi = get_byte_or(frame, 3, 0xFF);
    ShortAddress(lo as u16 + (hi as u16) * 256)
}

/// What the layer does with a received broadcast.
#[derive(Clone, Copy, PartialEq, Eq, Debug, Structural)]
pub enum BroadcastDecision {
    /// Not for this device, already seen, or no room to track it.
    Drop,
    /// The local device's own address was used by another device: address
    /// conflict processing must run.
    AddressConflict,
    /// Deliver to the higher layer.
    Deliver,
    /// Deliver to the higher layer; a relay copy was buffered.
    DeliverAndRelay,
}

/// The broadcast bookkeeping of the network layer.
#[derive(Clone, Debug)]
pub struct BroadcastState<const BTT: usize> {
    /// Broadcast transaction records.
    pub btt: BroadcastTransactionTable<BTT>,
    /// Frames held for relay or retransmission.
    pub bufs: Vec<BroadcastBuf>,
    /// Broadcasts relayed.
    pub relayed: u32,
}

/// The mathematical content of a [`BroadcastState`].
pub struct BroadcastStateView {
    /// Broadcast transaction records.
    pub btt: Seq<BroadcastRecordView>,
    /// Buffered frames.
    pub bufs: Seq<BroadcastBufView>,
    /// Broadcasts relayed.
    pub relayed: u32,
}

impl<const BTT: usize> View for BroadcastState<BTT> {
    type V = BroadcastStateView;

    open spec fn view(&self) -> BroadcastStateView {
        BroadcastStateView { btt: self.btt@, bufs: buf_views(self.bufs@), relayed: self.relayed }
    }
}

impl BroadcastStateView {
    /// The state and decision after receiving a broadcast from `src` with
    /// sequence number `sequence` for group `dst`, relayed to us by
    /// `mac_src`, with `radius` hops left; the NWK header is
    /// `buf[..header_len]` and the plaintext payload
    /// `buf[payload_start..payload_end]`. `jitter_ms` is the random relay
    /// delay.
    pub open spec fn broadcast_received(
        self,
        nib: Nib,
        neighbors: Seq<NeighborEntry>,
        passive_ack: bool,
        operating_since: Option<Instant>,
        now: Instant,
        cap: int,
        src: ShortAddress,
        sequence: u8,
        dst: ShortAddress,
        radius: u8,
        mac_src: ShortAddress,
        buf: Seq<u8>,
        header_len: usize,
        payload_start: usize,
        payload_end: usize,
        secured: bool,
        jitter_ms: u64,
    ) -> (BroadcastStateView, BroadcastDecision) {
        if !spec_in_broadcast_group(nib, dst) {
            (self, BroadcastDecision::Drop)
        } else {
            match first_record(self.btt, is_broadcast_of(src, sequence)) {
                Some(i) => (
                    BroadcastStateView { btt: self.btt.update(i, acked(self.btt[i], mac_src)), ..self },
                    BroadcastDecision::Drop,
                ),
                None => if src == nib.network_address {
                    let long_enough = operating_since matches Some(t) && now.0 >= after_ms(
                        t,
                        nib.network_broadcast_delivery_time.0,
                    ).0;
                    if long_enough && secured && !(nib.device_type is EndDevice) {
                        (self, BroadcastDecision::AddressConflict)
                    } else {
                        (self, BroadcastDecision::Drop)
                    }
                } else if nib.device_type is EndDevice {
                    (self, BroadcastDecision::Deliver)
                } else {
                    let copy = spec_relay_copy(
                        buf,
                        header_len as int,
                        payload_start as int,
                        payload_end as int,
                        radius,
                    );
                    let relay = nib.router_started && radius > 1 && copy is Some;
                    let rec = BroadcastRecordView {
                        source: src,
                        sequence,
                        expires: after_ms(now, nib.network_broadcast_delivery_time.0),
                        awaiting: spec_passive_ack_set(neighbors, mac_src, passive_ack),
                        retries: 0,
                        next_tx: if relay {
                            Some(after_ms(now, jitter_ms))
                        } else {
                            None
                        },
                        relay_pending: relay,
                    };
                    match spec_insert_record(self.btt, rec, now, cap) {
                        None => (self, BroadcastDecision::Drop),
                        Some(t) => if relay {
                            (
                                BroadcastStateView {
                                    btt: t,
                                    bufs: spec_store_buf(
                                        self.bufs,
                                        BroadcastBufView {
                                            source: src,
                                            sequence,
                                            frame: Seq::empty(),
                                            plaintext: Some((copy.unwrap(), header_len, secured)),
                                        },
                                    ),
                                    relayed: if self.relayed == u32::MAX {
                                        u32::MAX
                                    } else {
                                        (self.relayed + 1) as u32
                                    },
                                },
                                BroadcastDecision::DeliverAndRelay,
                            )
                        } else {
                            (BroadcastStateView { btt: t, ..self }, BroadcastDecision::Deliver)
                        },
                    }
                },
            }
        }
    }

    /// Servicing the due broadcast `(source, sequence)`: done when it was
    /// neither just received nor originated and every neighbor relayed
    /// it or the retries are used up; otherwise a retransmission counts
    /// as a retry, and the buffered plaintext is to be secured, or the
    /// buffered frame sent.
    pub open spec fn service_step(self, source: ShortAddress, sequence: u8, retries_max: u8) -> (
        BroadcastStateView,
        ServiceStep,
    ) {
        match first_record(self.btt, is_broadcast_of(source, sequence)) {
            None => (self, ServiceStep::Missing),
            Some(i) => {
                let r = self.btt[i];
                let first = r.relay_pending;
                if !first && (r.awaiting.len() == 0 || r.retries >= retries_max) {
                    (
                        BroadcastStateView {
                            btt: self.btt.update(i, BroadcastRecordView { next_tx: None, ..r }),
                            bufs: self.bufs.filter(not_buf_of(source, sequence)),
                            ..self
                        },
                        ServiceStep::Done,
                    )
                } else {
                    let retries = if first { r.retries } else { (r.retries + 1) as u8 };
                    let r1 = BroadcastRecordView { retries, relay_pending: false, ..r };
                    match first_buf(self.bufs, source, sequence) {
                        Some(k) if self.bufs[k].plaintext is Some => (
                            BroadcastStateView { btt: self.btt.update(i, r1), ..self },
                            ServiceStep::Secure { first },
                        ),
                        Some(k) if self.bufs[k].frame.len() > 0 => (
                            BroadcastStateView { btt: self.btt.update(i, r1), ..self },
                            ServiceStep::Send { first },
                        ),
                        _ => (
                            BroadcastStateView {
                                btt: self.btt.update(i, BroadcastRecordView { next_tx: None, ..r1 }),
                                ..self
                            },
                            ServiceStep::NoFrame,
                        ),
                    }
                }
            },
        }
    }

    /// The record of the broadcast, if any, with its retransmission state
    /// replaced.
    pub open spec fn with_tx(
        self,
        source: ShortAddress,
        sequence: u8,
        f: spec_fn(BroadcastRecordView) -> BroadcastRecordView,
    ) -> Seq<BroadcastRecordView> {
        match first_record(self.btt, is_broadcast_of(source, sequence)) {
            Some(i) => self.btt.update(i, f(self.btt[i])),
            None => self.btt,
        }
    }

    /// After a broadcast was sent on the air as `frame`: the frame is kept
    /// for retransmission, which is armed a passive acknowledgement
    /// timeout later while retries are left.
    pub open spec fn transmitted(
        self,
        source: ShortAddress,
        sequence: u8,
        frame: Seq<u8>,
        retries_max: u8,
        timeout_ms: u64,
        now: Instant,
    ) -> BroadcastStateView {
        BroadcastStateView {
            btt: self.with_tx(
                source,
                sequence,
                |r: BroadcastRecordView|
                    BroadcastRecordView {
                        next_tx: if r.retries < retries_max {
                            Some(after_ms(now, timeout_ms))
                        } else {
                            None
                        },
                        ..r
                    },
            ),
            bufs: spec_store_buf(
                self.bufs,
                BroadcastBufView { source, sequence, frame, plaintext: None },
            ),
            ..self
        }
    }

    /// Originating a broadcast whose plaintext NPDU is `npdu` (its NWK
    /// sequence number at byte 7). `counter_pending`: the frame could not
    /// be secured yet for want of a committed frame counter reservation.
    pub open spec fn originated(
        self,
        nib: Nib,
        neighbors: Seq<NeighborEntry>,
        passive_ack: bool,
        now: Instant,
        cap: int,
        counter_pending: bool,
        npdu: Seq<u8>,
        header_len: usize,
        secure: bool,
    ) -> (BroadcastStateView, OriginateOutcome) {
        let src = nib.network_address;
        let sequence = byte_or(npdu, 7, 0);
        let end_device = nib.device_type is EndDevice;
        if end_device {
            (self, if counter_pending { OriginateOutcome::Busy } else { OriginateOutcome::ToParent })
        } else {
            let rec = BroadcastRecordView {
                source: src,
                sequence,
                expires: after_ms(now, nib.network_broadcast_delivery_time.0),
                awaiting: spec_passive_ack_set(neighbors, ShortAddress(NO_SHORT_ADDRESS_RAW), passive_ack),
                retries: 0,
                next_tx: if counter_pending {
                    Some(after_ms(now, COUNTER_RETRY_DELAY_MS))
                } else {
                    None
                },
                relay_pending: true,
            };
            match spec_insert_record(self.btt, rec, now, cap) {
                None => (self, OriginateOutcome::Busy),
                Some(t) => if counter_pending {
                    (
                        BroadcastStateView {
                            btt: t,
                            bufs: spec_store_buf(
                                self.bufs,
                                BroadcastBufView {
                                    source: src,
                                    sequence,
                                    frame: Seq::empty(),
                                    plaintext: Some((npdu, header_len, secure)),
                                },
                            ),
                            ..self
                        },
                        OriginateOutcome::Parked,
                    )
                } else {
                    (BroadcastStateView { btt: t, ..self }, OriginateOutcome::Broadcast)
                },
            }
        }
    }

    /// After the buffered plaintext of a broadcast was secured as `frame`:
    /// the frame replaces it; `true` when there is a frame to send,
    /// otherwise the retransmission timer is stopped.
    pub open spec fn secured(self, source: ShortAddress, sequence: u8, frame: Seq<u8>) -> (BroadcastStateView, bool) {
        match first_buf(self.bufs, source, sequence) {
            Some(k) => {
                let bufs = self.bufs.update(k, BroadcastBufView { source, sequence, frame, plaintext: None });
                if frame.len() > 0 {
                    (BroadcastStateView { bufs, ..self }, true)
                } else {
                    (
                        BroadcastStateView {
                            btt: self.with_tx(
                                source,
                                sequence,
                                |r: BroadcastRecordView| BroadcastRecordView { next_tx: None, ..r },
                            ),
                            bufs,
                            ..self
                        },
                        false,
                    )
                }
            },
            None => (
                BroadcastStateView {
                    btt: self.with_tx(
                        source,
                        sequence,
                        |r: BroadcastRecordView| BroadcastRecordView { next_tx: None, ..r },
                    ),
                    ..self
                },
                false,
            ),
        }
    }

    /// After securing a broadcast waited for a frame counter reservation:
    /// it is tried again shortly, as a first transmission.
    pub open spec fn counter_pending(self, source: ShortAddress, sequence: u8, now: Instant) -> BroadcastStateView {
        BroadcastStateView {
            btt: self.with_tx(
                source,
                sequence,
                |r: BroadcastRecordView|
                    BroadcastRecordView {
                        relay_pending: true,
                        next_tx: Some(after_ms(now, COUNTER_RETRY_DELAY_MS)),
                        ..r
                    },
            ),
            ..self
        }
    }
}

impl<const BTT: usize> BroadcastState<BTT> {
    /// The table and the buffers hold at most their capacities.
    pub open spec fn wf(&self) -> bool {
        &&& self.btt.wf()
        &&& self.bufs@.len() <= BROADCAST_BUFFERS
    }

    /// No records, no buffers.
    pub fn new() -> (s: Self)
        ensures
            s.wf(),
            s@.btt == Seq::<BroadcastRecordView>::empty(),
            s@.bufs == Seq::<BroadcastBufView>::empty(),
            s@.relayed == 0,
    {
        let s = BroadcastState { btt: BroadcastTransactionTable::new(), bufs: Vec::new(), relayed: 0 };
        assert(buf_views(s.bufs@) =~= Seq::<BroadcastBufView>::empty());
        s
    }

    /// Index of the buffer holding the broadcast.
    fn buf_position(&self, source: ShortAddress, sequence: u8) -> (r: Option<usize>)
        ensures
            first_buf(self@.bufs, source, sequence) == (match r {
                Some(i) => Some(i as int),
                None => None,
            }),
            r matches Some(i) ==> i < self.bufs@.len(),
    {
        let ghost s = self@.bufs;
        proof {
            lemma_first_buf(s, source, sequence);
        }
        let mut i: usize = 0;
        while i < self.bufs.len()
            invariant
                s == buf_views(self.bufs@),
                i <= s.len(),
                forall|j: int| 0 <= j < i ==> !((#[trigger] s[j]).source == source && s[j].sequence == sequence),
                match first_buf(s, source, sequence) {
                    Some(k) => 0 <= k < s.len() && s[k].source == source && s[k].sequence == sequence && forall|j: int|
                        0 <= j < k ==> !((#[trigger] s[j]).source == source && s[j].sequence == sequence),
                    None => forall|j: int| 0 <= j < s.len() ==> !((#[trigger] s[j]).source == source && s[j].sequence == sequence),
                },
            decreases s.len() - i,
        {
            if self.bufs[i].source == source && self.bufs[i].sequence == sequence {
                proof {
                    assert(s[i as int] == self.bufs@[i as int]@);
                    match first_buf(s, source, sequence) {
                        Some(k) => {
                            if k < i {
                                assert(!(s[k].source == source && s[k].sequence == sequence));
                            } else if k > i {
                                assert(!(s[i as int].source == source && s[i as int].sequence == sequence));
                            }
                        },
                        None => {
                            assert(!(s[i as int].source == source && s[i as int].sequence == sequence));
                        },
                    }
                }
                return Some(i);
            }
            proof {
                assert(s[i as int] == self.bufs@[i as int]@);
            }
            i = i + 1;
        }
        proof {
            if let Some(k) = first_buf(s, source, sequence) {
                assert(!(s[k].source == source && s[k].sequence == sequence));
            }
        }
        None
    }

    /// Stores a buffer, replacing the one of the same broadcast or dropping
    /// the oldest when all are in use.
    fn store_buf(&mut self, b: BroadcastBuf)
        requires
            old(self).wf(),
        ensures
            final(self).wf(),
            final(self)@ == (BroadcastStateView { bufs: spec_store_buf(old(self)@.bufs, b@), ..old(self)@ }),
    {
        let ghost s = self@.bufs;
        match self.buf_position(b.source, b.sequence) {
            Some(i) => {
                self.bufs.set(i, b);
                assert(buf_views(self.bufs@) =~= s.update(i as int, b@));
            },
            None => {
                if self.bufs.len() >= BROADCAST_BUFFERS {
                    let _ = self.bufs.remove(0);
                    assert(buf_views(self.bufs@) =~= s.drop_first());
                }
                self.bufs.push(b);
                assert(buf_views(self.bufs@) =~= if s.len() >= BROADCAST_BUFFERS {
                    s.drop_first().push(b@)
                } else {
                    s.push(b@)
                });
            },
        }
    }

    /// Handles a received broadcast (duplicate detection, passive
    /// acknowledgement, the relay decision). A broadcast not addressed to
    /// a group of this device is dropped; one already recorded counts as a
    /// passive acknowledgement from `mac_src` and is dropped; the local
    /// device's own address used by another device after it has operated
    /// for a broadcast delivery time, on a secured frame received by a
    /// router, is an address conflict. An end device delivers every new
    /// broadcast and keeps no record. A router records it (dropping it
    /// when the table is full with nothing expired), delivers it, and
    /// when started and the radius allows, buffers a relay copy due after
    /// `jitter_ms`.
    pub fn on_broadcast_received<const NB: usize>(
        &mut self,
        nib: &Nib,
        neighbors: &NeighborTable<NB>,
        passive_ack: bool,
        operating_since: Option<Instant>,
        now: Instant,
        src: ShortAddress,
        sequence: u8,
        dst: ShortAddress,
        radius: u8,
        mac_src: ShortAddress,
        buf: &[u8],
        header_len: usize,
        payload_start: usize,
        payload_end: usize,
        secured: bool,
        jitter_ms: u64,
    ) -> (d: BroadcastDecision)
        requires
            old(self).wf(),
            jitter_ms <= MAX_BROADCAST_JITTER_MS,
        ensures
            final(self).wf(),
            (final(self)@, d) == old(self)@.broadcast_received(
                *nib,
                neighbors@,
                passive_ack,
                operating_since,
                now,
                BTT as int,
                src,
                sequence,
                dst,
                radius,
                mac_src,
                buf@,
                header_len,
                payload_start,
                payload_end,
                secured,
                jitter_ms,
            ),
    {
        if !in_broadcast_group(nib, dst) {
            return BroadcastDecision::Drop;
        }
        if self.btt.passive_ack(src, sequence, mac_src) {
            return BroadcastDecision::Drop;
        }
        if src == nib.network_address {
            let long_enough = match operating_since {
                Some(t) => now.has_reached(t.plus(nib.network_broadcast_delivery_time)),
                None => false,
            };
            if long_enough && secured && nib.is_router_or_coordinator() {
                return BroadcastDecision::AddressConflict;
            }
            return BroadcastDecision::Drop;
        }
        if nib.is_end_device() {
            return BroadcastDecision::Deliver;
        }
        let copy = if nib.router_started && radius > 1 {
            relay_copy(buf, header_len, payload_start, payload_end, radius)
        } else {
            None
        };
        let relay = copy.is_some();
        let awaiting = passive_ack_set(neighbors, mac_src, passive_ack);
        let due = now.plus(Duration::from_millis(jitter_ms));
        let record = BroadcastRecord {
            source: src,
            sequence,
            expires: now.plus(nib.network_broadcast_delivery_time),
            awaiting,
            retries: 0,
            next_tx: if relay {
                Some(due)
            } else {
                None
            },
            relay_pending: relay,
        };
        let inserted = self.btt.insert(record, now).is_some();
        if !inserted {
            return BroadcastDecision::Drop;
        }
        match copy {
            Some(c) => {
                self.store_buf(
                    BroadcastBuf { source: src, sequence, frame: Vec::new(), plaintext: Some((c, header_len, secured)) },
                );
                self.relayed = self.relayed.saturating_add(1);
                BroadcastDecision::DeliverAndRelay
            },
            None => BroadcastDecision::Deliver,
        }
    }

    /// The broadcasts whose (re)transmission is due at `now`.
    pub fn due_broadcasts(&self, now: Instant) -> (v: Vec<(ShortAddress, u8)>)
        ensures
            v@ == spec_due(self@.btt, now),
    {
        let recs = self.btt.records();
        let ghost s = self@.btt;
        let mut v: Vec<(ShortAddress, u8)> = Vec::new();
        let mut i: usize = 0;
        while i < recs.len()
            invariant
                record_views(recs@) == s,
                i <= s.len(),
                v@ == at_most(
                    s.take(i as int).filter(is_due(now)).map_values(|r: BroadcastRecordView| record_key(r)),
                    DUE_PER_PASS as int,
                ),
            decreases s.len() - i,
        {
            let r = &recs[i];
            let ghost rv = s[i as int];
            proof {
                assert(rv == r@);
                let t = s.take(i as int);
                assert(s.take(i + 1) =~= t.push(rv));
                t.lemma_filter_push(rv, is_due(now));
                let m = t.filter(is_due(now)).map_values(|r: BroadcastRecordView| record_key(r));
                assert(t.filter(is_due(now)).push(rv).map_values(|r: BroadcastRecordView| record_key(r)) =~= m.push(
                    record_key(rv),
                ));
                lemma_at_most_push(m, record_key(rv), DUE_PER_PASS as int);
            }
            let due = match r.next_tx {
                Some(t) => now.has_reached(t),
                None => false,
            };
            if due && v.len() < DUE_PER_PASS {
                v.push((r.source, r.sequence));
            }
            i = i + 1;
        }
        assert(s.take(i as int) =~= s);
        v
    }

    /// Drops the buffers of the broadcast, keeping the others in order.
    fn drop_bufs_of(&mut self, source: ShortAddress, sequence: u8)
        requires
            old(self).wf(),
        ensures
            final(self).wf(),
            final(self)@ == (BroadcastStateView {
                bufs: old(self)@.bufs.filter(not_buf_of(source, sequence)),
                ..old(self)@
            }),
    {
        let ghost s0 = self@.bufs;
        let mut all: Vec<BroadcastBuf> = Vec::new();
        std::mem::swap(&mut all, &mut self.bufs);
        let mut kept: Vec<BroadcastBuf> = Vec::new();
        let ghost mut i: int = 0;
        while all.len() > 0
            invariant
                0 <= i <= s0.len(),
                s0.len() <= BROADCAST_BUFFERS,
                buf_views(all@) == s0.skip(i),
                buf_views(kept@) == s0.take(i).filter(not_buf_of(source, sequence)),
                kept@.len() <= i,
            decreases all@.len(),
        {
            let ghost all0 = all@;
            let b = all.remove(0);
            proof {
                assert(buf_views(all0).len() == s0.skip(i).len());
                assert(buf_views(all0)[0] == all0[0]@);
                assert(s0.skip(i)[0] == s0[i]);
                assert(s0.take(i + 1) =~= s0.take(i).push(s0[i]));
                s0.take(i).lemma_filter_push(b@, not_buf_of(source, sequence));
                assert(buf_views(all@) =~= buf_views(all0).drop_first());
                assert(s0.skip(i).drop_first() =~= s0.skip(i + 1));
            }
            let ghost k0 = kept@;
            if !(b.source == source && b.sequence == sequence) {
                kept.push(b);
                proof {
                    assert(buf_views(kept@) =~= buf_views(k0).push(kept@.last()@));
                }
            }
            proof {
                i = i + 1;
            }
        }
        proof {
            assert(s0.skip(i).len() == 0);
            assert(s0.take(i) =~= s0);
        }
        self.bufs = kept;
    }

    /// Drops the buffers of broadcasts no longer recorded.
    fn drop_untracked_bufs(&mut self)
        requires
            old(self).wf(),
        ensures
            final(self).wf(),
            final(self)@ == (BroadcastStateView {
                bufs: old(self)@.bufs.filter(tracked_in(old(self)@.btt)),
                ..old(self)@
            }),
    {
        let ghost s0 = self@.bufs;
        let ghost btt = self@.btt;
        let mut all: Vec<BroadcastBuf> = Vec::new();
        std::mem::swap(&mut all, &mut self.bufs);
        let mut kept: Vec<BroadcastBuf> = Vec::new();
        let ghost mut i: int = 0;
        while all.len() > 0
            invariant
                0 <= i <= s0.len(),
                s0.len() <= BROADCAST_BUFFERS,
                self@.btt == btt,
                self.btt.wf(),
                buf_views(all@) == s0.skip(i),
                buf_views(kept@) == s0.take(i).filter(tracked_in(btt)),
                kept@.len() <= i,
            decreases all@.len(),
        {
            let ghost all0 = all@;
            let b = all.remove(0);
            proof {
                assert(buf_views(all0).len() == s0.skip(i).len());
                assert(buf_views(all0)[0] == all0[0]@);
                assert(s0.skip(i)[0] == s0[i]);
                assert(s0.take(i + 1) =~= s0.take(i).push(s0[i]));
                s0.take(i).lemma_filter_push(b@, tracked_in(btt));
                assert(buf_views(all@) =~= buf_views(all0).drop_first());
                assert(s0.skip(i).drop_first() =~= s0.skip(i + 1));
            }
            let ghost k0 = kept@;
            if self.btt.get(b.source, b.sequence).is_some() {
                kept.push(b);
                proof {
                    assert(buf_views(kept@) =~= buf_views(k0).push(kept@.last()@));
                }
            }
            proof {
                i = i + 1;
            }
        }
        proof {
            assert(s0.skip(i).len() == 0);
            assert(s0.take(i) =~= s0);
        }
        self.bufs = kept;
    }

    /// Services one due broadcast (see
    /// [`BroadcastStateView::service_step`]).
    pub fn service_step(&mut self, source: ShortAddress, sequence: u8, retries_max: u8) -> (st: ServiceStep)
        requires
            old(self).wf(),
        ensures
            final(self).wf(),
            (final(self)@, st) == old(self)@.service_step(source, sequence, retries_max),
    {
        let (first, retries, awaiting_empty, next_tx) = match self.btt.get(source, sequence) {
            Some(r) => (r.relay_pending, r.retries, r.awaiting.len() == 0, r.next_tx),
            None => {
                return ServiceStep::Missing;
            },
        };
        if !first && (awaiting_empty || retries >= retries_max) {
            let _ = self.btt.set_tx(source, sequence, retries, None, first);
            self.drop_bufs_of(source, sequence);
            return ServiceStep::Done;
        }
        let retries = if first {
            retries
        } else {
            retries + 1
        };
        let step = match self.buf_position(source, sequence) {
            Some(k) => if self.bufs[k].plaintext.is_some() {
                ServiceStep::Secure { first }
            } else if self.bufs[k].frame.len() > 0 {
                ServiceStep::Send { first }
            } else {
                ServiceStep::NoFrame
            },
            None => ServiceStep::NoFrame,
        };
        let next = if step == ServiceStep::NoFrame {
            None
        } else {
            next_tx
        };
        let _ = self.btt.set_tx(source, sequence, retries, next, false);
        step
    }

    /// Records that the buffered plaintext of a broadcast was secured as
    /// `frame`; `true` when it is to be sent.
    pub fn broadcast_secured(&mut self, source: ShortAddress, sequence: u8, frame: Vec<u8>) -> (send: bool)
        requires
            old(self).wf(),
        ensures
            final(self).wf(),
            (final(self)@, send) == old(self)@.secured(source, sequence, frame@),
    {
        let ghost s0 = self@;
        let ghost fv = frame@;
        let n = frame.len();
        let found = match self.buf_position(source, sequence) {
            Some(k) => {
                self.bufs.set(k, BroadcastBuf { source, sequence, frame, plaintext: None });
                assert(buf_views(self.bufs@) =~= s0.bufs.update(
                    k as int,
                    BroadcastBufView { source, sequence, frame: fv, plaintext: None },
                ));
                true
            },
            None => false,
        };
        if found && n > 0 {
            return true;
        }
        let cur = match self.btt.get(source, sequence) {
            Some(r) => Some((r.retries, r.relay_pending)),
            None => None,
        };
        if let Some((retries, relay_pending)) = cur {
            let _ = self.btt.set_tx(source, sequence, retries, None, relay_pending);
        }
        false
    }

    /// Records that securing a broadcast waits for a frame counter
    /// reservation: it is tried again shortly.
    pub fn broadcast_counter_pending(&mut self, source: ShortAddress, sequence: u8, now: Instant)
        requires
            old(self).wf(),
        ensures
            final(self).wf(),
            final(self)@ == old(self)@.counter_pending(source, sequence, now),
    {
        let cur = match self.btt.get(source, sequence) {
            Some(r) => Some(r.retries),
            None => None,
        };
        if let Some(retries) = cur {
            let due = now.plus(Duration::from_millis(COUNTER_RETRY_DELAY_MS));
            let _ = self.btt.set_tx(source, sequence, retries, Some(due), true);
        }
    }

    /// Records that a broadcast could not be secured: its buffer is
    /// dropped.
    pub fn broadcast_secure_failed(&mut self, source: ShortAddress, sequence: u8)
        requires
            old(self).wf(),
        ensures
            final(self).wf(),
            final(self)@ == (BroadcastStateView {
                bufs: old(self)@.bufs.filter(not_buf_of(source, sequence)),
                ..old(self)@
            }),
    {
        self.drop_bufs_of(source, sequence);
    }

    /// Records that a broadcast was sent on the air as `frame` (see
    /// [`BroadcastStateView::transmitted`]).
    pub fn broadcast_transmitted(
        &mut self,
        source: ShortAddress,
        sequence: u8,
        frame: Vec<u8>,
        retries_max: u8,
        timeout: Duration,
        now: Instant,
    )
        requires
            old(self).wf(),
        ensures
            final(self).wf(),
            final(self)@ == old(self)@.transmitted(source, sequence, frame@, retries_max, timeout.0, now),
    {
        let cur = match self.btt.get(source, sequence) {
            Some(r) => Some((r.retries, r.relay_pending)),
            None => None,
        };
        if let Some((retries, relay_pending)) = cur {
            let next = if retries < retries_max {
                Some(now.plus(timeout))
            } else {
                None
            };
            let _ = self.btt.set_tx(source, sequence, retries, next, relay_pending);
        }
        self.store_buf(BroadcastBuf { source, sequence, frame, plaintext: None });
    }

    /// Ends a timer pass: expired records and the buffers of broadcasts no
    /// longer recorded are dropped.
    pub fn expire(&mut self, now: Instant)
        requires
            old(self).wf(),
        ensures
            final(self).wf(),
            ({
                let btt = old(self)@.btt.filter(|r: BroadcastRecordView| now.0 < r.expires.0);
                final(self)@ == (BroadcastStateView {
                    btt,
                    bufs: old(self)@.bufs.filter(tracked_in(btt)),
                    ..old(self)@
                })
            }),
    {
        let ghost s0 = self@;
        self.btt.expire(now);
        proof {
            s0.btt.lemma_filter_len(|r: BroadcastRecordView| now.0 < r.expires.0);
        }
        self.drop_untracked_bufs();
    }

    /// Originates a broadcast whose plaintext NPDU is `npdu` (see
    /// [`BroadcastStateView::originated`]).
    pub fn originate<const NB: usize>(
        &mut self,
        nib: &Nib,
        neighbors: &NeighborTable<NB>,
        passive_ack: bool,
        now: Instant,
        counter_pending: bool,
        npdu: Vec<u8>,
        header_len: usize,
        secure: bool,
    ) -> (o: OriginateOutcome)
        requires
            old(self).wf(),
        ensures
            final(self).wf(),
            (final(self)@, o) == old(self)@.originated(
                *nib,
                neighbors@,
                passive_ack,
                now,
                BTT as int,
                counter_pending,
                npdu@,
                header_len,
                secure,
            ),
    {
        let src = nib.network_address;
        let sequence = get_byte_or(npdu.as_slice(), 7, 0);
        if nib.is_end_device() {
            return if counter_pending {
                OriginateOutcome::Busy
            } else {
                OriginateOutcome::ToParent
            };
        }
        let awaiting = passive_ack_set(neighbors, ShortAddress(NO_SHORT_ADDRESS_RAW), passive_ack);
        let record = BroadcastRecord {
            source: src,
            sequence,
            expires: now.plus(nib.network_broadcast_delivery_time),
            awaiting,
            retries: 0,
            next_tx: if counter_pending {
                Some(now.plus(Duration::from_millis(COUNTER_RETRY_DELAY_MS)))
            } else {
                None
            },
            relay_pending: true,
        };
        let inserted = self.btt.insert(record, now).is_some();
        if !inserted {
            return OriginateOutcome::Busy;
        }
        if counter_pending {
            self.store_buf(
                BroadcastBuf { source: src, sequence, frame: Vec::new(), plaintext: Some((npdu, header_len, secure)) },
            );
            OriginateOutcome::Parked
        } else {
            OriginateOutcome::Broadcast
        }
    }
}

/// A router delivers a broadcast at most once: after a reception that was
/// delivered, a second reception of the same broadcast (same initiator
/// and sequence number, from any neighbor, with any radius or frame) is
/// dropped, as long as the record has not expired out of the table.
pub proof fn lemma_duplicate_broadcast_dropped(
    v: BroadcastStateView,
    nib: Nib,
    neighbors: Seq<NeighborEntry>,
    passive_ack: bool,
    operating_since: Option<Instant>,
    now: Instant,
    cap: int,
    src: ShortAddress,
    sequence: u8,
    dst: ShortAddress,
    radius: u8,
    mac_src: ShortAddress,
    buf: Seq<u8>,
    header_len: usize,
    payload_start: usize,
    payload_end: usize,
    secured: bool,
    jitter_ms: u64,
    now2: Instant,
    radius2: u8,
    mac_src2: ShortAddress,
    buf2: Seq<u8>,
    secured2: bool,
    jitter2_ms: u64,
)
    requires
        !(nib.device_type is EndDevice),
        ({
            let d = v.broadcast_received(nib, neighbors, passive_ack, operating_since, now, cap, src, sequence, dst,
                radius, mac_src, buf, header_len, payload_start, payload_end, secured, jitter_ms).1;
            d is Deliver || d is DeliverAndRelay
        }),
    ensures
        ({
            let v1 = v.broadcast_received(nib, neighbors, passive_ack, operating_since, now, cap, src, sequence, dst,
                radius, mac_src, buf, header_len, payload_start, payload_end, secured, jitter_ms).0;
            v1.broadcast_received(nib, neighbors, passive_ack, operating_since, now2, cap, src, sequence, dst, radius2,
                mac_src2, buf2, header_len, payload_start, payload_end, secured2, jitter2_ms).1 is Drop
        }),
{
    let key = is_broadcast_of(src, sequence);
    let v1 = v.broadcast_received(nib, neighbors, passive_ack, operating_since, now, cap, src, sequence, dst, radius,
        mac_src, buf, header_len, payload_start, payload_end, secured, jitter_ms).0;
    crate::nwk::broadcast::lemma_first_record(v1.btt, key);
    let n = v1.btt.len() - 1;
    assert(key(v1.btt[n]));
}

} // verus!
