//! Broadcast transaction table with passive acknowledgement tracking.
use vstd::prelude::*;

use crate::types::{Instant, ShortAddress};

verus! {

/// Maximum router neighbors tracked for passive acknowledgement per
/// broadcast record.
pub const PASSIVE_ACK_TRACKED: usize = 16;

/// A broadcast transaction record.
#[derive(Clone, Debug, PartialEq, Eq)]
pub struct BroadcastRecord {
    /// Broadcast initiator.
    pub source: ShortAddress,
    /// NWK sequence number of the broadcast.
    pub sequence: u8,
    /// Expiry (the broadcast delivery time after creation).
    pub expires: Instant,
    /// Router neighbors not yet heard relaying this broadcast.
    pub awaiting: Vec<ShortAddress>,
    /// Retransmissions performed so far by the local device.
    pub retries: u8,
    /// When the next (re)transmission is due, if the local device still
    /// needs to relay this broadcast.
    pub next_tx: Option<Instant>,
    /// The local device originated or must relay this frame and the
    /// buffered copy is held in the layer's broadcast buffer.
    pub relay_pending: bool,
}

/// The mathematical content of a [`BroadcastRecord`].
pub struct BroadcastRecordView {
    /// Broadcast initiator.
    pub source: ShortAddress,
    /// NWK sequence number.
    pub sequence: u8,
    /// Expiry.
    pub expires: Instant,
    /// Neighbors not yet heard relaying.
    pub awaiting: Seq<ShortAddress>,
    /// Retransmissions so far.
    pub retries: u8,
    /// Next (re)transmission.
    pub next_tx: Option<Instant>,
    /// A relay is pending.
    pub relay_pending: bool,
}

impl View for BroadcastRecord {
    type V = BroadcastRecordView;

    open spec fn view(&self) -> BroadcastRecordView {
        BroadcastRecordView {
            source: self.source,
            sequence: self.sequence,
            expires: self.expires,
            awaiting: self.awaiting@,
            retries: self.retries,
            next_tx: self.next_tx,
            relay_pending: self.relay_pending,
        }
    }
}

/// Every address but `neighbor`.
pub open spec fn other_than(neighbor: ShortAddress) -> spec_fn(ShortAddress) -> bool {
    |n: ShortAddress| n != neighbor
}

impl BroadcastRecord {
    /// Marks `neighbor` as having relayed the broadcast.
    pub fn passive_ack(&mut self, neighbor: ShortAddress)
        ensures
            final(self)@ == (BroadcastRecordView {
                awaiting: old(self)@.awaiting.filter(other_than(neighbor)),
                ..old(self)@
            }),
    {
        let ghost s0 = self.awaiting@;
        let mut kept: Vec<ShortAddress> = Vec::new();
        let mut i: usize = 0;
        while i < self.awaiting.len()
            invariant
                self.awaiting@ == s0,
                i <= s0.len(),
                kept@ == s0.take(i as int).filter(other_than(neighbor)),
            decreases s0.len() - i,
        {
            let n = self.awaiting[i];
            proof {
                assert(s0.take(i + 1) =~= s0.take(i as int).push(n));
                s0.take(i as int).lemma_filter_push(n, other_than(neighbor));
            }
            if n != neighbor {
                kept.push(n);
            }
            i = i + 1;
        }
        assert(s0.take(i as int) =~= s0);
        self.awaiting = kept;
    }

    /// True when every tracked neighbor has relayed the broadcast.
    pub fn fully_acknowledged(&self) -> (b: bool)
        ensures
            b == (self@.awaiting.len() == 0),
    {
        self.awaiting.len() == 0
    }
}

/// The views of records.
pub open spec fn record_views(s: Seq<BroadcastRecord>) -> Seq<BroadcastRecordView> {
    s.map_values(|r: BroadcastRecord| r@)
}

/// Replacing one record replaces its view.
pub proof fn lemma_views_update(s: Seq<BroadcastRecord>, i: int)
    requires
        0 <= i < s.len(),
    ensures
        forall|x: BroadcastRecord| #[trigger] record_views(s.update(i, x)) == record_views(s).update(i, x@),
{
    assert forall|x: BroadcastRecord| #[trigger] record_views(s.update(i, x)) == record_views(s).update(i, x@) by {
        assert(record_views(s.update(i, x)) =~= record_views(s).update(i, x@));
    }
}

/// The record matches the broadcast `(source, sequence)`.
pub open spec fn is_broadcast_of(source: ShortAddress, sequence: u8) -> spec_fn(BroadcastRecordView) -> bool {
    |r: BroadcastRecordView| r.source == source && r.sequence == sequence
}

/// The record has expired at `now`.
pub open spec fn expired_at(now: Instant) -> spec_fn(BroadcastRecordView) -> bool {
    |r: BroadcastRecordView| now.0 >= r.expires.0
}

/// Index of the first record satisfying `p`.
pub open spec fn first_record(s: Seq<BroadcastRecordView>, p: spec_fn(BroadcastRecordView) -> bool) -> Option<int>
    decreases s.len(),
{
    if s.len() == 0 {
        None
    } else if p(s[0]) {
        Some(0)
    } else {
        match first_record(s.drop_first(), p) {
            Some(i) => Some(i + 1),
            None => None,
        }
    }
}

/// `first_record` is the lowest index satisfying the predicate.
pub proof fn lemma_first_record(s: Seq<BroadcastRecordView>, p: spec_fn(BroadcastRecordView) -> bool)
    ensures
        match first_record(s, p) {
            Some(i) => 0 <= i < s.len() && p(s[i]) && forall|j: int| 0 <= j < i ==> !p(#[trigger] s[j]),
            None => forall|j: int| 0 <= j < s.len() ==> !p(#[trigger] s[j]),
        },
    decreases s.len(),
{
    if s.len() > 0 && !p(s[0]) {
        lemma_first_record(s.drop_first(), p);
        assert forall|j: int| 1 <= j < s.len() implies s[j] == s.drop_first()[j - 1] by {}
    }
}

/// A characterisation of the lowest satisfying index gives
/// `first_record`.
pub proof fn lemma_first_record_is(s: Seq<BroadcastRecordView>, p: spec_fn(BroadcastRecordView) -> bool, r: Option<int>)
    requires
        match r {
            Some(i) => 0 <= i < s.len() && p(s[i]) && forall|j: int| 0 <= j < i ==> !p(#[trigger] s[j]),
            None => forall|j: int| 0 <= j < s.len() ==> !p(#[trigger] s[j]),
        },
    ensures
        first_record(s, p) == r,
{
    lemma_first_record(s, p);
    match (first_record(s, p), r) {
        (Some(k), Some(i)) => {
            if k < i {
                assert(!p(s[k]));
            } else if k > i {
                assert(!p(s[i]));
            }
        },
        (Some(k), None) => {
            assert(!p(s[k]));
        },
        (None, Some(i)) => {
            assert(!p(s[i]));
        },
        (None, None) => {},
    }
}

/// The earliest of the records' expiry and retransmission times.
pub open spec fn earliest_deadline(s: Seq<BroadcastRecordView>) -> Option<u64>
    decreases s.len(),
{
    if s.len() == 0 {
        None
    } else {
        let r = s.last();
        let own = match r.next_tx {
            Some(t) => if t.0 < r.expires.0 { t.0 } else { r.expires.0 },
            None => r.expires.0,
        };
        match earliest_deadline(s.drop_last()) {
            Some(m) => Some(if m <= own { m } else { own }),
            None => Some(own),
        }
    }
}

/// Broadcast transaction table holding at most `N` records.
#[derive(Clone, Debug)]
pub struct BroadcastTransactionTable<const N: usize> {
    records: Vec<BroadcastRecord>,
}

impl<const N: usize> View for BroadcastTransactionTable<N> {
    type V = Seq<BroadcastRecordView>;

    closed spec fn view(&self) -> Seq<BroadcastRecordView> {
        record_views(self.records@)
    }
}

impl<const N: usize> BroadcastTransactionTable<N> {
    /// The table holds at most `N` records.
    pub open spec fn wf(&self) -> bool {
        self@.len() <= N
    }

    /// Empty table.
    pub fn new() -> (t: Self)
        ensures
            t@ == Seq::<BroadcastRecordView>::empty(),
            t.wf(),
    {
        let t = BroadcastTransactionTable { records: Vec::new() };
        assert(t@ =~= Seq::<BroadcastRecordView>::empty());
        t
    }

    fn position(&self, source: ShortAddress, sequence: u8) -> (r: Option<usize>)
        ensures
            first_record(self@, is_broadcast_of(source, sequence)) == (match r {
                Some(i) => Some(i as int),
                None => None,
            }),
            r matches Some(i) ==> i < self@.len(),
    {
        let mut i: usize = 0;
        while i < self.records.len()
            invariant
                i <= self@.len(),
                self@.len() == self.records@.len(),
                forall|j: int| 0 <= j < i ==> !is_broadcast_of(source, sequence)(#[trigger] self@[j]),
            decreases self@.len() - i,
        {
            if self.records[i].source == source && self.records[i].sequence == sequence {
                proof {
                    lemma_first_record_is(self@, is_broadcast_of(source, sequence), Some(i as int));
                }
                return Some(i);
            }
            i = i + 1;
        }
        proof {
            lemma_first_record_is(self@, is_broadcast_of(source, sequence), None);
        }
        None
    }

    /// Finds the record for `(source, sequence)`.
    pub fn get(&self, source: ShortAddress, sequence: u8) -> (r: Option<&BroadcastRecord>)
        ensures
            match first_record(self@, is_broadcast_of(source, sequence)) {
                Some(i) => r matches Some(x) && x@ == self@[i],
                None => r is None,
            },
    {
        match self.position(source, sequence) {
            Some(i) => Some(&self.records[i]),
            None => None,
        }
    }

    /// Mutable lookup.
    pub fn get_mut(&mut self, source: ShortAddress, sequence: u8) -> (r: Option<&mut BroadcastRecord>)
        ensures
            match first_record(old(self)@, is_broadcast_of(source, sequence)) {
                Some(i) => r is Some && (*r->0)@ == old(self)@[i] && final(self)@ == old(self)@.update(i, (*final(r->0))@),
                None => r is None && final(self)@ == old(self)@,
            },
    {
        match self.position(source, sequence) {
            Some(i) => {
                proof {
                    lemma_views_update(self.records@, i as int);
                }
                Some(&mut self.records[i])
            },
            None => None,
        }
    }

    /// Marks `neighbor` as having relayed the broadcast `(source,
    /// sequence)`; `false` when no record of it is held.
    pub fn passive_ack(&mut self, source: ShortAddress, sequence: u8, neighbor: ShortAddress) -> (found: bool)
        requires
            old(self).wf(),
        ensures
            final(self).wf(),
            match first_record(old(self)@, is_broadcast_of(source, sequence)) {
                Some(i) => found && final(self)@ == old(self)@.update(
                    i,
                    BroadcastRecordView {
                        awaiting: old(self)@[i].awaiting.filter(other_than(neighbor)),
                        ..old(self)@[i]
                    },
                ),
                None => !found && final(self)@ == old(self)@,
            },
    {
        match self.position(source, sequence) {
            Some(i) => {
                let cur = &self.records[i];
                let mut r = BroadcastRecord {
                    source: cur.source,
                    sequence: cur.sequence,
                    expires: cur.expires,
                    awaiting: cur.awaiting.clone(),
                    retries: cur.retries,
                    next_tx: cur.next_tx,
                    relay_pending: cur.relay_pending,
                };
                assert(r@ == self@[i as int]);
                r.passive_ack(neighbor);
                proof {
                    lemma_views_update(self.records@, i as int);
                }
                self.records.set(i, r);
                true
            },
            None => false,
        }
    }

    /// Sets the retransmission state of the record of the broadcast
    /// `(source, sequence)`; `false` when no record of it is held.
    pub fn set_tx(
        &mut self,
        source: ShortAddress,
        sequence: u8,
        retries: u8,
        next_tx: Option<Instant>,
        relay_pending: bool,
    ) -> (found: bool)
        requires
            old(self).wf(),
        ensures
            final(self).wf(),
            match first_record(old(self)@, is_broadcast_of(source, sequence)) {
                Some(i) => found && final(self)@ == old(self)@.update(
                    i,
                    BroadcastRecordView { retries, next_tx, relay_pending, ..old(self)@[i] },
                ),
                None => !found && final(self)@ == old(self)@,
            },
    {
        match self.position(source, sequence) {
            Some(i) => {
                let cur = &self.records[i];
                let r = BroadcastRecord {
                    source: cur.source,
                    sequence: cur.sequence,
                    expires: cur.expires,
                    awaiting: cur.awaiting.clone(),
                    retries,
                    next_tx,
                    relay_pending,
                };
                proof {
                    lemma_views_update(self.records@, i as int);
                }
                self.records.set(i, r);
                true
            },
            None => false,
        }
    }

    /// Index of the first record expired at `now`.
    fn first_expired(&self, now: Instant) -> (r: Option<usize>)
        ensures
            first_record(self@, expired_at(now)) == (match r {
                Some(i) => Some(i as int),
                None => None,
            }),
            r matches Some(i) ==> i < self@.len(),
    {
        let mut i: usize = 0;
        while i < self.records.len()
            invariant
                i <= self@.len(),
                self@.len() == self.records@.len(),
                forall|j: int| 0 <= j < i ==> !expired_at(now)(#[trigger] self@[j]),
            decreases self@.len() - i,
        {
            if now.0 >= self.records[i].expires.0 {
                proof {
                    lemma_first_record_is(self@, expired_at(now), Some(i as int));
                }
                return Some(i);
            }
            i = i + 1;
        }
        proof {
            lemma_first_record_is(self@, expired_at(now), None);
        }
        None
    }

    /// Inserts a new record, first evicting the first expired one when the
    /// table is full. Returns `None` (dropping the record) when full with
    /// nothing expired.
    pub fn insert(&mut self, record: BroadcastRecord, now: Instant) -> (r: Option<&mut BroadcastRecord>)
        requires
            old(self).wf(),
        ensures
            final(self).wf(),
            old(self)@.len() < N ==> r is Some && (*r->0)@ == record@ && final(self)@ == old(self)@.push((*final(r->0))@),
            old(self)@.len() >= N ==> match first_record(old(self)@, expired_at(now)) {
                Some(v) => r is Some && (*r->0)@ == record@ && final(self)@ == old(self)@.update(v, old(self)@.last()).drop_last().push(
                    (*final(r->0))@,
                ),
                None => r is None && final(self)@ == old(self)@,
            },
    {
        let ghost s0 = self@;
        if self.records.len() >= N {
            match self.first_expired(now) {
                Some(v) => {
                    let _ = self.records.swap_remove(v);
                    proof {
                        assert(self@ =~= s0.update(v as int, s0.last()).drop_last());
                    }
                },
                None => {
                    return None;
                },
            }
        }
        self.records.push(record);
        let last = self.records.len() - 1;
        proof {
            lemma_views_update(self.records@, last as int);
            assert(self.records@.update(last as int, record) =~= self.records@);
        }
        Some(&mut self.records[last])
    }

    /// Removes expired records, keeping the others in order.
    pub fn expire(&mut self, now: Instant)
        ensures
            final(self)@ == old(self)@.filter(|r: BroadcastRecordView| now.0 < r.expires.0),
    {
        let ghost s0 = self@;
        let mut all: Vec<BroadcastRecord> = Vec::new();
        std::mem::swap(&mut all, &mut self.records);
        let mut kept: Vec<BroadcastRecord> = Vec::new();
        let ghost mut i: int = 0;
        while all.len() > 0
            invariant
                0 <= i <= s0.len(),
                record_views(all@) == s0.skip(i),
                record_views(kept@) == s0.take(i).filter(|r: BroadcastRecordView| now.0 < r.expires.0),
            decreases all@.len(),
        {
            let ghost all0 = all@;
            let r = all.remove(0);
            proof {
                assert(record_views(all0).len() == s0.skip(i).len());
                assert(record_views(all0)[0] == all0[0]@);
                assert(s0.skip(i)[0] == s0[i]);
                assert(r@ == s0[i]);
                assert(s0.take(i + 1) =~= s0.take(i).push(s0[i]));
                s0.take(i).lemma_filter_push(r@, |r: BroadcastRecordView| now.0 < r.expires.0);
                assert(record_views(all@) =~= record_views(all0).drop_first());
                assert(s0.skip(i).drop_first() =~= s0.skip(i + 1));
            }
            let ghost k0 = kept@;
            if now.0 < r.expires.0 {
                kept.push(r);
                proof {
                    assert(record_views(kept@) =~= record_views(k0).push(kept@.last()@));
                }
            }
            proof {
                i = i + 1;
            }
        }
        proof {
            assert(s0.skip(i).len() == 0);
            assert(s0.take(i) =~= s0);
        }
        self.records = kept;
    }

    /// The records, in table order.
    pub fn records(&self) -> (v: &[BroadcastRecord])
        ensures
            record_views(v@) == self@,
    {
        self.records.as_slice()
    }

    /// The earliest pending retransmission or expiry time.
    pub fn next_deadline(&self) -> (r: Option<Instant>)
        ensures
            r == (match earliest_deadline(self@) {
                Some(m) => Some(Instant(m)),
                None => None,
            }),
    {
        let mut best: Option<u64> = None;
        let mut i: usize = 0;
        while i < self.records.len()
            invariant
                i <= self@.len(),
                self@.len() == self.records@.len(),
                best == earliest_deadline(self@.take(i as int)),
            decreases self@.len() - i,
        {
            let r = &self.records[i];
            let own = match r.next_tx {
                Some(t) => if t.0 < r.expires.0 {
                    t.0
                } else {
                    r.expires.0
                },
                None => r.expires.0,
            };
            proof {
                assert(self@.take(i + 1).drop_last() =~= self@.take(i as int));
                assert(self@.take(i + 1).last() == self@[i as int]);
            }
            best = match best {
                Some(m) => Some(if m <= own { m } else { own }),
                None => Some(own),
            };
            i = i + 1;
        }
        assert(self@.take(i as int) =~= self@);
        match best {
            Some(m) => Some(Instant(m)),
            None => None,
        }
    }

    /// Number of records.
    pub fn len(&self) -> (n: usize)
        ensures
            n == self@.len(),
    {
        self.records.len()
    }

    /// True when empty.
    pub fn is_empty(&self) -> (b: bool)
        ensures
            b == (self@.len() == 0),
    {
        self.records.len() == 0
    }

    /// Clears the table.
    pub fn clear(&mut self)
        ensures
            final(self)@ == Seq::<BroadcastRecordView>::empty(),
    {
        self.records.clear();
        assert(self@ =~= Seq::<BroadcastRecordView>::empty());
    }
}

/// A sequence holding a record that satisfies `p` has a first one, and
/// it satisfies `p`.
pub proof fn lemma_first_record_found(s: Seq<BroadcastRecordView>, p: spec_fn(BroadcastRecordView) -> bool, k: int)
    requires
        0 <= k < s.len(),
        p(s[k]),
    ensures
        first_record(s, p) matches Some(i) && 0 <= i <= k && p(s[i]),
    decreases s.len(),
{
    if !p(s[0]) {
        lemma_first_record_found(s.drop_first(), p, k - 1);
    }
}

/// Once a record is stored, a lookup of its broadcast (source and
/// sequence number) finds a record of that broadcast: what the duplicate
/// detection of §3.6.6 relies on. A table with room appends the record;
/// a full one stores it in place of an expired record.
pub proof fn lemma_insert_then_found(s: Seq<BroadcastRecordView>, r: BroadcastRecordView, v: int)
    requires
        0 <= v < s.len(),
    ensures
        first_record(s.push(r), is_broadcast_of(r.source, r.sequence)) matches Some(i) && s.push(r)[i].source == r.source
            && s.push(r)[i].sequence == r.sequence,
        first_record(s.update(v, s.last()).drop_last().push(r), is_broadcast_of(r.source, r.sequence)) matches Some(i)
            && s.update(v, s.last()).drop_last().push(r)[i].source == r.source && s.update(v, s.last()).drop_last().push(
            r,
        )[i].sequence == r.sequence,
{
    let t1 = s.push(r);
    lemma_first_record_found(t1, is_broadcast_of(r.source, r.sequence), t1.len() - 1);
    let t2 = s.update(v, s.last()).drop_last().push(r);
    lemma_first_record_found(t2, is_broadcast_of(r.source, r.sequence), t2.len() - 1);
}

} // verus!
