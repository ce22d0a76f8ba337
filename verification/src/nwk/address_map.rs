//! Network address map and stochastic address assignment.
use vstd::prelude::*;

use crate::types::{ExtendedAddress, ShortAddress, FIRST_NON_UNICAST_RAW};

verus! {

/// Outcome of recording an address pair.
#[derive(Clone, Copy, PartialEq, Eq, Debug, Structural)]
pub enum AddressMapUpdate {
    /// Nothing changed.
    Unchanged,
    /// A new pair was recorded.
    Added,
    /// The short address of an existing extended address changed (the
    /// device was re-addressed).
    ShortChanged {
        /// Previous short address.
        old: ShortAddress,
    },
    /// The short address is already bound to a different extended address
    /// (address conflict candidate).
    Conflict {
        /// The other extended address using the same short address.
        other: ExtendedAddress,
    },
    /// The map is full; the pair was not recorded.
    Full,
}

/// An address pair: extended then short.
pub type AddressPair = (ExtendedAddress, ShortAddress);

/// Pairs of every extended address but `ext`.
pub open spec fn not_for(ext: ExtendedAddress) -> spec_fn(AddressPair) -> bool {
    |e: AddressPair| e.0 != ext
}

/// Index of the first pair satisfying `p`.
pub open spec fn first_pair(s: Seq<AddressPair>, p: spec_fn(AddressPair) -> bool) -> Option<int>
    decreases s.len(),
{
    if s.len() == 0 {
        None
    } else if p(s[0]) {
        Some(0)
    } else {
        match first_pair(s.drop_first(), p) {
            Some(i) => Some(i + 1),
            None => None,
        }
    }
}

/// `first_pair` is the lowest index satisfying the predicate.
pub proof fn lemma_first_pair(s: Seq<AddressPair>, p: spec_fn(AddressPair) -> bool)
    ensures
        match first_pair(s, p) {
            Some(i) => 0 <= i < s.len() && p(s[i]) && forall|j: int| 0 <= j < i ==> !p(#[trigger] s[j]),
            None => forall|j: int| 0 <= j < s.len() ==> !p(#[trigger] s[j]),
        },
    decreases s.len(),
{
    if s.len() > 0 && !p(s[0]) {
        lemma_first_pair(s.drop_first(), p);
        assert forall|j: int| 1 <= j < s.len() implies s[j] == s.drop_first()[j - 1] by {}
    }
}

/// A characterisation of the lowest satisfying index gives `first_pair`.
pub proof fn lemma_first_pair_is(s: Seq<AddressPair>, p: spec_fn(AddressPair) -> bool, r: Option<int>)
    requires
        match r {
            Some(i) => 0 <= i < s.len() && p(s[i]) && forall|j: int| 0 <= j < i ==> !p(#[trigger] s[j]),
            None => forall|j: int| 0 <= j < s.len() ==> !p(#[trigger] s[j]),
        },
    ensures
        first_pair(s, p) == r,
{
    lemma_first_pair(s, p);
    match (first_pair(s, p), r) {
        (Some(k), Some(i)) => {
            if k < i {
                assert(!p(s[k]));
            } else if k > i {
                assert(!p(s[i]));
            }
        },
        (Some(k), None) => {
            assert(!p(s[k]));
        },
        (None, Some(i)) => {
            assert(!p(s[i]));
        },
        (None, None) => {},
    }
}

/// The pair names the extended address.
pub open spec fn with_ext(ext: ExtendedAddress) -> spec_fn(AddressPair) -> bool {
    |e: AddressPair| e.0 == ext
}

/// The pair names the short address.
pub open spec fn with_short(short: ShortAddress) -> spec_fn(AddressPair) -> bool {
    |e: AddressPair| e.1 == short
}

/// The short address recorded first for `ext`.
pub open spec fn spec_short_for(s: Seq<AddressPair>, ext: ExtendedAddress) -> Option<ShortAddress> {
    match first_pair(s, with_ext(ext)) {
        Some(i) => Some(s[i].1),
        None => None,
    }
}

/// The extended address recorded first for `short`.
pub open spec fn spec_extended_for(s: Seq<AddressPair>, short: ShortAddress) -> Option<ExtendedAddress> {
    match first_pair(s, with_short(short)) {
        Some(i) => Some(s[i].0),
        None => None,
    }
}

/// The pairs and the reported outcome after recording `(ext, short)` in a
/// map holding `s` with capacity `cap`.
pub open spec fn spec_record(s: Seq<AddressPair>, ext: ExtendedAddress, short: ShortAddress, cap: int) -> (
    Seq<AddressPair>,
    AddressMapUpdate,
) {
    match spec_extended_for(s, short) {
        Some(other) if other != ext => (s, AddressMapUpdate::Conflict { other }),
        _ => match first_pair(s, with_ext(ext)) {
            Some(j) => if s[j].1 == short {
                (s, AddressMapUpdate::Unchanged)
            } else {
                (s.update(j, (ext, short)), AddressMapUpdate::ShortChanged { old: s[j].1 })
            },
            None => if s.len() < cap {
                (s.push((ext, short)), AddressMapUpdate::Added)
            } else {
                (s, AddressMapUpdate::Full)
            },
        },
    }
}

/// Map between extended and network addresses holding at most `N` pairs.
#[derive(Clone, Debug)]
pub struct AddressMap<const N: usize> {
    entries: Vec<AddressPair>,
}

impl<const N: usize> View for AddressMap<N> {
    type V = Seq<AddressPair>;

    closed spec fn view(&self) -> Seq<AddressPair> {
        self.entries@
    }
}

impl<const N: usize> AddressMap<N> {
    /// The map holds at most `N` pairs.
    pub open spec fn wf(&self) -> bool {
        self@.len() <= N
    }

    /// Empty map.
    pub fn new() -> (m: Self)
        ensures
            m@ == Seq::<AddressPair>::empty(),
            m.wf(),
    {
        AddressMap { entries: Vec::new() }
    }

    fn position(&self, by_ext: bool, ext: ExtendedAddress, short: ShortAddress) -> (r: Option<usize>)
        ensures
            by_ext ==> first_pair(self@, with_ext(ext)) == (match r {
                Some(i) => Some(i as int),
                None => None,
            }),
            !by_ext ==> first_pair(self@, with_short(short)) == (match r {
                Some(i) => Some(i as int),
                None => None,
            }),
    {
        let ghost p = if by_ext { with_ext(ext) } else { with_short(short) };
        let mut i: usize = 0;
        while i < self.entries.len()
            invariant
                i <= self@.len(),
                p == (if by_ext { with_ext(ext) } else { with_short(short) }),
                forall|j: int| 0 <= j < i ==> !p(#[trigger] self@[j]),
            decreases self@.len() - i,
        {
            let e = self.entries[i];
            if (by_ext && e.0 == ext) || (!by_ext && e.1 == short) {
                proof {
                    lemma_first_pair_is(self@, p, Some(i as int));
                }
                return Some(i);
            }
            i = i + 1;
        }
        proof {
            lemma_first_pair_is(self@, p, None);
        }
        None
    }

    /// Short address for `ext`.
    pub fn short_for(&self, ext: ExtendedAddress) -> (r: Option<ShortAddress>)
        ensures
            r == spec_short_for(self@, ext),
    {
        proof {
            lemma_first_pair(self@, with_ext(ext));
        }
        match self.position(true, ext, ShortAddress(0)) {
            Some(i) => Some(self.entries[i].1),
            None => None,
        }
    }

    /// Extended address for `short`.
    pub fn extended_for(&self, short: ShortAddress) -> (r: Option<ExtendedAddress>)
        ensures
            r == spec_extended_for(self@, short),
    {
        proof {
            lemma_first_pair(self@, with_short(short));
        }
        match self.position(false, ExtendedAddress(0), short) {
            Some(i) => Some(self.entries[i].0),
            None => None,
        }
    }

    /// Records the pair and reports what changed. Conflicts are reported
    /// but the map keeps the previous binding of the short address so the
    /// caller can resolve them.
    pub fn record(&mut self, ext: ExtendedAddress, short: ShortAddress) -> (u: AddressMapUpdate)
        requires
            old(self).wf(),
        ensures
            final(self).wf(),
            (final(self)@, u) == spec_record(old(self)@, ext, short, N as int),
    {
        if let Some(other) = self.extended_for(short) {
            if other != ext {
                return AddressMapUpdate::Conflict { other };
            }
        }
        proof {
            lemma_first_pair(self@, with_ext(ext));
        }
        match self.position(true, ext, short) {
            Some(j) => {
                let e = self.entries[j];
                if e.1 == short {
                    return AddressMapUpdate::Unchanged;
                }
                self.entries.set(j, (ext, short));
                AddressMapUpdate::ShortChanged { old: e.1 }
            },
            None => {
                if self.entries.len() < N {
                    self.entries.push((ext, short));
                    AddressMapUpdate::Added
                } else {
                    AddressMapUpdate::Full
                }
            },
        }
    }

    /// Removes every pair for `ext`.
    pub fn remove_extended(&mut self, ext: ExtendedAddress)
        ensures
            final(self)@ == old(self)@.filter(not_for(ext)),
    {
        let ghost s0 = self@;
        let mut kept: Vec<AddressPair> = Vec::new();
        let mut i: usize = 0;
        while i < self.entries.len()
            invariant
                self@ == s0,
                i <= s0.len(),
                kept@ == s0.take(i as int).filter(not_for(ext)),
            decreases s0.len() - i,
        {
            let e = self.entries[i];
            proof {
                assert(s0.take(i + 1) =~= s0.take(i as int).push(e));
                s0.take(i as int).lemma_filter_push(e, not_for(ext));
            }
            if e.0 != ext {
                kept.push(e);
            }
            i = i + 1;
        }
        assert(s0.take(i as int) =~= s0);
        self.entries = kept;
    }

    /// Removes every pair for `short`.
    pub fn remove_short(&mut self, short: ShortAddress)
        ensures
            final(self)@ == old(self)@.filter(|e: AddressPair| e.1 != short),
    {
        let ghost s0 = self@;
        let mut kept: Vec<AddressPair> = Vec::new();
        let mut i: usize = 0;
        while i < self.entries.len()
            invariant
                self@ == s0,
                i <= s0.len(),
                kept@ == s0.take(i as int).filter(|e: AddressPair| e.1 != short),
            decreases s0.len() - i,
        {
            let e = self.entries[i];
            proof {
                assert(s0.take(i + 1) =~= s0.take(i as int).push(e));
                s0.take(i as int).lemma_filter_push(e, |e: AddressPair| e.1 != short);
            }
            if e.1 != short {
                kept.push(e);
            }
            i = i + 1;
        }
        assert(s0.take(i as int) =~= s0);
        self.entries = kept;
    }

    /// True when `short` is recorded for any device.
    pub fn contains_short(&self, short: ShortAddress) -> (b: bool)
        ensures
            b == (exists|i: int| 0 <= i < self@.len() && (#[trigger] self@[i]).1 == short),
    {
        proof {
            lemma_first_pair(self@, with_short(short));
        }
        match self.position(false, ExtendedAddress(0), short) {
            Some(i) => {
                assert(self@[i as int].1 == short);
                true
            },
            None => {
                assert(forall|i: int| 0 <= i < self@.len() ==> !with_short(short)(#[trigger] self@[i]));
                false
            },
        }
    }

    /// The pairs, in order.
    pub fn entries(&self) -> (v: &[AddressPair])
        ensures
            v@ == self@,
    {
        self.entries.as_slice()
    }

    /// Number of pairs.
    pub fn len(&self) -> (n: usize)
        ensures
            n == self@.len(),
    {
        self.entries.len()
    }

    /// True when empty.
    pub fn is_empty(&self) -> (b: bool)
        ensures
            b == (self@.len() == 0),
    {
        self.entries.len() == 0
    }

    /// Clears the map.
    pub fn clear(&mut self)
        ensures
            final(self)@ == Seq::<AddressPair>::empty(),
    {
        self.entries.clear();
    }
}

/// After recording a pair that is not refused, looking the extended
/// address up gives the recorded short address.
pub proof fn lemma_record_then_lookup(s: Seq<AddressPair>, ext: ExtendedAddress, short: ShortAddress, cap: int)
    requires
        !(spec_record(s, ext, short, cap).1 is Conflict),
        !(spec_record(s, ext, short, cap).1 is Full),
    ensures
        spec_short_for(spec_record(s, ext, short, cap).0, ext) == Some(short),
{
    let (t, u) = spec_record(s, ext, short, cap);
    lemma_first_pair(s, with_ext(ext));
    match first_pair(s, with_ext(ext)) {
        Some(j) => {
            if s[j].1 != short {
                assert forall|k: int| 0 <= k < j implies !with_ext(ext)(#[trigger] t[k]) by {
                    assert(t[k] == s[k]);
                }
                lemma_first_pair_is(t, with_ext(ext), Some(j));
            }
        },
        None => {
            assert forall|k: int| 0 <= k < s.len() implies !with_ext(ext)(#[trigger] t[k]) by {
                assert(t[k] == s[k]);
            }
            lemma_first_pair_is(t, with_ext(ext), Some(s.len() as int));
        },
    }
}

/// A conflict leaves the map unchanged and names the extended address
/// the short address is bound to.
pub proof fn lemma_record_conflict_keeps_binding(s: Seq<AddressPair>, ext: ExtendedAddress, short: ShortAddress, cap: int)
    requires
        spec_record(s, ext, short, cap).1 is Conflict,
    ensures
        spec_record(s, ext, short, cap).0 == s,
        spec_extended_for(s, short) == Some(spec_record(s, ext, short, cap).1->other),
        spec_record(s, ext, short, cap).1->other != ext,
{
}

/// A draw is acceptable as a new network address: unicast and not the
/// coordinator's 0x0000.
pub open spec fn assignable(v: u16) -> bool {
    v != 0 && v < FIRST_NON_UNICAST_RAW
}

/// Picks a random unicast network address that `in_use` does not claim:
/// never `0x0000`, never a reserved or broadcast value. `draws` are the
/// random values to try, in order; at most 64 are tried.
pub fn allocate_stochastic<F: Fn(ShortAddress) -> bool>(draws: &[u16], in_use: F) -> (r: Option<ShortAddress>)
    requires
        forall|s: ShortAddress| in_use.requires((s,)),
    ensures
        ({
            let n = if draws@.len() < 64 { draws@.len() as int } else { 64 };
            match r {
                Some(a) => exists|k: int|
                    0 <= k < n && draws@[k] == a.0 && assignable(a.0) && in_use.ensures((a,), false) && forall|j: int|
                        0 <= j < k ==> (!assignable(#[trigger] draws@[j]) || in_use.ensures((ShortAddress(draws@[j]),), true)),
                None => forall|j: int|
                    0 <= j < n ==> (!assignable(#[trigger] draws@[j]) || in_use.ensures((ShortAddress(draws@[j]),), true)),
            }
        }),
{
    let n: usize = if draws.len() < 64 { draws.len() } else { 64 };
    let mut i: usize = 0;
    while i < n
        invariant
            i <= n <= draws@.len(),
            n == (if draws@.len() < 64 { draws@.len() as int } else { 64 }),
            forall|s: ShortAddress| in_use.requires((s,)),
            forall|j: int|
                0 <= j < i ==> (!assignable(#[trigger] draws@[j]) || in_use.ensures((ShortAddress(draws@[j]),), true)),
        decreases n - i,
    {
        let candidate = ShortAddress(draws[i]);
        if candidate.0 != 0 && candidate.0 < FIRST_NON_UNICAST_RAW {
            let used = in_use(candidate);
            if !used {
                return Some(candidate);
            }
        }
        i = i + 1;
    }
    None
}

} // verus!
