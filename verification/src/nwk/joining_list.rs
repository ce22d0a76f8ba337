//! The MAC joining policy and IEEE joining list: which devices a router or
//! coordinator answers association requests for. Every change of the
//! policy or the list bumps the update identifier.
use vstd::prelude::*;

use crate::types::ExtendedAddress;

verus! {

/// Joining policy values.
#[derive(Clone, Copy, PartialEq, Eq, Debug, Structural)]
pub enum JoiningPolicy {
    /// Any device may join.
    AllJoin,
    /// Only devices on the IEEE joining list may join.
    IeeeListJoin,
    /// No device may join.
    NoJoin,
}

impl Default for JoiningPolicy {
    fn default() -> (p: Self)
        ensures
            p == JoiningPolicy::AllJoin,
    {
        JoiningPolicy::AllJoin
    }
}

impl JoiningPolicy {
    /// The ZDO enumeration value of a policy.
    pub open spec fn spec_raw(self) -> u8 {
        match self {
            JoiningPolicy::AllJoin => 0x00,
            JoiningPolicy::IeeeListJoin => 0x01,
            JoiningPolicy::NoJoin => 0x02,
        }
    }

    /// The ZDO enumeration value.
    pub fn raw(self) -> (v: u8)
        ensures
            v == self.spec_raw(),
    {
        match self {
            JoiningPolicy::AllJoin => 0x00,
            JoiningPolicy::IeeeListJoin => 0x01,
            JoiningPolicy::NoJoin => 0x02,
        }
    }

    /// From the ZDO enumeration value; `None` for undefined values.
    pub fn from_raw(v: u8) -> (p: Option<JoiningPolicy>)
        ensures
            v <= 2 ==> (p matches Some(q) && q.spec_raw() == v),
            v > 2 ==> p is None,
    {
        match v {
            0x00 => Some(JoiningPolicy::AllJoin),
            0x01 => Some(JoiningPolicy::IeeeListJoin),
            0x02 => Some(JoiningPolicy::NoJoin),
            _ => None,
        }
    }
}

/// Reading back the value of a policy gives the policy.
pub proof fn lemma_joining_policy_raw(p: JoiningPolicy)
    ensures
        p.spec_raw() <= 2,
        forall|q: JoiningPolicy| q.spec_raw() == p.spec_raw() ==> q == p,
{
}

/// `v + 1`, wrapping.
pub open spec fn wrapping_inc(v: u8) -> u8 {
    if v == 255 { 0 } else { (v + 1) as u8 }
}

/// What applying list entries from `start` on does to `list`: each entry
/// replaces the address at its index, or is appended at the end while
/// there is room; an entry past the end, or one that does not fit, stops
/// the application. The result is the list, whether anything changed, and
/// whether every entry was applied.
pub open spec fn apply_from(
    list: Seq<ExtendedAddress>,
    changed: bool,
    start: int,
    entries: Seq<ExtendedAddress>,
    i: int,
    cap: int,
) -> (Seq<ExtendedAddress>, bool, bool)
    decreases entries.len() - i,
{
    if i < 0 || i >= entries.len() {
        (list, changed, true)
    } else {
        let index = start + i;
        let e = entries[i];
        if index < list.len() {
            if list[index] != e {
                apply_from(list.update(index, e), true, start, entries, i + 1, cap)
            } else {
                apply_from(list, changed, start, entries, i + 1, cap)
            }
        } else if index == list.len() && list.len() < cap {
            apply_from(list.push(e), true, start, entries, i + 1, cap)
        } else {
            (list, changed, false)
        }
    }
}

/// The policy with its list and update id.
#[derive(Clone, Debug)]
pub struct JoiningList<const N: usize> {
    /// Current policy.
    pub policy: JoiningPolicy,
    /// Incremented on every change, wrapping.
    pub update_id: u8,
    list: Vec<ExtendedAddress>,
}

impl<const N: usize> View for JoiningList<N> {
    type V = Seq<ExtendedAddress>;

    closed spec fn view(&self) -> Seq<ExtendedAddress> {
        self.list@
    }
}

impl<const N: usize> JoiningList<N> {
    /// The policy.
    pub closed spec fn spec_policy(&self) -> JoiningPolicy {
        self.policy
    }

    /// The update identifier.
    pub closed spec fn spec_update_id(&self) -> u8 {
        self.update_id
    }

    /// The list never holds more than `N` addresses.
    pub open spec fn wf(&self) -> bool {
        self@.len() <= N
    }

    /// Whether `device` passes the policy.
    pub open spec fn spec_allows(&self, device: ExtendedAddress) -> bool {
        match self.spec_policy() {
            JoiningPolicy::AllJoin => true,
            JoiningPolicy::IeeeListJoin => self@.contains(device),
            JoiningPolicy::NoJoin => false,
        }
    }

    /// ALL_JOIN with an empty list.
    pub fn new() -> (j: Self)
        ensures
            j.wf(),
            j.spec_policy() == JoiningPolicy::AllJoin,
            j.spec_update_id() == 0,
            j@ == Seq::<ExtendedAddress>::empty(),
    {
        JoiningList { policy: JoiningPolicy::AllJoin, update_id: 0, list: Vec::new() }
    }

    /// The addresses.
    pub fn entries(&self) -> (v: &[ExtendedAddress])
        ensures
            v@ == self@,
    {
        self.list.as_slice()
    }

    fn contains(&self, device: ExtendedAddress) -> (b: bool)
        ensures
            b == self@.contains(device),
    {
        let mut i: usize = 0;
        while i < self.list.len()
            invariant
                i <= self@.len(),
                forall|j: int| 0 <= j < i ==> self@[j] != device,
            decreases self@.len() - i,
        {
            if self.list[i] == device {
                return true;
            }
            i = i + 1;
        }
        false
    }

    /// Whether `device` passes the policy.
    pub fn allows(&self, device: ExtendedAddress) -> (b: bool)
        ensures
            b == self.spec_allows(device),
    {
        match self.policy {
            JoiningPolicy::AllJoin => true,
            JoiningPolicy::IeeeListJoin => self.contains(device),
            JoiningPolicy::NoJoin => false,
        }
    }

    /// Sets the policy; a change bumps the update id.
    pub fn set_policy(&mut self, policy: JoiningPolicy)
        ensures
            final(self)@ == old(self)@,
            final(self).spec_policy() == policy,
            final(self).spec_update_id() == if old(self).spec_policy() != policy {
                wrapping_inc(old(self).spec_update_id())
            } else {
                old(self).spec_update_id()
            },
    {
        if self.policy != policy {
            self.policy = policy;
            self.update_id = self.update_id.wrapping_add(1);
        }
    }

    /// Clears the list; clearing a non-empty list bumps the update id.
    pub fn clear(&mut self)
        ensures
            final(self)@ == Seq::<ExtendedAddress>::empty(),
            final(self).spec_policy() == old(self).spec_policy(),
            final(self).spec_update_id() == if old(self)@.len() > 0 {
                wrapping_inc(old(self).spec_update_id())
            } else {
                old(self).spec_update_id()
            },
    {
        if self.list.len() > 0 {
            self.list.clear();
            self.update_id = self.update_id.wrapping_add(1);
        }
    }

    /// Applies a joining list response: the policy, then the entries from
    /// `start_index` (a total of 0 clears the list). `false` when an entry
    /// lands past the end of the list or does not fit; the entries before
    /// it stay applied. Whenever the list changed, the update id is bumped
    /// once, whatever the result.
    pub fn apply(&mut self, policy: JoiningPolicy, total: u8, start_index: u8, entries: &[ExtendedAddress]) -> (ok: bool)
        requires
            old(self).wf(),
            entries@.len() <= usize::MAX - 256,
        ensures
            final(self).wf(),
            final(self).spec_policy() == policy,
            ({
                let id1 = if old(self).spec_policy() != policy {
                    wrapping_inc(old(self).spec_update_id())
                } else {
                    old(self).spec_update_id()
                };
                if total == 0 {
                    &&& ok
                    &&& final(self)@ == Seq::<ExtendedAddress>::empty()
                    &&& final(self).spec_update_id() == if old(self)@.len() > 0 { wrapping_inc(id1) } else { id1 }
                } else {
                    let (l, changed, done) = apply_from(old(self)@, false, start_index as int, entries@, 0, N as int);
                    &&& ok == done
                    &&& final(self)@ == l
                    &&& final(self).spec_update_id() == if changed { wrapping_inc(id1) } else { id1 }
                }
            }),
    {
        self.set_policy(policy);
        if total == 0 {
            self.clear();
            return true;
        }
        let ghost l0 = self@;
        let ghost id1 = self.update_id;
        let mut changed = false;
        let mut i: usize = 0;
        while i < entries.len()
            invariant
                i <= entries@.len(),
                self@.len() <= N,
                self.policy == policy,
                self.update_id == id1,
                entries@.len() <= usize::MAX - 256,
                total != 0,
                l0 == old(self)@,
                id1 == if old(self).spec_policy() != policy {
                    wrapping_inc(old(self).spec_update_id())
                } else {
                    old(self).spec_update_id()
                },
                apply_from(l0, false, start_index as int, entries@, 0, N as int) == apply_from(
                    self@,
                    changed,
                    start_index as int,
                    entries@,
                    i as int,
                    N as int,
                ),
            decreases entries@.len() - i,
        {
            let index = start_index as usize + i;
            let e = entries[i];
            if index < self.list.len() {
                if self.list[index] != e {
                    self.list.set(index, e);
                    changed = true;
                }
            } else if index == self.list.len() {
                if self.list.len() >= N {
                    assert(apply_from(self@, changed, start_index as int, entries@, i as int, N as int) == (
                    self@, changed, false));
                    if changed {
                        self.update_id = self.update_id.wrapping_add(1);
                    }
                    return false;
                }
                self.list.push(e);
                changed = true;
            } else {
                assert(apply_from(self@, changed, start_index as int, entries@, i as int, N as int) == (
                self@, changed, false));
                if changed {
                    self.update_id = self.update_id.wrapping_add(1);
                }
                return false;
            }
            i = i + 1;
        }
        if changed {
            self.update_id = self.update_id.wrapping_add(1);
        }
        true
    }

    /// Adds an address; an address already listed is accepted unchanged,
    /// a full list refuses. A new address bumps the update id.
    pub fn add(&mut self, device: ExtendedAddress) -> (ok: bool)
        requires
            old(self).wf(),
        ensures
            final(self).wf(),
            final(self).spec_policy() == old(self).spec_policy(),
            old(self)@.contains(device) ==> ok && final(self)@ == old(self)@ && final(self).spec_update_id()
                == old(self).spec_update_id(),
            !old(self)@.contains(device) && old(self)@.len() >= N ==> !ok && final(self)@ == old(self)@
                && final(self).spec_update_id() == old(self).spec_update_id(),
            !old(self)@.contains(device) && old(self)@.len() < N ==> ok && final(self)@ == old(self)@.push(device)
                && final(self).spec_update_id() == wrapping_inc(old(self).spec_update_id()),
    {
        if self.contains(device) {
            return true;
        }
        if self.list.len() >= N {
            return false;
        }
        self.list.push(device);
        self.update_id = self.update_id.wrapping_add(1);
        true
    }

    /// Removes every occurrence of an address; a removal bumps the update
    /// id.
    pub fn remove(&mut self, device: ExtendedAddress) -> (removed: bool)
        ensures
            final(self)@ == old(self)@.filter(|d: ExtendedAddress| d != device),
            final(self).spec_policy() == old(self).spec_policy(),
            removed == old(self)@.contains(device),
            final(self).spec_update_id() == if removed {
                wrapping_inc(old(self).spec_update_id())
            } else {
                old(self).spec_update_id()
            },
    {
        let ghost s0 = self@;
        let mut kept: Vec<ExtendedAddress> = Vec::new();
        let mut found = false;
        let mut i: usize = 0;
        while i < self.list.len()
            invariant
                self@ == s0,
                i <= s0.len(),
                kept@ == s0.take(i as int).filter(|d: ExtendedAddress| d != device),
                found == s0.take(i as int).contains(device),
            decreases s0.len() - i,
        {
            let d = self.list[i];
            proof {
                assert(s0.take(i + 1) =~= s0.take(i as int).push(d));
                s0.take(i as int).lemma_filter_push(d, |d: ExtendedAddress| d != device);
                if d == device {
                    assert(s0.take(i + 1)[i as int] == device);
                } else if s0.take(i + 1).contains(device) {
                    let k = choose|k: int| 0 <= k < i + 1 && #[trigger] s0.take(i + 1)[k] == device;
                    assert(s0.take(i as int)[k] == device);
                }
                if s0.take(i as int).contains(device) {
                    let k = choose|k: int| 0 <= k < i && #[trigger] s0.take(i as int)[k] == device;
                    assert(s0.take(i + 1)[k] == device);
                }
            }
            if d != device {
                kept.push(d);
            } else {
                found = true;
            }
            i = i + 1;
        }
        assert(s0.take(i as int) =~= s0);
        self.list = kept;
        if found {
            self.update_id = self.update_id.wrapping_add(1);
        }
        found
    }
}

/// The joining policy values: all join 0x00, IEEE list join 0x01, no
/// join 0x02.
pub proof fn lemma_joining_policy_wire_values()
    ensures
        JoiningPolicy::AllJoin.spec_raw() == 0x00,
        JoiningPolicy::IeeeListJoin.spec_raw() == 0x01,
        JoiningPolicy::NoJoin.spec_raw() == 0x02,
{
}

} // verus!
