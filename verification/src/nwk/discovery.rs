//! Discovery table and parent ranking.
use vstd::prelude::*;

use crate::types::{Channel, ChannelPage, ExtendedAddress, PanId, ShortAddress};

verus! {

/// Maximum beacon appendix bytes retained per candidate.
pub const MAX_APPENDIX: usize = 24;

/// The Router Information TLV bitmask a beacon appendix may carry.
#[derive(Clone, Copy, PartialEq, Eq, Debug, Default, Structural)]
pub struct RouterInformation(pub u16);

impl RouterInformation {
    /// The router has connectivity to the hub (Trust Center).
    pub const HUB_CONNECTIVITY: u16 = 0x0001;
    /// The router has been up for a long time.
    pub const LONG_UPTIME: u16 = 0x0002;
    /// The router is a preferred parent.
    pub const PREFERRED_PARENT: u16 = 0x0004;
    /// The router has battery backup.
    pub const BATTERY_BACKUP: u16 = 0x0008;
    /// The router answers Enhanced Beacon Requests.
    pub const ENHANCED_BEACON_REQUEST: u16 = 0x0010;
    /// The router accepts MAC data poll keepalives.
    pub const MAC_DATA_POLL_KEEPALIVE: u16 = 0x0020;
    /// The router accepts end device keepalives.
    pub const END_DEVICE_KEEPALIVE: u16 = 0x0040;
    /// The router supports power negotiation.
    pub const POWER_NEGOTIATION: u16 = 0x0080;

    /// Hub connectivity bit.
    pub fn hub_connectivity(self) -> (b: bool)
        ensures
            b == (self.0 & 0x0001 != 0),
    {
        self.0 & Self::HUB_CONNECTIVITY != 0
    }

    /// Long uptime bit.
    pub fn long_uptime(self) -> (b: bool)
        ensures
            b == (self.0 & 0x0002 != 0),
    {
        self.0 & Self::LONG_UPTIME != 0
    }

    /// Preferred parent bit.
    pub fn preferred_parent(self) -> (b: bool)
        ensures
            b == (self.0 & 0x0004 != 0),
    {
        self.0 & Self::PREFERRED_PARENT != 0
    }
}

/// A potential parent or network learnt from a beacon.
#[derive(Clone, Debug, PartialEq, Eq)]
pub struct Candidate {
    /// Extended PAN identifier.
    pub extended_pan_id: ExtendedAddress,
    /// PAN identifier.
    pub pan_id: PanId,
    /// Channel page.
    pub page: ChannelPage,
    /// Logical channel.
    pub channel: Channel,
    /// Short address of the potential parent.
    pub short: ShortAddress,
    /// Extended address of the potential parent, when known.
    pub extended: Option<ExtendedAddress>,
    /// LQA/LQI of the beacon.
    pub lqa: u8,
    /// `nwkUpdateId` advertised.
    pub update_id: u8,
    /// Router capacity advertised.
    pub router_capacity: bool,
    /// End device capacity advertised.
    pub end_device_capacity: bool,
    /// Association permit from the MAC superframe specification.
    pub permit_joining: bool,
    /// The beacon source is the PAN coordinator.
    pub pan_coordinator: bool,
    /// Router Information TLV from the beacon appendix, if any.
    pub router_info: Option<RouterInformation>,
    /// The beacon carried an R23 appendix.
    pub r23: bool,
    /// Raw beacon appendix bytes (at most [`MAX_APPENDIX`]).
    pub appendix: Vec<u8>,
    /// Number of join attempts already made to this candidate.
    pub attempts: u8,
}

/// The fields of a candidate that ranking and filtering read.
pub struct CandidateView {
    /// Extended PAN identifier.
    pub extended_pan_id: ExtendedAddress,
    /// PAN identifier.
    pub pan_id: PanId,
    /// Channel page.
    pub page: ChannelPage,
    /// Logical channel.
    pub channel: Channel,
    /// Short address.
    pub short: ShortAddress,
    /// Extended address.
    pub extended: Option<ExtendedAddress>,
    /// LQA.
    pub lqa: u8,
    /// Update id.
    pub update_id: u8,
    /// Router capacity.
    pub router_capacity: bool,
    /// End device capacity.
    pub end_device_capacity: bool,
    /// Association permit.
    pub permit_joining: bool,
    /// PAN coordinator.
    pub pan_coordinator: bool,
    /// Router Information.
    pub router_info: Option<RouterInformation>,
    /// R23 appendix present.
    pub r23: bool,
    /// Appendix octets.
    pub appendix: Seq<u8>,
    /// Join attempts.
    pub attempts: u8,
}

impl View for Candidate {
    type V = CandidateView;

    open spec fn view(&self) -> CandidateView {
        CandidateView {
            extended_pan_id: self.extended_pan_id,
            pan_id: self.pan_id,
            page: self.page,
            channel: self.channel,
            short: self.short,
            extended: self.extended,
            lqa: self.lqa,
            update_id: self.update_id,
            router_capacity: self.router_capacity,
            end_device_capacity: self.end_device_capacity,
            permit_joining: self.permit_joining,
            pan_coordinator: self.pan_coordinator,
            router_info: self.router_info,
            r23: self.r23,
            appendix: self.appendix@,
            attempts: self.attempts,
        }
    }
}

/// 1 for true, 0 for false.
pub open spec fn b2i(b: bool) -> int {
    if b { 1 } else { 0 }
}

impl CandidateView {
    /// Ranking key: higher is better. Hub connectivity, then preferred
    /// parent, then long uptime, then the newest update id (the distance
    /// ahead of `current_update_id`, 0..=127 counting as newer), then the
    /// current parent, then LQA.
    pub open spec fn spec_rank(self, current_update_id: u8, current_parent: Option<ShortAddress>) -> int {
        let bits = match self.router_info {
            Some(r) => r.0,
            None => 0,
        };
        let delta = if self.update_id >= current_update_id {
            self.update_id - current_update_id
        } else {
            self.update_id + 256 - current_update_id
        };
        let newest = if delta < 0x80 { delta } else { 0 };
        let is_parent = current_parent == Some(self.short);
        b2i(bits & 0x0001 != 0) * 0x1000_0000 + b2i(bits & 0x0004 != 0) * 0x0800_0000 + b2i(bits & 0x0002 != 0)
            * 0x0400_0000 + newest * 0x0004_0000 + b2i(is_parent) * 0x0002_0000 + self.lqa
    }
}

/// The router information bit `mask` of a candidate (none without router
/// information).
pub open spec fn router_info_bit(c: CandidateView, mask: u16) -> bool {
    c.router_info matches Some(r) && r.0 & mask != 0
}

/// How many update ids ahead of `current` a candidate's update id is,
/// modulo 256; 128 or more ahead counts as not newer (0).
pub open spec fn newer_by(update_id: u8, current: u8) -> int {
    let d = (update_id as int - current as int) % 256;
    if d < 128 { d } else { 0 }
}

/// Ranking is lexicographic: hub connectivity (bit 0x0001) outweighs
/// everything after it, then preferred parent (0x0004), then long uptime
/// (0x0002), then how much newer the update id is, then being the current
/// parent, then LQA; candidates equal in all of these rank equal.
pub proof fn lemma_rank_order(a: CandidateView, b: CandidateView, uid: u8, parent: Option<ShortAddress>)
    ensures
        ({
            let ra = a.spec_rank(uid, parent);
            let rb = b.spec_rank(uid, parent);
            let hub = router_info_bit(a, 0x0001) == router_info_bit(b, 0x0001);
            let pref = router_info_bit(a, 0x0004) == router_info_bit(b, 0x0004);
            let up = router_info_bit(a, 0x0002) == router_info_bit(b, 0x0002);
            let new = newer_by(a.update_id, uid) == newer_by(b.update_id, uid);
            let par = (parent == Some(a.short)) == (parent == Some(b.short));
            &&& router_info_bit(a, 0x0001) && !router_info_bit(b, 0x0001) ==> ra > rb
            &&& hub && router_info_bit(a, 0x0004) && !router_info_bit(b, 0x0004) ==> ra > rb
            &&& hub && pref && router_info_bit(a, 0x0002) && !router_info_bit(b, 0x0002) ==> ra > rb
            &&& hub && pref && up && newer_by(a.update_id, uid) > newer_by(b.update_id, uid) ==> ra > rb
            &&& hub && pref && up && new && parent == Some(a.short) && parent != Some(b.short) ==> ra > rb
            &&& hub && pref && up && new && par && a.lqa > b.lqa ==> ra > rb
            &&& hub && pref && up && new && par && a.lqa == b.lqa ==> ra == rb
        }),
{
    let da = if a.update_id >= uid { a.update_id - uid } else { a.update_id + 256 - uid };
    let db = if b.update_id >= uid { b.update_id - uid } else { b.update_id + 256 - uid };
    assert(da == (a.update_id as int - uid as int) % 256) by (nonlinear_arith)
        requires
            da == (if a.update_id >= uid { a.update_id - uid } else { a.update_id + 256 - uid }),
    ;
    assert(db == (b.update_id as int - uid as int) % 256) by (nonlinear_arith)
        requires
            db == (if b.update_id >= uid { b.update_id - uid } else { b.update_id + 256 - uid }),
    ;
    crate::codec::lemma_wire_bits(0, 0, 0, 0, 0, 0, 0, 0, 0, 0, 0, 0, 0);
    let ba = match a.router_info {
        Some(r) => r.0,
        None => 0,
    };
    let bb = match b.router_info {
        Some(r) => r.0,
        None => 0,
    };
    assert(router_info_bit(a, 0x0001) == (ba & 0x0001 != 0));
    assert(router_info_bit(a, 0x0002) == (ba & 0x0002 != 0));
    assert(router_info_bit(a, 0x0004) == (ba & 0x0004 != 0));
    assert(router_info_bit(b, 0x0001) == (bb & 0x0001 != 0));
    assert(router_info_bit(b, 0x0002) == (bb & 0x0002 != 0));
    assert(router_info_bit(b, 0x0004) == (bb & 0x0004 != 0));
}

impl Candidate {
    /// Ranking key: higher is better. Hub connectivity, then preferred
    /// parent, then long uptime, then the newest update id, then the
    /// current parent, then LQA.
    pub fn rank(&self, current_update_id: u8, current_parent: Option<ShortAddress>) -> (r: u32)
        ensures
            r == self@.spec_rank(current_update_id, current_parent),
    {
        let ri = match self.router_info {
            Some(r) => r,
            None => RouterInformation(0),
        };
        let hub: u32 = if ri.hub_connectivity() { 1 } else { 0 };
        let preferred: u32 = if ri.preferred_parent() { 1 } else { 0 };
        let uptime: u32 = if ri.long_uptime() { 1 } else { 0 };
        let delta: u8 = self.update_id.wrapping_sub(current_update_id);
        let newest: u32 = if delta < 0x80 { delta as u32 } else { 0 };
        let is_parent: u32 = match current_parent {
            Some(p) => if p == self.short {
                1
            } else {
                0
            },
            None => 0,
        };
        hub * 0x1000_0000 + preferred * 0x0800_0000 + uptime * 0x0400_0000 + newest * 0x0004_0000 + is_parent
            * 0x0002_0000 + self.lqa as u32
    }
}

/// The candidate is the same parent: same PAN, channel and short address.
pub open spec fn same_parent(a: CandidateView, b: CandidateView) -> bool {
    a.pan_id == b.pan_id && a.channel == b.channel && a.short == b.short
}

/// Index of the first candidate satisfying `p`.
pub open spec fn first_cand(s: Seq<CandidateView>, p: spec_fn(CandidateView) -> bool) -> Option<int>
    decreases s.len(),
{
    if s.len() == 0 {
        None
    } else if p(s[0]) {
        Some(0)
    } else {
        match first_cand(s.drop_first(), p) {
            Some(i) => Some(i + 1),
            None => None,
        }
    }
}

/// `first_cand` is the lowest index satisfying the predicate.
pub proof fn lemma_first_cand(s: Seq<CandidateView>, p: spec_fn(CandidateView) -> bool)
    ensures
        match first_cand(s, p) {
            Some(i) => 0 <= i < s.len() && p(s[i]) && forall|j: int| 0 <= j < i ==> !p(#[trigger] s[j]),
            None => forall|j: int| 0 <= j < s.len() ==> !p(#[trigger] s[j]),
        },
    decreases s.len(),
{
    if s.len() > 0 && !p(s[0]) {
        lemma_first_cand(s.drop_first(), p);
        assert forall|j: int| 1 <= j < s.len() implies s[j] == s.drop_first()[j - 1] by {}
    }
}

/// A characterisation of the lowest satisfying index gives `first_cand`.
pub proof fn lemma_first_cand_is(s: Seq<CandidateView>, p: spec_fn(CandidateView) -> bool, r: Option<int>)
    requires
        match r {
            Some(i) => 0 <= i < s.len() && p(s[i]) && forall|j: int| 0 <= j < i ==> !p(#[trigger] s[j]),
            None => forall|j: int| 0 <= j < s.len() ==> !p(#[trigger] s[j]),
        },
    ensures
        first_cand(s, p) == r,
{
    lemma_first_cand(s, p);
    match (first_cand(s, p), r) {
        (Some(k), Some(i)) => {
            if k < i {
                assert(!p(s[k]));
            } else if k > i {
                assert(!p(s[i]));
            }
        },
        (Some(k), None) => {
            assert(!p(s[k]));
        },
        (None, Some(i)) => {
            assert(!p(s[i]));
        },
        (None, None) => {},
    }
}

/// The candidate is the same parent as `v`.
pub open spec fn same_parent_as(v: CandidateView) -> spec_fn(CandidateView) -> bool {
    |c: CandidateView| same_parent(c, v)
}

/// The table after adding `v` to `s` (capacity `cap`): an entry for the
/// same parent is refreshed (keeping its attempts), otherwise `v` is
/// appended while there is room, and in a full table it replaces the
/// worst entry when it ranks above it.
pub open spec fn spec_discovery_add(
    s: Seq<CandidateView>,
    v: CandidateView,
    uid: u8,
    parent: Option<ShortAddress>,
    cap: int,
) -> Seq<CandidateView> {
    if first_cand(s, same_parent_as(v)) is Some {
        let i = first_cand(s, same_parent_as(v))->0;
        s.update(i, CandidateView { attempts: s[i].attempts, ..v })
    } else if s.len() < cap {
        s.push(v)
    } else if s.len() == 0 {
        s
    } else {
        let w = choose|w: int| is_worst(s, w, uid, parent);
        if v.spec_rank(uid, parent) > s[w].spec_rank(uid, parent) {
            s.update(w, v)
        } else {
            s
        }
    }
}

/// A non-empty table has a worst candidate.
pub proof fn lemma_worst_exists(s: Seq<CandidateView>, uid: u8, parent: Option<ShortAddress>)
    requires
        s.len() > 0,
    ensures
        exists|w: int| is_worst(s, w, uid, parent),
    decreases s.len(),
{
    if s.len() == 1 {
        assert(is_worst(s, 0, uid, parent));
    } else {
        let p = s.drop_last();
        lemma_worst_exists(p, uid, parent);
        let w0 = choose|w: int| is_worst(p, w, uid, parent);
        let n = s.len() - 1;
        if s[n].spec_rank(uid, parent) < p[w0].spec_rank(uid, parent) {
            assert forall|j: int| 0 <= j < s.len() implies s[n].spec_rank(uid, parent) <= (#[trigger] s[j]).spec_rank(
                uid,
                parent,
            ) by {
                if j < n {
                    assert(p[j] == s[j]);
                }
            }
            assert forall|j: int| 0 <= j < n implies (#[trigger] s[j]).spec_rank(uid, parent) > s[n].spec_rank(
                uid,
                parent,
            ) by {
                assert(p[j] == s[j]);
            }
            assert(is_worst(s, n, uid, parent));
        } else {
            assert forall|j: int| 0 <= j < s.len() implies s[w0].spec_rank(uid, parent) <= (#[trigger] s[j]).spec_rank(
                uid,
                parent,
            ) by {
                if j < n {
                    assert(p[j] == s[j]);
                }
            }
            assert forall|j: int| 0 <= j < w0 implies (#[trigger] s[j]).spec_rank(uid, parent) > s[w0].spec_rank(
                uid,
                parent,
            ) by {
                assert(p[j] == s[j]);
            }
            assert(is_worst(s, w0, uid, parent));
        }
    }
}

/// Adding a candidate for a new parent never drops a candidate that ranks
/// above it: each such candidate keeps its place.
pub proof fn lemma_discovery_add_keeps_better(
    s: Seq<CandidateView>,
    v: CandidateView,
    uid: u8,
    parent: Option<ShortAddress>,
    cap: int,
)
    requires
        first_cand(s, same_parent_as(v)) is None,
    ensures
        ({
            let t = spec_discovery_add(s, v, uid, parent, cap);
            forall|j: int|
                0 <= j < s.len() && (#[trigger] s[j]).spec_rank(uid, parent) > v.spec_rank(uid, parent) ==> t[j] == s[j]
        }),
{
    let t = spec_discovery_add(s, v, uid, parent, cap);
    if s.len() >= cap && s.len() > 0 {
        lemma_worst_exists(s, uid, parent);
        let w = choose|w: int| is_worst(s, w, uid, parent);
        assert(is_worst(s, w, uid, parent));
        assert forall|j: int|
            0 <= j < s.len() && (#[trigger] s[j]).spec_rank(uid, parent) > v.spec_rank(uid, parent) implies t[j]
            == s[j] by {
            if j == w && v.spec_rank(uid, parent) > s[w].spec_rank(uid, parent) {
                assert(false);
            }
        }
    }
}

/// The views of candidates.
pub open spec fn candidate_views(s: Seq<Candidate>) -> Seq<CandidateView> {
    s.map_values(|c: Candidate| c@)
}

/// `i` is the first candidate of lowest rank.
pub open spec fn is_worst(s: Seq<CandidateView>, i: int, uid: u8, parent: Option<ShortAddress>) -> bool {
    &&& 0 <= i < s.len()
    &&& forall|j: int| 0 <= j < s.len() ==> s[i].spec_rank(uid, parent) <= (#[trigger] s[j]).spec_rank(uid, parent)
    &&& forall|j: int| 0 <= j < i ==> (#[trigger] s[j]).spec_rank(uid, parent) > s[i].spec_rank(uid, parent)
}

/// The candidate passes the filters of a ranking pass.
pub open spec fn passes(
    c: CandidateView,
    extended_pan_id: Option<ExtendedAddress>,
    as_router: bool,
    require_permit: bool,
    good_lqa: u8,
    good_only: bool,
    max_attempts: u8,
) -> bool {
    &&& (extended_pan_id matches Some(e) ==> c.extended_pan_id == e)
    &&& (require_permit ==> c.permit_joining)
    &&& (as_router ==> c.router_capacity)
    &&& (!as_router ==> c.end_device_capacity)
    &&& (good_only ==> c.lqa >= good_lqa)
    &&& (!good_only ==> c.lqa < good_lqa)
    &&& c.attempts < max_attempts
}

/// Discovery table holding at most `N` candidates.
#[derive(Clone, Debug)]
pub struct DiscoveryTable<const N: usize> {
    entries: Vec<Candidate>,
}

impl<const N: usize> View for DiscoveryTable<N> {
    type V = Seq<CandidateView>;

    closed spec fn view(&self) -> Seq<CandidateView> {
        candidate_views(self.entries@)
    }
}

/// Replacing one candidate replaces its view.
proof fn lemma_candidate_views_update(s: Seq<Candidate>, i: int)
    requires
        0 <= i < s.len(),
    ensures
        forall|x: Candidate| #[trigger] candidate_views(s.update(i, x)) == candidate_views(s).update(i, x@),
{
    assert forall|x: Candidate| #[trigger] candidate_views(s.update(i, x)) == candidate_views(s).update(i, x@) by {
        assert(candidate_views(s.update(i, x)) =~= candidate_views(s).update(i, x@));
    }
}

impl<const N: usize> DiscoveryTable<N> {
    /// The table holds at most `N` candidates.
    pub open spec fn wf(&self) -> bool {
        self@.len() <= N
    }

    /// Empty table.
    pub fn new() -> (t: Self)
        ensures
            t@ == Seq::<CandidateView>::empty(),
            t.wf(),
    {
        let t = DiscoveryTable { entries: Vec::new() };
        assert(t@ =~= Seq::<CandidateView>::empty());
        t
    }

    /// Adds or updates a candidate (keyed by PAN ID, channel and short
    /// address; an update keeps the attempt count). When full, the first
    /// lowest-ranked candidate is replaced if the new one ranks higher.
    pub fn add(&mut self, c: Candidate, current_update_id: u8, current_parent: Option<ShortAddress>)
        requires
            old(self).wf(),
        ensures
            final(self).wf(),
            final(self)@ == spec_discovery_add(old(self)@, c@, current_update_id, current_parent, N as int),
    {
        let ghost s = self@;
        let ghost v = c@;
        let mut i: usize = 0;
        while i < self.entries.len()
            invariant
                i <= s.len(),
                self@ == s,
                s == old(self)@,
                s.len() <= N,
                v == c@,
                s.len() == self.entries@.len(),
                forall|j: int| 0 <= j < i ==> !same_parent_as(v)(#[trigger] s[j]),
            decreases s.len() - i,
        {
            let e = &self.entries[i];
            if e.pan_id == c.pan_id && e.channel == c.channel && e.short == c.short {
                let attempts = e.attempts;
                let mut c = c;
                c.attempts = attempts;
                proof {
                    lemma_candidate_views_update(self.entries@, i as int);
                    lemma_first_cand_is(s, same_parent_as(v), Some(i as int));
                    assert(c@ == CandidateView { attempts: s[i as int].attempts, ..v });
                }
                self.entries.set(i, c);
                return;
            }
            i = i + 1;
        }
        proof {
            lemma_first_cand_is(s, same_parent_as(v), None);
        }
        if self.entries.len() < N {
            let ghost e0 = self.entries@;
            self.entries.push(c);
            proof {
                assert(candidate_views(self.entries@) =~= candidate_views(e0).push(v));
            }
            return;
        }
        if self.entries.len() == 0 {
            return;
        }
        let new_rank = c.rank(current_update_id, current_parent);
        let mut idx: usize = 0;
        let mut worst: u32 = self.entries[0].rank(current_update_id, current_parent);
        let mut k: usize = 1;
        while k < self.entries.len()
            invariant
                1 <= k <= s.len(),
                self@ == s,
                s.len() == self.entries@.len(),
                idx < k,
                worst == s[idx as int].spec_rank(current_update_id, current_parent),
                forall|j: int| 0 <= j < k ==> worst <= (#[trigger] s[j]).spec_rank(current_update_id, current_parent),
                forall|j: int| 0 <= j < idx ==> (#[trigger] s[j]).spec_rank(current_update_id, current_parent) > worst,
            decreases s.len() - k,
        {
            let r = self.entries[k].rank(current_update_id, current_parent);
            if r < worst {
                worst = r;
                idx = k;
            }
            k = k + 1;
        }
        proof {
            assert(is_worst(s, idx as int, current_update_id, current_parent));
            let w = choose|w: int| is_worst(s, w, current_update_id, current_parent);
            if w < idx {
                assert(s[w].spec_rank(current_update_id, current_parent) > worst);
            } else if w > idx {
                assert(s[idx as int].spec_rank(current_update_id, current_parent) > s[w].spec_rank(
                    current_update_id,
                    current_parent,
                ));
            }
        }
        if new_rank > worst {
            proof {
                lemma_candidate_views_update(self.entries@, idx as int);
            }
            self.entries.set(idx, c);
        }
    }

    /// Candidates for `extended_pan_id` (or any when `None`) that permit
    /// joining when required, have the required capacity, are in the LQA
    /// band of this pass (at least `good_lqa` when `good_only`, below it
    /// otherwise) and have attempts left, as indices, best first; equally
    /// ranked candidates keep their table order.
    pub fn ranked(
        &self,
        extended_pan_id: Option<ExtendedAddress>,
        as_router: bool,
        require_permit: bool,
        good_lqa: u8,
        good_only: bool,
        current_update_id: u8,
        current_parent: Option<ShortAddress>,
        max_attempts: u8,
        out: &mut Vec<usize>,
    )
        ensures
            forall|k: int|
                #![trigger final(out)@[k]]
                0 <= k < final(out)@.len() ==> final(out)@[k] < self@.len() && passes(
                    self@[final(out)@[k] as int],
                    extended_pan_id,
                    as_router,
                    require_permit,
                    good_lqa,
                    good_only,
                    max_attempts,
                ),
            forall|j: int|
                0 <= j < self@.len() && passes(
                    #[trigger] self@[j],
                    extended_pan_id,
                    as_router,
                    require_permit,
                    good_lqa,
                    good_only,
                    max_attempts,
                ) ==> final(out)@.contains(j as usize),
            forall|a: int, b: int|
                #![trigger final(out)@[a], final(out)@[b]]
                0 <= a < b < final(out)@.len() ==> ranks_before(
                    self@,
                    final(out)@[a] as int,
                    final(out)@[b] as int,
                    current_update_id,
                    current_parent,
                ),
    {
        out.clear();
        let ghost s = self@;
        let mut i: usize = 0;
        while i < self.entries.len()
            invariant
                i <= s.len(),
                s == self@,
                s.len() == self.entries@.len(),
                forall|k: int|
                    #![trigger out@[k]]
                    0 <= k < out@.len() ==> out@[k] < i && passes(
                        s[out@[k] as int],
                        extended_pan_id,
                        as_router,
                        require_permit,
                        good_lqa,
                        good_only,
                        max_attempts,
                    ),
                forall|j: int|
                    0 <= j < i && passes(#[trigger] s[j], extended_pan_id, as_router, require_permit, good_lqa, good_only, max_attempts)
                        ==> out@.contains(j as usize),
                forall|a: int, b: int|
                    #![trigger out@[a], out@[b]]
                    0 <= a < b < out@.len() ==> ranks_before(s, out@[a] as int, out@[b] as int, current_update_id, current_parent),
            decreases s.len() - i,
        {
            let c = &self.entries[i];
            let mut ok = true;
            if let Some(e) = extended_pan_id {
                if c.extended_pan_id != e {
                    ok = false;
                }
            }
            if require_permit && !c.permit_joining {
                ok = false;
            }
            if as_router && !c.router_capacity {
                ok = false;
            }
            if !as_router && !c.end_device_capacity {
                ok = false;
            }
            if good_only && c.lqa < good_lqa {
                ok = false;
            }
            if !good_only && c.lqa >= good_lqa {
                ok = false;
            }
            if c.attempts >= max_attempts {
                ok = false;
            }
            if ok {
                let r = c.rank(current_update_id, current_parent);
                let mut p: usize = 0;
                while p < out.len() && self.entries[out[p]].rank(current_update_id, current_parent) >= r
                    invariant
                        p <= out@.len(),
                        s == self@,
                        s.len() == self.entries@.len(),
                        i < s.len(),
                        r == s[i as int].spec_rank(current_update_id, current_parent),
                        forall|k: int| 0 <= k < out@.len() ==> (#[trigger] out@[k]) < i,
                        forall|k: int|
                            0 <= k < p ==> s[out@[k] as int].spec_rank(current_update_id, current_parent) >= r,
                    decreases out@.len() - p,
                {
                    p = p + 1;
                }
                let ghost o0 = out@;
                out.insert(p, i);
                proof {
                    assert forall|a: int, b: int|
                        #![trigger out@[a], out@[b]]
                        0 <= a < b < out@.len() implies ranks_before(
                            s,
                            out@[a] as int,
                            out@[b] as int,
                            current_update_id,
                            current_parent,
                        ) by {
                        if b < p {
                            assert(out@[a] == o0[a] && out@[b] == o0[b]);
                        } else if a > p {
                            assert(out@[a] == o0[a - 1] && out@[b] == o0[b - 1]);
                        } else if a == p {
                            assert(out@[b] == o0[b - 1]);
                            if p < o0.len() {
                                assert(s[o0[p as int] as int].spec_rank(current_update_id, current_parent) < r);
                                assert(b - 1 >= p);
                                if b - 1 > p {
                                    assert(ranks_before(s, o0[p as int] as int, o0[b - 1] as int, current_update_id, current_parent));
                                }
                            }
                        } else if b == p {
                            assert(out@[a] == o0[a]);
                        } else {
                            assert(out@[a] == o0[a] && out@[b] == o0[b - 1]);
                        }
                    }
                    assert forall|k: int|
                        #![trigger out@[k]]
                        0 <= k < out@.len() implies out@[k] < i + 1 && passes(
                            s[out@[k] as int],
                            extended_pan_id,
                            as_router,
                            require_permit,
                            good_lqa,
                            good_only,
                            max_attempts,
                        ) by {
                        if k < p {
                            assert(out@[k] == o0[k]);
                        } else if k > p {
                            assert(out@[k] == o0[k - 1]);
                        }
                    }
                    assert forall|j: int|
                        0 <= j < i + 1 && passes(#[trigger] s[j], extended_pan_id, as_router, require_permit, good_lqa, good_only, max_attempts)
                            implies out@.contains(j as usize) by {
                        if j < i {
                            let k = choose|k: int| 0 <= k < o0.len() && o0[k] == j as usize;
                            if k < p {
                                assert(out@[k] == j as usize);
                            } else {
                                assert(out@[k + 1] == j as usize);
                            }
                        } else {
                            assert(out@[p as int] == i);
                        }
                    }
                }
            } else {
                proof {
                    assert(!passes(s[i as int], extended_pan_id, as_router, require_permit, good_lqa, good_only, max_attempts));
                }
            }
            i = i + 1;
        }
    }

    /// Counts a join attempt to the candidate at `index` (saturating);
    /// `false` when there is no such candidate.
    pub fn note_attempt(&mut self, index: usize) -> (found: bool)
        requires
            old(self).wf(),
        ensures
            final(self).wf(),
            index < old(self)@.len() ==> found && final(self)@ == old(self)@.update(
                index as int,
                CandidateView {
                    attempts: if old(self)@[index as int].attempts == 255 {
                        255u8
                    } else {
                        (old(self)@[index as int].attempts + 1) as u8
                    },
                    ..old(self)@[index as int]
                },
            ),
            index >= old(self)@.len() ==> !found && final(self)@ == old(self)@,
    {
        if index >= self.entries.len() {
            return false;
        }
        let ghost e0 = self.entries@;
        let mut c = self.entries.remove(index);
        c.attempts = c.attempts.saturating_add(1);
        self.entries.insert(index, c);
        proof {
            assert(self.entries@ =~= e0.update(index as int, c));
            lemma_candidate_views_update(e0, index as int);
        }
        true
    }

    /// Candidate by index.
    pub fn get(&self, index: usize) -> (r: Option<&Candidate>)
        ensures
            index < self@.len() ==> (r matches Some(c) && c@ == self@[index as int]),
            index >= self@.len() ==> r is None,
    {
        if index < self.entries.len() {
            Some(&self.entries[index])
        } else {
            None
        }
    }

    /// Mutable candidate by index.
    pub fn get_mut(&mut self, index: usize) -> (r: Option<&mut Candidate>)
        ensures
            index < old(self)@.len() ==> (r is Some && (*r->0)@ == old(self)@[index as int] && final(self)@
                == old(self)@.update(index as int, (*final(r->0))@)),
            index >= old(self)@.len() ==> r is None && final(self)@ == old(self)@,
    {
        if index < self.entries.len() {
            proof {
                lemma_candidate_views_update(self.entries@, index as int);
            }
            Some(&mut self.entries[index])
        } else {
            None
        }
    }

    /// The candidates, in table order.
    pub fn entries(&self) -> (v: &[Candidate])
        ensures
            candidate_views(v@) == self@,
    {
        self.entries.as_slice()
    }

    /// The distinct networks discovered: the index of the first candidate
    /// of each extended PAN identifier, in table order.
    pub fn networks(&self) -> (v: Vec<usize>)
        ensures
            forall|k: int| 0 <= k < v@.len() ==> (#[trigger] v@[k]) < self@.len() && first_of_network(self@, v@[k] as int),
            forall|j: int| 0 <= j < self@.len() && first_of_network(self@, j) ==> v@.contains(j as usize),
            forall|a: int, b: int| #![trigger v@[a], v@[b]] 0 <= a < b < v@.len() ==> v@[a] < v@[b],
    {
        let ghost s = self@;
        let mut v: Vec<usize> = Vec::new();
        let mut i: usize = 0;
        while i < self.entries.len()
            invariant
                i <= s.len(),
                s == self@,
                s.len() == self.entries@.len(),
                forall|k: int| 0 <= k < v@.len() ==> (#[trigger] v@[k]) < i && first_of_network(s, v@[k] as int),
                forall|j: int| 0 <= j < i && first_of_network(s, j) ==> v@.contains(j as usize),
                forall|a: int, b: int| #![trigger v@[a], v@[b]] 0 <= a < b < v@.len() ==> v@[a] < v@[b],
            decreases s.len() - i,
        {
            let epid = self.entries[i].extended_pan_id;
            let mut seen = false;
            let mut j: usize = 0;
            while j < i
                invariant
                    j <= i < s.len(),
                    s == self@,
                    s.len() == self.entries@.len(),
                    seen == exists|k: int| 0 <= k < j && (#[trigger] s[k]).extended_pan_id == epid,
                    epid == s[i as int].extended_pan_id,
                decreases i - j,
            {
                if self.entries[j].extended_pan_id == epid {
                    seen = true;
                }
                proof {
                    if !seen {
                        assert forall|k: int| 0 <= k < j + 1 implies (#[trigger] s[k]).extended_pan_id != epid by {}
                    } else {
                        if self.entries@[j as int].extended_pan_id == epid {
                            assert(s[j as int].extended_pan_id == epid);
                        }
                    }
                }
                j = j + 1;
            }
            if !seen {
                let ghost v0 = v@;
                v.push(i);
                proof {
                    assert forall|j2: int| 0 <= j2 < i + 1 && first_of_network(s, j2) implies v@.contains(j2 as usize) by {
                        if j2 < i {
                            let k = choose|k: int| 0 <= k < v0.len() && v0[k] == j2 as usize;
                            assert(v@[k] == j2 as usize);
                        } else {
                            assert(v@[v0.len() as int] == i);
                        }
                    }
                }
            } else {
                proof {
                    let k = choose|k: int| 0 <= k < i && (#[trigger] s[k]).extended_pan_id == epid;
                    assert(!first_of_network(s, i as int));
                }
            }
            i = i + 1;
        }
        v
    }

    /// Number of candidates.
    pub fn len(&self) -> (n: usize)
        ensures
            n == self@.len(),
    {
        self.entries.len()
    }

    /// True when empty.
    pub fn is_empty(&self) -> (b: bool)
        ensures
            b == (self@.len() == 0),
    {
        self.entries.len() == 0
    }

    /// Clears the table.
    pub fn clear(&mut self)
        ensures
            final(self)@ == Seq::<CandidateView>::empty(),
    {
        self.entries.clear();
        assert(self@ =~= Seq::<CandidateView>::empty());
    }
}

/// Candidate `a` comes before candidate `b` in a ranking: it ranks higher,
/// or equally and earlier in the table.
pub open spec fn ranks_before(s: Seq<CandidateView>, a: int, b: int, uid: u8, parent: Option<ShortAddress>) -> bool {
    s[a].spec_rank(uid, parent) > s[b].spec_rank(uid, parent) || (s[a].spec_rank(uid, parent) == s[b].spec_rank(
        uid,
        parent,
    ) && a < b)
}

/// Candidate `i` is the first of its extended PAN identifier.
pub open spec fn first_of_network(s: Seq<CandidateView>, i: int) -> bool {
    0 <= i < s.len() && forall|k: int| 0 <= k < i ==> (#[trigger] s[k]).extended_pan_id != s[i].extended_pan_id
}

} // verus!
