//! Joining, child side: choosing the next potential parent from the
//! discovery table, in two passes (parents with a good link first, then
//! the others), and the attach mechanism used with it.
use vstd::prelude::*;

use crate::nwk::discovery::{passes, ranks_before, CandidateView, DiscoveryTable};
use crate::nwk::layer::JoinParams;
use crate::nwk::nib::Nib;
use crate::types::{Channel, ChannelPage, ExtendedAddress, Instant, PanId, ShortAddress};

verus! {

/// Where a join stands.
#[derive(Clone, Copy, PartialEq, Eq, Debug, Structural)]
pub enum JoinPhase {
    /// Choosing a parent.
    SelectParent,
    /// MAC association in progress.
    Associating,
    /// Rejoin or commissioning request handed to the MAC.
    RequestSent,
    /// Waiting for the response frame.
    AwaitingResponse {
        /// Give up after this.
        deadline: Instant,
        /// The parent was polled for the response.
        polled: bool,
    },
    /// Joined; waiting for the network key.
    AwaitingKey {
        /// Give up after this.
        deadline: Instant,
    },
}

/// What is kept of the parent being attached to.
#[derive(Clone, Copy, PartialEq, Eq, Debug, Structural)]
pub struct ParentSnapshot {
    /// Short address.
    pub short: ShortAddress,
    /// Extended address, when known.
    pub extended: Option<ExtendedAddress>,
    /// PAN identifier.
    pub pan_id: PanId,
    /// Extended PAN identifier.
    pub extended_pan_id: ExtendedAddress,
    /// Channel page.
    pub page: ChannelPage,
    /// Channel.
    pub channel: Channel,
    /// The parent advertises R23 attach.
    pub r23: bool,
    /// Update identifier advertised.
    pub update_id: u8,
    /// Link quality of its beacon.
    pub lqa: u8,
}

/// The snapshot of a candidate.
pub open spec fn snapshot_of(c: CandidateView) -> ParentSnapshot {
    ParentSnapshot {
        short: c.short,
        extended: c.extended,
        pan_id: c.pan_id,
        extended_pan_id: c.extended_pan_id,
        page: c.page,
        channel: c.channel,
        r23: c.r23,
        update_id: c.update_id,
        lqa: c.lqa,
    }
}

/// A join in progress.
#[derive(Clone, Debug)]
pub struct JoinState {
    /// The request.
    pub params: JoinParams,
    /// The attach is secured with the network key.
    pub secure: bool,
    /// Ranked candidate indices of the current pass.
    pub candidates: Vec<usize>,
    /// Next position in `candidates`.
    pub next: usize,
    /// 0: parents with a good link; 1: the others.
    pub pass: u8,
    /// The parent being attached to.
    pub current: Option<ParentSnapshot>,
    /// Where the join stands.
    pub phase: JoinPhase,
    /// Parents tried.
    pub attempts: u8,
    /// The commissioning attach was used.
    pub used_commissioning: bool,
}

/// What to do after choosing the next parent.
#[derive(Clone, Copy, PartialEq, Eq, Debug, Structural)]
pub enum ParentStep {
    /// The join fails: no network found, or attempts used up.
    NoNetworks,
    /// The join fails: networks were found but none may be joined.
    NotPermitted,
    /// The chosen candidate is gone from the table; nothing is sent.
    Stale,
    /// Attach by a network commissioning request (R23 parent).
    Commissioning(ParentSnapshot),
    /// Attach by a network rejoin request.
    Rejoin(ParentSnapshot),
    /// Attach by MAC association.
    Associate(ParentSnapshot),
}

/// Parent attempts allowed for the request.
pub open spec fn max_attempts(params: JoinParams, nib: Nib) -> u8 {
    if params.rejoin {
        nib.max_rejoin_parent_attempts
    } else {
        nib.max_initial_join_parent_attempts
    }
}

/// The current parent that ranking favours: an end device's own parent
/// on a rejoin.
pub open spec fn ranking_parent(params: JoinParams, nib: Nib) -> Option<ShortAddress> {
    if nib.device_type is EndDevice && params.rejoin {
        Some(nib.parent_address)
    } else {
        None
    }
}

/// `out` ranks the candidates of `disc` that pass this pass's filters,
/// best first, equally ranked ones in table order.
#[verifier::opaque]
pub open spec fn is_ranking(disc: Seq<CandidateView>, params: JoinParams, nib: Nib, good_only: bool, out: Seq<usize>) -> bool {
    let ma = max_attempts(params, nib);
    &&& forall|k: int|
        #![trigger out[k]]
        0 <= k < out.len() ==> out[k] < disc.len() && passes(
            disc[out[k] as int],
            params.extended_pan_id,
            params.as_router,
            params.require_permit,
            nib.good_parent_lqa,
            good_only,
            ma,
        )
    &&& forall|j: int|
        0 <= j < disc.len() && passes(
            #[trigger] disc[j],
            params.extended_pan_id,
            params.as_router,
            params.require_permit,
            nib.good_parent_lqa,
            good_only,
            ma,
        ) ==> out.contains(j as usize)
    &&& forall|a: int, b: int|
        #![trigger out[a], out[b]]
        0 <= a < b < out.len() ==> ranks_before(
            disc,
            out[a] as int,
            out[b] as int,
            nib.update_id,
            ranking_parent(params, nib),
        )
}

/// The candidate list is used up.
pub open spec fn exhausted(candidates: Seq<usize>, next: usize) -> bool {
    next >= candidates.len()
}

/// The candidate list a choice is made from, given the list `c0` at
/// position `n0` in pass `p0`: kept while not used up or in the second
/// pass; otherwise, at the very start, the good links are ranked, and
/// when there are none, or when the first pass is used up, the second
/// pass ranks the others.
pub open spec fn list_prepared(
    c0: Seq<usize>,
    n0: usize,
    p0: u8,
    c1: Seq<usize>,
    n1: usize,
    p1: u8,
    disc: Seq<CandidateView>,
    params: JoinParams,
    nib: Nib,
) -> bool {
    if !exhausted(c0, n0) || p0 != 0 {
        c1 == c0 && n1 == n0 && p1 == p0
    } else if n0 == 0 && c0.len() == 0 {
        (p1 == 0 && n1 == 0 && c1.len() > 0 && is_ranking(disc, params, nib, true, c1)) || (p1 == 1 && n1 == 0
            && is_ranking(disc, params, nib, true, Seq::<usize>::empty()) && is_ranking(disc, params, nib, false, c1))
    } else {
        p1 == 1 && n1 == 0 && is_ranking(disc, params, nib, false, c1)
    }
}

/// Taking candidate `idx` of `disc`: a candidate gone from the table
/// is stale and changes nothing; otherwise its attempts grow by one
/// (saturating), it becomes the current parent, the device moves to its
/// page and channel, and it is attached by a commissioning request when
/// it advertises R23 attach, else by a rejoin request on a rejoin, else
/// by MAC association on its PAN.
pub open spec fn candidate_taken(
    idx: usize,
    params: JoinParams,
    phase0: JoinPhase,
    commissioning0: bool,
    current0: Option<ParentSnapshot>,
    nib0: Nib,
    disc0: Seq<CandidateView>,
    step: ParentStep,
    phase1: JoinPhase,
    commissioning1: bool,
    current1: Option<ParentSnapshot>,
    nib1: Nib,
    disc1: Seq<CandidateView>,
) -> bool {
    if idx >= disc0.len() {
        &&& step == ParentStep::Stale
        &&& disc1 == disc0
        &&& nib1 == nib0
        &&& phase1 == phase0
        &&& commissioning1 == commissioning0
        &&& current1 == current0
    } else {
        let c = disc0[idx as int];
        let snap = snapshot_of(c);
        &&& disc1 == disc0.update(
            idx as int,
            CandidateView { attempts: if c.attempts == 255 { 255u8 } else { (c.attempts + 1) as u8 }, ..c },
        )
        &&& current1 == Some(snap)
        &&& if c.r23 {
            &&& step == ParentStep::Commissioning(snap)
            &&& commissioning1
            &&& phase1 == phase0
            &&& nib1 == (Nib { channel: c.channel, channel_page: c.page, ..nib0 })
        } else if params.rejoin {
            &&& step == ParentStep::Rejoin(snap)
            &&& commissioning1 == commissioning0
            &&& phase1 == phase0
            &&& nib1 == (Nib { channel: c.channel, channel_page: c.page, ..nib0 })
        } else {
            &&& step == ParentStep::Associate(snap)
            &&& commissioning1 == commissioning0
            &&& phase1 == JoinPhase::Associating
            &&& nib1 == (Nib { channel: c.channel, channel_page: c.page, pan_id: c.pan_id, ..nib0 })
        }
    }
}

/// The mathematical content of a [`JoinState`].
pub struct JoinStateView {
    /// The request.
    pub params: JoinParams,
    /// Secured attach.
    pub secure: bool,
    /// Ranked candidate indices.
    pub candidates: Seq<usize>,
    /// Next position.
    pub next: usize,
    /// Pass.
    pub pass: u8,
    /// Current parent.
    pub current: Option<ParentSnapshot>,
    /// Phase.
    pub phase: JoinPhase,
    /// Parents tried.
    pub attempts: u8,
    /// Commissioning attach used.
    pub used_commissioning: bool,
}

impl View for JoinState {
    type V = JoinStateView;

    open spec fn view(&self) -> JoinStateView {
        JoinStateView {
            params: self.params,
            secure: self.secure,
            candidates: self.candidates@,
            next: self.next,
            pass: self.pass,
            current: self.current,
            phase: self.phase,
            attempts: self.attempts,
            used_commissioning: self.used_commissioning,
        }
    }
}

impl JoinStateView {
    /// Trying the next parent from this state, with NIB `nib0` and
    /// discovery table `disc0`, gave `step`, state `j1`, NIB `nib1` and
    /// table `disc1`: when the parent attempts are used up the join fails
    /// with `NoNetworks` and nothing changes; otherwise the list is
    /// prepared (see [`list_prepared`]); with nothing left the join fails
    /// (`NoNetworks` when nothing was discovered, `NotPermitted`
    /// otherwise) and nothing else changes; else the next candidate is
    /// taken (see [`candidate_taken`]) and the attempts grow by one.
    #[verifier::opaque]
    pub open spec fn next_parent_tried(
        self,
        nib0: Nib,
        disc0: Seq<CandidateView>,
        step: ParentStep,
        j1: JoinStateView,
        nib1: Nib,
        disc1: Seq<CandidateView>,
    ) -> bool {
        &&& j1.params == self.params
        &&& j1.secure == self.secure
        &&& if self.attempts >= max_attempts(self.params, nib0) {
            &&& step == ParentStep::NoNetworks
            &&& j1 == self
            &&& disc1 == disc0
            &&& nib1 == nib0
        } else {
            let failed = step is NoNetworks || step is NotPermitted;
            let n1 = if failed { j1.next } else { (j1.next - 1) as usize };
            &&& list_prepared(self.candidates, self.next, self.pass, j1.candidates, n1, j1.pass, disc0, self.params, nib0)
            &&& failed ==> {
                &&& step == (if disc0.len() == 0 {
                    ParentStep::NoNetworks
                } else {
                    ParentStep::NotPermitted
                })
                &&& exhausted(j1.candidates, j1.next)
                &&& j1.attempts == self.attempts
                &&& j1.phase == self.phase
                &&& j1.current == self.current
                &&& j1.used_commissioning == self.used_commissioning
                &&& disc1 == disc0
                &&& nib1 == nib0
            }
            &&& !failed ==> {
                &&& !exhausted(j1.candidates, n1)
                &&& j1.attempts == self.attempts + 1
                &&& candidate_taken(
                    j1.candidates[n1 as int],
                    self.params,
                    self.phase,
                    self.used_commissioning,
                    self.current,
                    nib0,
                    disc0,
                    step,
                    j1.phase,
                    j1.used_commissioning,
                    j1.current,
                    nib1,
                    disc1,
                )
            }
        }
    }
}

/// A failed parent step leaves the NIB and the discovery table as they
/// were.
pub proof fn lemma_failed_step_keeps(
    j: JoinStateView,
    nib0: Nib,
    disc0: Seq<CandidateView>,
    step: ParentStep,
    j1: JoinStateView,
    nib1: Nib,
    disc1: Seq<CandidateView>,
)
    requires
        j.next_parent_tried(nib0, disc0, step, j1, nib1, disc1),
        step is NoNetworks || step is NotPermitted,
    ensures
        nib1 == nib0,
        disc1 == disc0,
{
    reveal(JoinStateView::next_parent_tried);
}

impl JoinState {
    /// A join that has not chosen a parent yet.
    pub fn new(params: JoinParams) -> (j: Self)
        ensures
            j.params == params,
            j.secure == (params.rejoin && params.secure),
            j.candidates@ == Seq::<usize>::empty(),
            j.next == 0,
            j.pass == 0,
            j.current is None,
            j.phase == JoinPhase::SelectParent,
            j.attempts == 0,
            !j.used_commissioning,
    {
        JoinState {
            params,
            secure: params.rejoin && params.secure,
            candidates: Vec::new(),
            next: 0,
            pass: 0,
            current: None,
            phase: JoinPhase::SelectParent,
            attempts: 0,
            used_commissioning: false,
        }
    }

    /// Ranks the candidates for a pass and starts over at the best.
    fn rank<const D: usize>(&mut self, nib: &Nib, discovery: &DiscoveryTable<D>, good_only: bool)
        ensures
            is_ranking(discovery@, old(self).params, *nib, good_only, final(self).candidates@),
            final(self).next == 0,
            final(self).params == old(self).params,
            final(self).secure == old(self).secure,
            final(self).pass == old(self).pass,
            final(self).current == old(self).current,
            final(self).phase == old(self).phase,
            final(self).attempts == old(self).attempts,
            final(self).used_commissioning == old(self).used_commissioning,
    {
        let parent = if nib.is_end_device() && self.params.rejoin {
            Some(nib.parent_address)
        } else {
            None
        };
        let ma = if self.params.rejoin {
            nib.max_rejoin_parent_attempts
        } else {
            nib.max_initial_join_parent_attempts
        };
        let mut out: Vec<usize> = Vec::new();
        discovery.ranked(
            self.params.extended_pan_id,
            self.params.as_router,
            self.params.require_permit,
            nib.good_parent_lqa,
            good_only,
            nib.update_id,
            parent,
            ma,
            &mut out,
        );
        self.candidates = out;
        self.next = 0;
        proof {
            reveal(is_ranking);
        }
    }

    /// Prepares the candidate list of the choice (see [`list_prepared`]).
    fn prepare_list<const D: usize>(&mut self, nib: &Nib, discovery: &DiscoveryTable<D>)
        ensures
            list_prepared(
                old(self).candidates@,
                old(self).next,
                old(self).pass,
                final(self).candidates@,
                final(self).next,
                final(self).pass,
                discovery@,
                old(self).params,
                *nib,
            ),
            final(self).params == old(self).params,
            final(self).secure == old(self).secure,
            final(self).current == old(self).current,
            final(self).phase == old(self).phase,
            final(self).attempts == old(self).attempts,
            final(self).used_commissioning == old(self).used_commissioning,
    {
        if self.next < self.candidates.len() || self.pass != 0 {
            return;
        }
        if self.next == 0 && self.candidates.len() == 0 {
            self.rank(nib, discovery, true);
            if self.candidates.len() == 0 {
                assert(self.candidates@ =~= Seq::<usize>::empty());
                self.pass = 1;
                self.rank(nib, discovery, false);
            }
        } else {
            self.pass = 1;
            self.rank(nib, discovery, false);
        }
    }

    /// Takes the next candidate of the list and chooses the attach
    /// mechanism for it.
    fn take_candidate<const D: usize>(&mut self, nib: &mut Nib, discovery: &mut DiscoveryTable<D>) -> (step: ParentStep)
        requires
            old(discovery).wf(),
            !exhausted(old(self).candidates@, old(self).next),
            old(self).attempts < 255,
        ensures
            final(discovery).wf(),
            final(self).params == old(self).params,
            final(self).secure == old(self).secure,
            final(self).candidates@ == old(self).candidates@,
            final(self).pass == old(self).pass,
            final(self).next == old(self).next + 1,
            final(self).attempts == old(self).attempts + 1,
            candidate_taken(
                old(self).candidates@[old(self).next as int],
                old(self).params,
                old(self).phase,
                old(self).used_commissioning,
                old(self).current,
                *old(nib),
                old(discovery)@,
                step,
                final(self).phase,
                final(self).used_commissioning,
                final(self).current,
                *final(nib),
                final(discovery)@,
            ),
    {
        let len = self.candidates.len();
        let idx = self.candidates[self.next];
        assert(self.next < len);
        self.next = self.next + 1;
        self.attempts = self.attempts + 1;
        let (short, extended, pan_id, extended_pan_id, page, channel, r23, update_id, lqa) = match discovery.get(
            idx,
        ) {
            Some(c) => (c.short, c.extended, c.pan_id, c.extended_pan_id, c.page, c.channel, c.r23, c.update_id, c.lqa),
            None => {
                return ParentStep::Stale;
            },
        };
        let _ = discovery.note_attempt(idx);
        let snap = ParentSnapshot { short, extended, pan_id, extended_pan_id, page, channel, r23, update_id, lqa };
        self.current = Some(snap);
        nib.channel = channel;
        nib.channel_page = page;
        if r23 {
            self.used_commissioning = true;
            ParentStep::Commissioning(snap)
        } else if self.params.rejoin {
            ParentStep::Rejoin(snap)
        } else {
            self.phase = JoinPhase::Associating;
            nib.pan_id = pan_id;
            ParentStep::Associate(snap)
        }
    }

    /// Chooses the next potential parent and the attach mechanism.
    ///
    /// When the parent attempts are used up the join fails with
    /// `NoNetworks`. Otherwise the list is prepared (see
    /// [`list_prepared`]); with nothing left the join fails, with
    /// `NoNetworks` when nothing was discovered and `NotPermitted`
    /// otherwise; else the next candidate is taken (see
    /// [`candidate_taken`]) and the join's attempts grow by one.
    pub fn try_next_parent<const D: usize>(&mut self, nib: &mut Nib, discovery: &mut DiscoveryTable<D>) -> (step:
        ParentStep)
        requires
            old(discovery).wf(),
        ensures
            final(discovery).wf(),
            old(self)@.next_parent_tried(*old(nib), old(discovery)@, step, final(self)@, *final(nib), final(discovery)@),
    {
        let ma = if self.params.rejoin {
            nib.max_rejoin_parent_attempts
        } else {
            nib.max_initial_join_parent_attempts
        };
        proof {
            reveal(JoinStateView::next_parent_tried);
        }
        if self.attempts >= ma {
            return ParentStep::NoNetworks;
        }
        self.prepare_list(nib, discovery);
        if self.next >= self.candidates.len() {
            return if discovery.len() == 0 {
                ParentStep::NoNetworks
            } else {
                ParentStep::NotPermitted
            };
        }
        self.take_candidate(nib, discovery)
    }
}

/// Every parent a ranking pass offers fits the request: router capacity
/// for a router join and end device capacity otherwise, the requested
/// network when one is named, joining permitted when required, a link at
/// least as good as the good-parent LQA in the first pass and below it in
/// the second, and fewer attempts so far than a rejoin or an initial join
/// allows; and the offers come best ranked first.
pub proof fn lemma_ranking_offers(
    disc: Seq<CandidateView>,
    params: JoinParams,
    nib: Nib,
    good_only: bool,
    out: Seq<usize>,
    k: int,
    l: int,
)
    requires
        is_ranking(disc, params, nib, good_only, out),
        0 <= k < out.len(),
    ensures
        ({
            let c = disc[out[k] as int];
            &&& out[k] < disc.len()
            &&& params.as_router ==> c.router_capacity
            &&& !params.as_router ==> c.end_device_capacity
            &&& params.extended_pan_id matches Some(e) ==> c.extended_pan_id == e
            &&& params.require_permit ==> c.permit_joining
            &&& good_only ==> c.lqa >= nib.good_parent_lqa
            &&& !good_only ==> c.lqa < nib.good_parent_lqa
            &&& c.attempts < (if params.rejoin {
                nib.max_rejoin_parent_attempts
            } else {
                nib.max_initial_join_parent_attempts
            })
        }),
        k < l < out.len() ==> disc[out[k] as int].spec_rank(nib.update_id, ranking_parent(params, nib)) >= disc[out[l] as int].spec_rank(
            nib.update_id,
            ranking_parent(params, nib),
        ),
{
    reveal(is_ranking);
    assert(out[k] == out[k]);
    if k < l < out.len() {
        assert(ranks_before(disc, out[k] as int, out[l] as int, nib.update_id, ranking_parent(params, nib)));
    }
}

} // verus!
