//! The timer pass of the network layer: permit-joining expiry, link
//! status periods and router aging, child aging, the end device's own
//! timeout and keepalives, the timeout request deadline, and the join
//! procedure's deadlines.
use vstd::prelude::*;

use crate::mac::constants::{response_wait_time, spec_symbols_to_ms, BASE_SUPERFRAME_DURATION_SYMBOLS, RESPONSE_WAIT_TIME_MULTIPLIER};
use crate::nwk::address_map::{not_for, AddressPair};
use crate::nwk::attach::cap_rx_on;
use crate::nwk::broadcast::BroadcastRecordView;
use crate::nwk::join::{JoinPhase, ParentStep};
use crate::nwk::neighbor::{
    aged_by, capped, expires, extended_of, first_match, is_parent_entry, survives, ticked_by, turns_stale,
    NeighborEntry,
};
use crate::nwk::nib::Nib;
use crate::nwk::relay::{after_ms, at_most, BroadcastBufView, BroadcastStateView};
use crate::nwk::state::{Nwk, NwkStateView};
use crate::types::{Duration, ExtendedAddress, Instant, ShortAddress};

verus! {

/// Largest random delay, in milliseconds, added to a link status period.
pub const MAX_LINK_STATUS_JITTER_MS: u64 = 1000;

/// Children aged out per pass that are reported.
pub const EXPIRED_PER_PASS: usize = 8;

/// Routers reported lost per link status period.
pub const LOST_PER_PASS: usize = 8;

/// Keepalive timeout, in seconds, assumed when none is negotiated.
pub const DEFAULT_KEEPALIVE_TIMEOUT_SECS: u32 = 15360;

/// What a timer pass asks of the caller, in order.
#[derive(Clone, Copy, PartialEq, Eq, Debug, Structural)]
pub enum NwkTimerOutput {
    /// Joining is no longer permitted: clear the MAC association permit
    /// and tell the higher layer.
    PermitJoiningEnded,
    /// A link status is due: send one.
    SendLinkStatus,
    /// Routes through this router are to be invalidated: its link went
    /// stale.
    RouteLost(ShortAddress),
    /// Rebuild the beacon payload (routers).
    UpdateBeaconPayload,
    /// This child aged out and was removed: drop its security material
    /// and tell the higher layer.
    ChildRemoved(ExtendedAddress),
    /// The link to the parent is assumed lost: tell the higher layer.
    ParentLinkFailure,
    /// Keep alive by polling the parent.
    KeepalivePoll,
    /// Keep alive by an End Device Timeout Request.
    KeepaliveTimeoutRequest,
    /// Poll the parent for a join response.
    PollParent,
    /// No join response came in time: the next parent was tried.
    JoinStep(ParentStep),
    /// The network key did not come in time: the join failed (no key) and
    /// the device left the network.
    AuthenticationTimeout,
}

/// A router neighbor whose link went stale in this period.
pub open spec fn lost_router(limit: u8) -> spec_fn(NeighborEntry) -> bool {
    |e: NeighborEntry| e.spec_is_router() && e.outgoing_cost == 0 && e.age > limit
}

/// The short address of an entry.
pub open spec fn short_of() -> spec_fn(NeighborEntry) -> ShortAddress {
    |e: NeighborEntry| e.short
}

/// The output for a lost route.
pub open spec fn route_lost() -> spec_fn(ShortAddress) -> NwkTimerOutput {
    |h: ShortAddress| NwkTimerOutput::RouteLost(h)
}

/// The output for a removed child.
pub open spec fn child_removed() -> spec_fn(ExtendedAddress) -> NwkTimerOutput {
    |d: ExtendedAddress| NwkTimerOutput::ChildRemoved(d)
}

/// The address map without the pairs of the devices `xs`, removed in
/// turn.
pub open spec fn remove_all(map: Seq<AddressPair>, xs: Seq<ExtendedAddress>) -> Seq<AddressPair>
    decreases xs.len(),
{
    if xs.len() == 0 {
        map
    } else {
        remove_all(map.filter(not_for(xs[0])), xs.drop_first())
    }
}

/// The parent's entry after `elapsed` seconds, and whether the device
/// assumes it was aged out (the counter then starts over).
pub open spec fn parent_ticked(s: Seq<NeighborEntry>, elapsed: u32) -> (Seq<NeighborEntry>, bool) {
    match first_match(s, is_parent_entry()) {
        Some(i) => {
            let p = s[i];
            let c = if p.timeout_counter_secs >= elapsed { (p.timeout_counter_secs - elapsed) as u32 } else { 0u32 };
            let aged_out = c == 0 && p.device_timeout_secs != 0;
            (s.update(i, NeighborEntry { timeout_counter_secs: if aged_out { p.device_timeout_secs } else { c }, ..p }), aged_out)
        },
        None => (s, false),
    }
}

/// The neighbors after the parent's timeout was restarted.
pub open spec fn parent_refreshed(s: Seq<NeighborEntry>) -> Seq<NeighborEntry> {
    match first_match(s, is_parent_entry()) {
        Some(i) => s.update(i, NeighborEntry { timeout_counter_secs: s[i].device_timeout_secs, ..s[i] }),
        None => s,
    }
}

/// The response wait time in milliseconds.
pub open spec fn response_wait_ms() -> u64 {
    spec_symbols_to_ms((RESPONSE_WAIT_TIME_MULTIPLIER * BASE_SUPERFRAME_DURATION_SYMBOLS) as u64)
}

impl NwkStateView {
    /// Permit joining ends at its deadline.
    pub open spec fn permit_step(self, now: Instant) -> (NwkStateView, Seq<NwkTimerOutput>) {
        match self.permit_until {
            Some(t) if now.0 >= t.0 => (
                NwkStateView { permit_until: None, ..self },
                seq![NwkTimerOutput::PermitJoiningEnded],
            ),
            _ => (self, Seq::empty()),
        }
    }

    /// At the link status deadline: a link status is sent, every router
    /// neighbor ages by one period, the routers whose link went stale are
    /// reported (when any went stale in this period), the next period is
    /// scheduled with `jitter_ms` added, and the beacon payload is
    /// rebuilt.
    pub open spec fn link_status_step(self, now: Instant, jitter_ms: u64) -> (NwkStateView, Seq<NwkTimerOutput>) {
        match self.link_status_due {
            Some(t) if now.0 >= t.0 => {
                let limit = self.nib.router_age_limit;
                let nb = self.neighbors.map_values(ticked_by(limit));
                let stale = self.neighbors.filter(turns_stale(limit)).len();
                let lost = if stale > 0 {
                    at_most(nb.filter(lost_router(limit)).map_values(short_of()), LOST_PER_PASS as int)
                } else {
                    Seq::empty()
                };
                (
                    NwkStateView {
                        neighbors: nb,
                        link_status_due: Some(after_ms(after_ms(now, self.nib.link_status_period.0), jitter_ms)),
                        ..self
                    },
                    seq![NwkTimerOutput::SendLinkStatus] + lost.map_values(route_lost()) + seq![
                        NwkTimerOutput::UpdateBeaconPayload,
                    ],
                )
            },
            _ => (self, Seq::empty()),
        }
    }

    /// Once a second or more has passed since the last aging: children
    /// age by the whole seconds elapsed, those that ran out are removed
    /// (from the neighbor table and the address map) and reported, and a
    /// joined end device counts the time off its own timeout.
    pub open spec fn child_aging_step(self, now: Instant) -> (NwkStateView, Seq<NwkTimerOutput>) {
        let ms = if now.0 >= self.child_age_last.0 { now.0 - self.child_age_last.0 } else { 0 };
        let secs = ms / 1000;
        if secs < 1 {
            (self, Seq::empty())
        } else {
            let e = if secs > u32::MAX { u32::MAX } else { secs as u32 };
            let nb = self.neighbors.filter(survives(e)).map_values(aged_by(e));
            let expired = capped(
                Seq::<ExtendedAddress>::empty() + self.neighbors.filter(expires(e)).map_values(extended_of()),
                EXPIRED_PER_PASS as int,
            );
            let own = self.nib.device_type is EndDevice && self.nib.joined;
            let (nb2, lost) = if own { parent_ticked(nb, e) } else { (nb, false) };
            (
                NwkStateView {
                    neighbors: nb2,
                    address_map: remove_all(self.address_map, expired),
                    child_age_last: now,
                    ..self
                },
                expired.map_values(child_removed()) + if lost {
                    seq![NwkTimerOutput::ParentLinkFailure]
                } else {
                    Seq::empty()
                },
            )
        }
    }

    /// An authenticated end device keeps alive at its deadline: by a poll
    /// when the parent supports it, else by a timeout request when the
    /// parent supports that; the next keepalive is due a third of the
    /// timeout later, and the parent's timeout restarts.
    pub open spec fn keepalive_step(self, now: Instant) -> (NwkStateView, Seq<NwkTimerOutput>) {
        if self.nib.device_type is EndDevice && self.nib.authenticated && (self.keepalive_due matches Some(t)
            && now.0 >= t.0) {
            let secs = match self.nib.end_device_timeout.spec_seconds() {
                Some(s) => s,
                None => DEFAULT_KEEPALIVE_TIMEOUT_SECS,
            };
            let period = if secs / 3 >= 1 { secs / 3 } else { 1 };
            let pi = self.nib.parent_information;
            (
                NwkStateView {
                    keepalive_due: Some(after_ms(now, (period * 1000) as u64)),
                    neighbors: parent_refreshed(self.neighbors),
                    ..self
                },
                if pi.0 & 0x01 != 0 {
                    seq![NwkTimerOutput::KeepalivePoll]
                } else if pi.0 & 0x02 != 0 {
                    seq![NwkTimerOutput::KeepaliveTimeoutRequest]
                } else {
                    Seq::empty()
                },
            )
        } else {
            (self, Seq::empty())
        }
    }

    /// At the timeout request deadline without a response: the parent
    /// link is assumed lost when the request served as a keepalive.
    pub open spec fn timeout_request_step(self, now: Instant) -> (NwkStateView, Seq<NwkTimerOutput>) {
        match self.timeout_request_deadline {
            Some(t) if now.0 >= t.0 => (
                NwkStateView { timeout_request_deadline: None, ..self },
                if self.nib.parent_information.0 & 0x02 != 0 {
                    seq![NwkTimerOutput::ParentLinkFailure]
                } else {
                    Seq::empty()
                },
            ),
            _ => (self, Seq::empty()),
        }
    }

    /// Every timer but the join procedure's, in order.
    pub open spec fn timers_before_join(self, now: Instant, jitter_ms: u64) -> (NwkStateView, Seq<NwkTimerOutput>) {
        let v0 = NwkStateView { now, ..self };
        let (v1, o1) = v0.permit_step(now);
        let (v2, o2) = v1.link_status_step(now, jitter_ms);
        let (v3, o3) = v2.child_aging_step(now);
        let (v4, o4) = v3.keepalive_step(now);
        let (v5, o5) = v4.timeout_request_step(now);
        (v5, o1 + o2 + o3 + o4 + o5)
    }

    /// The state after leaving the network without rejoin: the join and
    /// every operating timer end, the neighbor table, address map and
    /// broadcast records are emptied, and the NIB forgets the network.
    pub open spec fn left(self) -> NwkStateView {
        NwkStateView {
            join: None,
            permit_until: None,
            link_status_due: None,
            operating_since: None,
            keepalive_due: None,
            neighbors: Seq::empty(),
            address_map: Seq::empty(),
            broadcasts: BroadcastStateView {
                btt: Seq::<BroadcastRecordView>::empty(),
                bufs: Seq::<BroadcastBufView>::empty(),
                ..self.broadcasts
            },
            nib: Nib {
                manager_addr: ShortAddress(crate::types::COORDINATOR_RAW),
                update_id: 0,
                network_address: ShortAddress(crate::types::NO_SHORT_ADDRESS_RAW),
                extended_pan_id: ExtendedAddress(0),
                is_concentrator: false,
                concentrator_radius: 0,
                pan_id: crate::types::PanId(crate::types::PAN_BROADCAST_RAW),
                tx_total: 0,
                parent_information: crate::nwk::command::ParentInformation(0),
                parent_address: ShortAddress(crate::types::NO_SHORT_ADDRESS_RAW),
                parent_ieee: ExtendedAddress(0),
                joined: false,
                authenticated: false,
                router_started: false,
                depth: 0,
                ..self.nib
            },
            ..self
        }
    }

    /// The join procedure's deadlines: without a response by its
    /// deadline the next parent is tried (see
    /// [`NwkStateView::parent_tried`]); a device whose receiver is off
    /// polls its parent once, when half the response wait time or less is
    /// left; without the network key by its deadline the join fails and
    /// the device leaves (see [`NwkStateView::left`]).
    pub open spec fn join_serviced(self, now: Instant, new: NwkStateView, out: Seq<NwkTimerOutput>) -> bool {
        match self.join {
            Some(j) => match j.phase {
                JoinPhase::AwaitingResponse { deadline, polled } => if now.0 >= deadline.0 {
                    exists|st: ParentStep| self.parent_tried(st, new) && out == seq![NwkTimerOutput::JoinStep(st)]
                } else if !polled && !cap_rx_on(j.params.capability) && deadline.0 - now.0 <= response_wait_ms() / 2 {
                    &&& new == (NwkStateView {
                        join: Some(
                            crate::nwk::join::JoinStateView {
                                phase: JoinPhase::AwaitingResponse { deadline, polled: true },
                                ..j
                            },
                        ),
                        ..self
                    })
                    &&& out == seq![NwkTimerOutput::PollParent]
                } else {
                    new == self && out == Seq::<NwkTimerOutput>::empty()
                },
                JoinPhase::AwaitingKey { deadline } => if now.0 >= deadline.0 {
                    new == self.left() && out == seq![NwkTimerOutput::AuthenticationTimeout]
                } else {
                    new == self && out == Seq::<NwkTimerOutput>::empty()
                },
                _ => new == self && out == Seq::<NwkTimerOutput>::empty(),
            },
            None => new == self && out == Seq::<NwkTimerOutput>::empty(),
        }
    }
}

impl<const NB: usize, const BTT: usize, const D: usize, const AM: usize, const JL: usize> Nwk<NB, BTT, D, AM, JL> {
    fn permit_step(&mut self, now: Instant) -> (out: Vec<NwkTimerOutput>)
        requires
            old(self).wf(),
        ensures
            final(self).wf(),
            (final(self)@, out@) == old(self)@.permit_step(now),
    {
        let mut out: Vec<NwkTimerOutput> = Vec::new();
        if let Some(t) = self.permit_until {
            if now.has_reached(t) {
                self.permit_until = None;
                out.push(NwkTimerOutput::PermitJoiningEnded);
                assert(out@ =~= seq![NwkTimerOutput::PermitJoiningEnded]);
            }
        }
        out
    }

    fn link_status_step(&mut self, now: Instant, jitter_ms: u64) -> (out: Vec<NwkTimerOutput>)
        requires
            old(self).wf(),
        ensures
            final(self).wf(),
            (final(self)@, out@) == old(self)@.link_status_step(now, jitter_ms),
    {
        let mut out: Vec<NwkTimerOutput> = Vec::new();
        let due = match self.link_status_due {
            Some(t) => now.has_reached(t),
            None => false,
        };
        if !due {
            return out;
        }
        let limit = self.nib.router_age_limit;
        let stale = self.neighbors.link_status_tick(limit);
        let mut lost: Vec<ShortAddress> = Vec::new();
        if stale > 0 {
            let entries = self.neighbors.entries();
            let ghost s = self@.neighbors;
            let mut i: usize = 0;
            while i < entries.len()
                invariant
                    entries@ == s,
                    i <= s.len(),
                    lost@ == at_most(
                        s.take(i as int).filter(lost_router(limit)).map_values(short_of()),
                        LOST_PER_PASS as int,
                    ),
                decreases s.len() - i,
            {
                let e = entries[i];
                proof {
                    let t = s.take(i as int);
                    assert(s.take(i + 1) =~= t.push(e));
                    t.lemma_filter_push(e, lost_router(limit));
                    let m = t.filter(lost_router(limit)).map_values(short_of());
                    assert(t.filter(lost_router(limit)).push(e).map_values(short_of()) =~= m.push(e.short));
                    crate::nwk::relay::lemma_at_most_push(m, e.short, LOST_PER_PASS as int);
                }
                if e.is_router() && e.outgoing_cost == 0 && e.age > limit {
                    if lost.len() < LOST_PER_PASS {
                        lost.push(e.short);
                    }
                }
                i = i + 1;
            }
            assert(s.take(i as int) =~= s);
        }
        out.push(NwkTimerOutput::SendLinkStatus);
        let mut k: usize = 0;
        while k < lost.len()
            invariant
                k <= lost@.len(),
                out@ == seq![NwkTimerOutput::SendLinkStatus] + lost@.take(k as int).map_values(route_lost()),
            decreases lost@.len() - k,
        {
            out.push(NwkTimerOutput::RouteLost(lost[k]));
            assert(lost@.take(k + 1) =~= lost@.take(k as int).push(lost@[k as int]));
            assert(lost@.take(k + 1).map_values(route_lost()) =~= lost@.take(k as int).map_values(route_lost()).push(
                NwkTimerOutput::RouteLost(lost@[k as int]),
            ));
            assert(out@ =~= seq![NwkTimerOutput::SendLinkStatus] + lost@.take(k + 1).map_values(route_lost()));
            k = k + 1;
        }
        assert(lost@.take(k as int) =~= lost@);
        out.push(NwkTimerOutput::UpdateBeaconPayload);
        self.link_status_due = Some(now.plus(self.nib.link_status_period).plus(Duration::from_millis(jitter_ms)));
        proof {
            let v = old(self)@.link_status_step(now, jitter_ms);
            assert(out@ =~= v.1);
        }
        out
    }

    fn child_aging_step(&mut self, now: Instant) -> (out: Vec<NwkTimerOutput>)
        requires
            old(self).wf(),
        ensures
            final(self).wf(),
            (final(self)@, out@) == old(self)@.child_aging_step(now),
    {
        let mut out: Vec<NwkTimerOutput> = Vec::new();
        let ms = now.saturating_duration_since(self.child_age_last).as_millis();
        let secs = ms / 1000;
        if secs < 1 {
            return out;
        }
        let e: u32 = if secs > 0xFFFF_FFFFu64 { u32::MAX } else { secs as u32 };
        self.child_age_last = now;
        let ghost s0 = self@.neighbors;
        let mut expired: Vec<ExtendedAddress> = Vec::new();
        self.neighbors.age_children::<8>(e, &mut expired);
        proof {
            s0.lemma_filter_len(survives(e));
        }
        let ghost map0 = self@.address_map;
        assert(expired@.skip(0) =~= expired@);
        assert(self@.neighbors.len() <= NB);
        let ghost v1 = self@;
        let mut k: usize = 0;
        while k < expired.len()
            invariant
                k <= expired@.len(),
                self@ == (NwkStateView { address_map: self@.address_map, ..v1 }),
                self.neighbors.wf(),
                self.broadcasts.wf(),
                self.scanning.wf(),
                self.joining_list.wf(),
                remove_all(map0, expired@) == remove_all(self@.address_map, expired@.skip(k as int)),
                self@.address_map.len() <= map0.len(),
                map0.len() <= AM,
                out@ == expired@.take(k as int).map_values(child_removed()),
            decreases expired@.len() - k,
        {
            let d = expired[k];
            let ghost cur = self@.address_map;
            self.address_map.remove_extended(d);
            proof {
                cur.lemma_filter_len(not_for(d));
                assert(expired@.skip(k as int)[0] == d);
                assert(expired@.skip(k as int).drop_first() =~= expired@.skip(k + 1));
            }
            out.push(NwkTimerOutput::ChildRemoved(d));
            assert(expired@.take(k + 1) =~= expired@.take(k as int).push(d));
            assert(out@ =~= expired@.take(k + 1).map_values(child_removed()));
            k = k + 1;
        }
        assert(expired@.skip(k as int) =~= Seq::<ExtendedAddress>::empty());
        assert(expired@.take(k as int) =~= expired@);
        proof {
            crate::nwk::neighbor::lemma_first_match(self@.neighbors, is_parent_entry());
        }
        if self.nib.is_end_device() && self.nib.joined {
            if self.neighbors.tick_parent_timeout(e) {
                out.push(NwkTimerOutput::ParentLinkFailure);
            }
        }
        assert(self@.neighbors.len() <= NB);
        proof {
            let v = old(self)@.child_aging_step(now);
            assert(out@ =~= v.1);
        }
        out
    }

    fn keepalive_step(&mut self, now: Instant) -> (out: Vec<NwkTimerOutput>)
        requires
            old(self).wf(),
        ensures
            final(self).wf(),
            (final(self)@, out@) == old(self)@.keepalive_step(now),
    {
        let mut out: Vec<NwkTimerOutput> = Vec::new();
        let due = match self.keepalive_due {
            Some(t) => now.has_reached(t),
            None => false,
        };
        if !(self.nib.is_end_device() && self.nib.authenticated && due) {
            return out;
        }
        let secs = match self.nib.end_device_timeout.seconds() {
            Some(s) => s,
            None => DEFAULT_KEEPALIVE_TIMEOUT_SECS,
        };
        let period: u32 = if secs / 3 >= 1 { secs / 3 } else { 1 };
        self.keepalive_due = Some(now.plus(Duration::from_millis(period as u64 * 1000)));
        if self.nib.parent_information.mac_data_poll_keepalive() {
            out.push(NwkTimerOutput::KeepalivePoll);
        } else if self.nib.parent_information.timeout_request_keepalive() {
            out.push(NwkTimerOutput::KeepaliveTimeoutRequest);
        }
        proof {
            crate::nwk::neighbor::lemma_first_match(self@.neighbors, is_parent_entry());
        }
        self.neighbors.refresh_parent_timeout();
        assert(self@.neighbors.len() <= NB);
        proof {
            let v = old(self)@.keepalive_step(now);
            assert(out@ =~= v.1);
        }
        out
    }

    fn timeout_request_step(&mut self, now: Instant) -> (out: Vec<NwkTimerOutput>)
        requires
            old(self).wf(),
        ensures
            final(self).wf(),
            (final(self)@, out@) == old(self)@.timeout_request_step(now),
    {
        let mut out: Vec<NwkTimerOutput> = Vec::new();
        if let Some(t) = self.timeout_request_deadline {
            if now.has_reached(t) {
                self.timeout_request_deadline = None;
                if self.nib.parent_information.timeout_request_keepalive() {
                    out.push(NwkTimerOutput::ParentLinkFailure);
                }
                proof {
                    let v = old(self)@.timeout_request_step(now);
                    assert(out@ =~= v.1);
                }
            }
        }
        out
    }

    /// Leaves the network without rejoin (see [`NwkStateView::left`]).
    pub fn leave_locally(&mut self)
        requires
            old(self).wf(),
        ensures
            final(self).wf(),
            final(self)@ == old(self)@.left(),
    {
        self.join = None;
        self.permit_until = None;
        self.link_status_due = None;
        self.operating_since = None;
        self.keepalive_due = None;
        self.neighbors.clear();
        self.address_map.clear();
        self.nib.clear_for_leave();
        self.broadcasts.btt.clear();
        self.broadcasts.bufs.clear();
        assert(crate::nwk::relay::buf_views(self.broadcasts.bufs@) =~= Seq::<BroadcastBufView>::empty());
    }

    fn join_service(&mut self, now: Instant) -> (out: Vec<NwkTimerOutput>)
        requires
            old(self).wf(),
        ensures
            final(self).wf(),
            old(self)@.join_serviced(now, final(self)@, out@),
    {
        let mut out: Vec<NwkTimerOutput> = Vec::new();
        let (phase, rx_on) = match &self.join {
            Some(j) => (j.phase, j.params.capability.rx_on_when_idle()),
            None => {
                return out;
            },
        };
        match phase {
            JoinPhase::AwaitingResponse { deadline, polled } => {
                if now.has_reached(deadline) {
                    let st = self.try_next_parent();
                    match st {
                        Some(s) => {
                            out.push(NwkTimerOutput::JoinStep(s));
                            assert(out@ =~= seq![NwkTimerOutput::JoinStep(s)]);
                        },
                        None => {},
                    }
                } else if !polled && !rx_on && deadline.0 - now.0 <= response_wait_time().0 / 2 {
                    match self.join.take() {
                        Some(mut j) => {
                            j.phase = JoinPhase::AwaitingResponse { deadline, polled: true };
                            self.join = Some(j);
                        },
                        None => {},
                    }
                    out.push(NwkTimerOutput::PollParent);
                    assert(out@ =~= seq![NwkTimerOutput::PollParent]);
                }
            },
            JoinPhase::AwaitingKey { deadline } => {
                if now.has_reached(deadline) {
                    self.leave_locally();
                    out.push(NwkTimerOutput::AuthenticationTimeout);
                    assert(out@ =~= seq![NwkTimerOutput::AuthenticationTimeout]);
                }
            },
            _ => {},
        }
        out
    }

    /// Advances time to `now` and runs every timer that fell due (see
    /// [`NwkStateView::timers_before_join`] and
    /// [`NwkStateView::join_serviced`]); `jitter_ms` is the random delay
    /// added to the next link status period. Time never runs backwards:
    /// an earlier `now` changes nothing. The timers of unicast
    /// retransmission, route discovery, broadcasts, PAN identifier
    /// updates and power negotiation are run by their own steps.
    pub fn poll_timers(&mut self, now: Instant, jitter_ms: u64) -> (out: Vec<NwkTimerOutput>)
        requires
            old(self).wf(),
            jitter_ms <= MAX_LINK_STATUS_JITTER_MS,
        ensures
            final(self).wf(),
            now.0 < old(self).now.0 ==> out@ == Seq::<NwkTimerOutput>::empty() && final(self)@ == old(self)@,
            now.0 >= old(self).now.0 ==> {
                let (v, o) = old(self)@.timers_before_join(now, jitter_ms);
                &&& o.len() <= out@.len()
                &&& out@.take(o.len() as int) == o
                &&& v.join_serviced(now, final(self)@, out@.skip(o.len() as int))
            },
    {
        if now.0 < self.now.0 {
            return Vec::new();
        }
        self.now = now;
        let mut out = self.permit_step(now);
        let mut o2 = self.link_status_step(now, jitter_ms);
        out.append(&mut o2);
        let mut o3 = self.child_aging_step(now);
        out.append(&mut o3);
        let mut o4 = self.keepalive_step(now);
        out.append(&mut o4);
        let mut o5 = self.timeout_request_step(now);
        out.append(&mut o5);
        let ghost before = out@;
        let mut o6 = self.join_service(now);
        let ghost rest = o6@;
        out.append(&mut o6);
        proof {
            let (v, o) = old(self)@.timers_before_join(now, jitter_ms);
            assert(before =~= o);
            assert(out@.take(o.len() as int) =~= o);
            assert(out@.skip(o.len() as int) =~= rest);
        }
        out
    }
}

} // verus!
