//! Neighbor table and link cost estimation.
//!
//! The table holds at most `N` entries. Eviction never removes children
//! or the parent: stale router neighbors (age beyond the router age limit)
//! are the only candidates.
use vstd::prelude::*;

use crate::nwk::command::TimeoutIndex;
use crate::types::{ExtendedAddress, LogicalDeviceType, ShortAddress};

verus! {

/// Relationship between the local device and a neighbor.
#[derive(Clone, Copy, PartialEq, Eq, Hash, Debug, Structural)]
pub enum Relationship {
    /// The neighbor is the parent (0x00).
    Parent,
    /// The neighbor is a child (0x01).
    Child,
    /// Sibling router (0x02).
    Sibling,
    /// None of the above (0x03).
    NoRelation,
    /// Previous child (0x04).
    PreviousChild,
    /// Unauthenticated child (0x05).
    UnauthenticatedChild,
    /// Unauthorized child with relay allowed (0x06).
    UnauthorizedChildRelayAllowed,
    /// Lost child (0x07).
    LostChild,
    /// Child with address conflict (0x08).
    ChildAddressConflict,
    /// Backbone mesh sibling (0x09).
    BackboneMeshSibling,
}

impl Relationship {
    /// Wire value of a relationship.
    pub open spec fn spec_raw(self) -> u8 {
        match self {
            Relationship::Parent => 0,
            Relationship::Child => 1,
            Relationship::Sibling => 2,
            Relationship::NoRelation => 3,
            Relationship::PreviousChild => 4,
            Relationship::UnauthenticatedChild => 5,
            Relationship::UnauthorizedChildRelayAllowed => 6,
            Relationship::LostChild => 7,
            Relationship::ChildAddressConflict => 8,
            Relationship::BackboneMeshSibling => 9,
        }
    }

    /// Any child relationship, authenticated or not.
    pub open spec fn spec_is_child(self) -> bool {
        self is Child || self is UnauthenticatedChild || self is UnauthorizedChildRelayAllowed
            || self is ChildAddressConflict
    }

    /// Wire/ZDP value.
    pub fn raw(self) -> (v: u8)
        ensures
            v == self.spec_raw(),
    {
        match self {
            Relationship::Parent => 0,
            Relationship::Child => 1,
            Relationship::Sibling => 2,
            Relationship::NoRelation => 3,
            Relationship::PreviousChild => 4,
            Relationship::UnauthenticatedChild => 5,
            Relationship::UnauthorizedChildRelayAllowed => 6,
            Relationship::LostChild => 7,
            Relationship::ChildAddressConflict => 8,
            Relationship::BackboneMeshSibling => 9,
        }
    }

    /// True for any child relationship (authenticated or not).
    pub fn is_child(self) -> (b: bool)
        ensures
            b == self.spec_is_child(),
    {
        match self {
            Relationship::Child
            | Relationship::UnauthenticatedChild
            | Relationship::UnauthorizedChildRelayAllowed
            | Relationship::ChildAddressConflict => true,
            _ => false,
        }
    }

    /// True for an authenticated child.
    pub fn is_authenticated_child(self) -> (b: bool)
        ensures
            b == (self is Child),
    {
        match self {
            Relationship::Child => true,
            _ => false,
        }
    }
}

/// Link cost of an LQA value: 1 for the best links, rising to 7 for the
/// worst.
pub open spec fn spec_link_cost(lqa: u8) -> u8 {
    if lqa >= 193 {
        1
    } else if lqa >= 129 {
        2
    } else if lqa >= 97 {
        3
    } else if lqa >= 65 {
        4
    } else if lqa >= 33 {
        5
    } else if lqa >= 17 {
        6
    } else {
        7
    }
}

/// Maps an LQA/LQI value to a link cost.
pub fn link_cost_from_lqa(lqa: u8) -> (c: u8)
    ensures
        c == spec_link_cost(lqa),
        1 <= c <= 7,
{
    if lqa >= 193 {
        1
    } else if lqa >= 129 {
        2
    } else if lqa >= 97 {
        3
    } else if lqa >= 65 {
        4
    } else if lqa >= 33 {
        5
    } else if lqa >= 17 {
        6
    } else {
        7
    }
}

/// A better link never costs more: the cost does not rise as the LQA
/// rises.
pub proof fn lemma_link_cost_monotonic(a: u8, b: u8)
    requires
        a <= b,
    ensures
        spec_link_cost(b) <= spec_link_cost(a),
{
}

/// The median of three values.
pub open spec fn median3(a: u8, b: u8, c: u8) -> u8 {
    let lo = if a <= b { a } else { b };
    let hi = if a <= b { b } else { a };
    if c <= lo {
        lo
    } else if c >= hi {
        hi
    } else {
        c
    }
}

/// The median of three values is one of them, and no more than one of
/// them lies strictly on either side of it.
pub proof fn lemma_median3(a: u8, b: u8, c: u8)
    ensures
        ({
            let m = median3(a, b, c);
            &&& (m == a || m == b || m == c)
            &&& (if a < m { 1int } else { 0 }) + (if b < m { 1int } else { 0 }) + (if c < m { 1int } else { 0 }) <= 1
            &&& (if a > m { 1int } else { 0 }) + (if b > m { 1int } else { 0 }) + (if c > m { 1int } else { 0 }) <= 1
        }),
{
}

/// Link costs lie in 1..=7 and never grow with a better LQA: the best
/// links (LQA 193 and up) cost 1 and the worst (below 17) cost 7.
pub proof fn lemma_link_cost_monotone(a: u8, b: u8)
    ensures
        1 <= spec_link_cost(a) <= 7,
        a <= b ==> spec_link_cost(b) <= spec_link_cost(a),
        a >= 193 ==> spec_link_cost(a) == 1,
        a < 17 ==> spec_link_cost(a) == 7,
{
}

/// The LQA thresholds of the link cost table (Zigbee Table 3-76): a cost
/// of at most 1 needs LQA 193, at most 2 needs 129, at most 3 needs 97,
/// at most 4 needs 65, at most 5 needs 33, at most 6 needs 17.
pub proof fn lemma_link_cost_thresholds(a: u8)
    ensures
        spec_link_cost(a) <= 1 <==> a >= 193,
        spec_link_cost(a) <= 2 <==> a >= 129,
        spec_link_cost(a) <= 3 <==> a >= 97,
        spec_link_cost(a) <= 4 <==> a >= 65,
        spec_link_cost(a) <= 5 <==> a >= 33,
        spec_link_cost(a) <= 6 <==> a >= 17,
{
}

/// Median-of-three LQA filter.
#[derive(Clone, Copy, Debug, PartialEq, Eq, Structural)]
pub struct LqaFilter {
    s0: u8,
    s1: u8,
    s2: u8,
    count: u8,
    next: u8,
}

impl LqaFilter {
    /// The filter's stored samples.
    pub closed spec fn samples(self) -> Seq<u8> {
        seq![self.s0, self.s1, self.s2]
    }

    /// Number of valid samples.
    pub closed spec fn spec_count(self) -> u8 {
        self.count
    }

    /// Slot the next sample is written to.
    pub closed spec fn spec_next(self) -> u8 {
        self.next
    }

    /// At most three samples, the write slot in range, and while fewer
    /// than three samples were taken they fill the first slots in order.
    #[verifier::type_invariant]
    closed spec fn inv(self) -> bool {
        &&& self.count <= 3
        &&& self.next < 3
        &&& self.count < 3 ==> self.next == self.count
    }

    /// The filter `new(first)` makes.
    pub closed spec fn spec_new(first: u8) -> LqaFilter {
        LqaFilter { s0: first, s1: 0, s2: 0, count: 1, next: 1 }
    }

    /// The filter after `push(lqa)`.
    pub closed spec fn spec_push(self, lqa: u8) -> LqaFilter {
        LqaFilter {
            s0: if self.next == 0 { lqa } else { self.s0 },
            s1: if self.next == 1 { lqa } else { self.s1 },
            s2: if self.next == 2 { lqa } else { self.s2 },
            count: if self.count < 3 { (self.count + 1) as u8 } else { 3 },
            next: ((self.next + 1) % 3) as u8,
        }
    }

    /// The sample in slot `i`.
    closed spec fn slot(self, i: int) -> u8 {
        if i == 0 {
            self.s0
        } else if i == 1 {
            self.s1
        } else {
            self.s2
        }
    }

    /// Three sample slots, at most three samples, the write slot in range,
    /// and while fewer than three samples were taken the write slot is
    /// the next free one.
    pub open spec fn shape_ok(self) -> bool {
        &&& self.samples().len() == 3
        &&& self.spec_count() <= 3
        &&& self.spec_next() < 3
        &&& self.spec_count() < 3 ==> self.spec_next() == self.spec_count()
    }

    /// The filtered value: 0 without samples, the sample itself for one,
    /// the lower of two, and the median of three.
    pub open spec fn spec_value(self) -> u8 {
        let s = self.samples();
        if self.spec_count() == 0 {
            0
        } else if self.spec_count() == 1 {
            s[0]
        } else if self.spec_count() == 2 {
            if s[0] <= s[1] { s[0] } else { s[1] }
        } else {
            median3(s[0], s[1], s[2])
        }
    }

    /// Filter with one initial sample.
    pub fn new(first: u8) -> (f: LqaFilter)
        ensures
            f == LqaFilter::spec_new(first),
            f.shape_ok(),
            f.spec_count() == 1,
            f.spec_next() == 1,
            f.samples()[0] == first,
            f.spec_value() == first,
    {
        LqaFilter { s0: first, s1: 0, s2: 0, count: 1, next: 1 }
    }

    /// Adds a sample, replacing the oldest once three are held.
    pub fn push(&mut self, lqa: u8)
        ensures
            *final(self) == old(self).spec_push(lqa),
            old(self).shape_ok(),
            final(self).shape_ok(),
            final(self).samples() == old(self).samples().update(old(self).spec_next() as int, lqa),
            final(self).spec_next() == (old(self).spec_next() + 1) % 3,
            final(self).spec_count() == if old(self).spec_count() < 3 { old(self).spec_count() + 1 } else { 3 },
    {
        proof {
            use_type_invariant(&*self);
        }
        let s0 = if self.next == 0 { lqa } else { self.s0 };
        let s1 = if self.next == 1 { lqa } else { self.s1 };
        let s2 = if self.next == 2 { lqa } else { self.s2 };
        let count = if self.count < 3 { self.count + 1 } else { 3 };
        *self = LqaFilter { s0, s1, s2, count, next: (self.next + 1) % 3 };
        assert(self.samples() =~= old(self).samples().update(old(self).spec_next() as int, lqa));
    }

    /// The filtered value: the median of the available samples.
    pub fn value(&self) -> (v: u8)
        ensures
            self.shape_ok(),
            v == self.spec_value(),
    {
        proof {
            use_type_invariant(self);
        }
        if self.count == 0 {
            0
        } else if self.count == 1 {
            self.s0
        } else if self.count == 2 {
            let a = self.s0;
            let b = self.s1;
            if a <= b { a } else { b }
        } else {
            let a = self.s0;
            let b = self.s1;
            let c = self.s2;
            let lo = if a <= b { a } else { b };
            let hi = if a <= b { b } else { a };
            if c <= lo {
                lo
            } else if c >= hi {
                hi
            } else {
                c
            }
        }
    }

    /// Number of valid samples.
    pub fn count(&self) -> (n: u8)
        ensures
            self.shape_ok(),
            n == self.spec_count(),
    {
        proof {
            use_type_invariant(self);
        }
        self.count
    }
}

/// Once three samples are held, a single outlying sample cannot move the
/// filtered value outside the range of the other two.
pub proof fn lemma_lqa_outlier_ignored(f: LqaFilter)
    requires
        f.spec_count() == 3,
    ensures
        ({
            let s = f.samples();
            let v = f.spec_value();
            &&& (v == s[0] || v == s[1] || v == s[2])
            &&& ((s[0] <= v && v <= s[1]) || (s[1] <= v && v <= s[0]) || (s[0] <= v && v <= s[2])
                || (s[2] <= v && v <= s[0]) || (s[1] <= v && v <= s[2]) || (s[2] <= v && v <= s[1]))
        }),
{
    let s = f.samples();
    lemma_median3(s[0], s[1], s[2]);
}

/// The filter built by `new(xs[0])` and then `push(xs[1])`, ...,
/// `push(xs[n - 1])`.
pub open spec fn lqa_run(xs: Seq<u8>) -> LqaFilter
    decreases xs.len(),
{
    if xs.len() <= 1 {
        LqaFilter::spec_new(xs[0])
    } else {
        lqa_run(xs.drop_last()).spec_push(xs.last())
    }
}

/// The value the filter gives after the samples `xs`: the sample itself
/// after one, the lower of two, and the median of the last three.
pub open spec fn filtered_lqa(xs: Seq<u8>) -> u8 {
    let n = xs.len() as int;
    if n == 1 {
        xs[0]
    } else if n == 2 {
        if xs[0] <= xs[1] {
            xs[0]
        } else {
            xs[1]
        }
    } else {
        median3(xs[n - 3], xs[n - 2], xs[n - 1])
    }
}

/// The median of three values does not depend on their order.
pub proof fn lemma_median3_rotations(a: u8, b: u8, c: u8)
    ensures
        median3(a, b, c) == median3(b, c, a),
        median3(a, b, c) == median3(c, a, b),
{
}

/// After `xs`, the filter holds `min(n, 3)` samples, writes slot `n % 3`
/// next, and each of the last three samples sits in slot `index % 3`.
proof fn lemma_lqa_run_slots(xs: Seq<u8>)
    requires
        xs.len() >= 1,
    ensures
        ({
            let f = lqa_run(xs);
            let n = xs.len() as int;
            &&& f.count == (if n < 3 { n } else { 3 })
            &&& f.next == n % 3
            &&& forall|j: int| n - 3 <= j < n && 0 <= j ==> #[trigger] f.slot(j % 3) == xs[j]
        }),
    decreases xs.len(),
{
    if xs.len() > 1 {
        let p = xs.drop_last();
        lemma_lqa_run_slots(p);
        let n = xs.len() as int;
        let f = lqa_run(xs);
        assert forall|j: int| n - 3 <= j < n && 0 <= j implies #[trigger] f.slot(j % 3) == xs[j] by {
            if j < n - 1 {
                assert(p[j] == xs[j]);
                assert(lqa_run(p).slot(j % 3) == p[j]);
            }
        }
    }
}

/// A run of samples through the filter gives the sample itself after
/// one, the lower of the two after two, and from then on the median of
/// the last three; so the value always lies between the lowest and the
/// highest of the last (at most) three samples.
pub proof fn lemma_lqa_run(xs: Seq<u8>)
    requires
        xs.len() >= 1,
    ensures
        lqa_run(xs).spec_value() == filtered_lqa(xs),
        lqa_run(xs).spec_count() == (if xs.len() < 3 { xs.len() as int } else { 3 }),
{
    lemma_lqa_run_slots(xs);
    let f = lqa_run(xs);
    let n = xs.len() as int;
    if n == 1 {
        assert(f.slot(0int % 3) == xs[0]);
    } else if n == 2 {
        assert(f.slot(0int % 3) == xs[0]);
        assert(f.slot(1int % 3) == xs[1]);
        assert(0int % 3 == 0 && 1int % 3 == 1);
    } else {
        assert(f.slot((n - 3) % 3) == xs[n - 3]);
        assert(f.slot((n - 2) % 3) == xs[n - 2]);
        assert(f.slot((n - 1) % 3) == xs[n - 1]);
        lemma_median3_rotations(xs[n - 3], xs[n - 2], xs[n - 1]);
    }
}

/// A neighbor table entry.
#[derive(Clone, Copy, Debug, PartialEq, Eq)]
pub struct NeighborEntry {
    /// Extended address.
    pub extended: ExtendedAddress,
    /// Network address.
    pub short: ShortAddress,
    /// Device type.
    pub device_type: LogicalDeviceType,
    /// Receiver on when idle.
    pub rx_on_when_idle: bool,
    /// End device configuration bitmask.
    pub end_device_configuration: u8,
    /// Remaining time in seconds before an end device child ages out.
    pub timeout_counter_secs: u32,
    /// Negotiated device timeout in seconds (end device children).
    pub device_timeout_secs: u32,
    /// Relationship.
    pub relationship: Relationship,
    /// Transmit failure counter.
    pub transmit_failure: u8,
    /// Filtered LQA.
    pub lqa: LqaFilter,
    /// Outgoing cost reported by the neighbor (0 = unknown).
    pub outgoing_cost: u8,
    /// Link-status periods since the last link status from this router.
    pub age: u8,
    /// A keepalive has been received since reboot (end device children).
    pub keepalive_received: bool,
    /// Link-status periods since this router entry was added (saturating).
    pub router_age: u16,
    /// Seconds an unauthenticated child (or, on a joiner, the parent) may
    /// remain before the entry is dropped; 0 = not armed.
    pub security_timer_secs: u16,
    /// Router connectivity metric.
    pub router_connectivity: u8,
    /// Router neighbor set diversity metric.
    pub router_neighbor_set_diversity: u8,
    /// Outbound activity counter.
    pub router_outbound_activity: u8,
    /// Inbound activity counter.
    pub router_inbound_activity: u8,
    /// The NWK key sequence number this neighbor last used.
    pub last_key_sequence: Option<u8>,
    /// RSSI of the last frame received from this neighbor, dBm.
    pub last_rssi_dbm: Option<i8>,
    /// The trusted link the neighbour is reached over instead of the
    /// radio.
    pub link: Option<u8>,
}

impl NeighborEntry {
    /// A router or the coordinator.
    pub open spec fn spec_is_router(self) -> bool {
        !(self.device_type is EndDevice)
    }

    /// Incoming link cost from the filtered LQA.
    pub open spec fn spec_incoming_cost(self) -> u8 {
        spec_link_cost(self.lqa.spec_value())
    }

    /// Cost used for path computations.
    pub open spec fn spec_path_cost(self) -> u8 {
        if self.outgoing_cost == 0 {
            7
        } else if self.spec_incoming_cost() >= self.outgoing_cost {
            self.spec_incoming_cost()
        } else {
            self.outgoing_cost
        }
    }

    /// The entry `new` makes.
    pub open spec fn spec_new(
        extended: ExtendedAddress,
        short: ShortAddress,
        device_type: LogicalDeviceType,
        rx_on_when_idle: bool,
        relationship: Relationship,
        lqa: u8,
    ) -> NeighborEntry {
        NeighborEntry {
            extended,
            short,
            device_type,
            rx_on_when_idle,
            end_device_configuration: 0,
            timeout_counter_secs: 0,
            device_timeout_secs: 0,
            relationship,
            transmit_failure: 0,
            lqa: LqaFilter::spec_new(lqa),
            outgoing_cost: 0,
            age: 0,
            keepalive_received: false,
            router_age: 0,
            security_timer_secs: 0,
            router_connectivity: 0,
            router_neighbor_set_diversity: 0,
            router_outbound_activity: 0,
            router_inbound_activity: 0,
            last_key_sequence: None,
            last_rssi_dbm: None,
            link: None,
        }
    }

    /// Creates an entry with the given identity and relationship; every
    /// counter starts at zero and nothing optional is known.
    pub fn new(
        extended: ExtendedAddress,
        short: ShortAddress,
        device_type: LogicalDeviceType,
        rx_on_when_idle: bool,
        relationship: Relationship,
        lqa: u8,
    ) -> (e: NeighborEntry)
        ensures
            e == NeighborEntry::spec_new(extended, short, device_type, rx_on_when_idle, relationship, lqa),
            e.extended == extended,
            e.short == short,
            e.device_type == device_type,
            e.rx_on_when_idle == rx_on_when_idle,
            e.relationship == relationship,
            e.lqa.shape_ok(),
            e.lqa.spec_count() == 1,
            e.lqa.spec_next() == 1,
            e.lqa.samples()[0] == lqa,
            e.lqa.spec_value() == lqa,
            e.end_device_configuration == 0,
            e.timeout_counter_secs == 0,
            e.device_timeout_secs == 0,
            e.transmit_failure == 0,
            e.outgoing_cost == 0,
            e.age == 0,
            !e.keepalive_received,
            e.router_age == 0,
            e.security_timer_secs == 0,
            e.router_connectivity == 0,
            e.router_neighbor_set_diversity == 0,
            e.router_outbound_activity == 0,
            e.router_inbound_activity == 0,
            e.last_key_sequence is None,
            e.last_rssi_dbm is None,
            e.link is None,
    {
        NeighborEntry {
            extended,
            short,
            device_type,
            rx_on_when_idle,
            end_device_configuration: 0,
            timeout_counter_secs: 0,
            device_timeout_secs: 0,
            relationship,
            transmit_failure: 0,
            lqa: LqaFilter::new(lqa),
            outgoing_cost: 0,
            age: 0,
            keepalive_received: false,
            router_age: 0,
            security_timer_secs: 0,
            router_connectivity: 0,
            router_neighbor_set_diversity: 0,
            router_outbound_activity: 0,
            router_inbound_activity: 0,
            last_key_sequence: None,
            last_rssi_dbm: None,
            link: None,
        }
    }

    /// Incoming link cost from the filtered LQA.
    pub fn incoming_cost(&self) -> (c: u8)
        ensures
            c == self.spec_incoming_cost(),
    {
        link_cost_from_lqa(self.lqa.value())
    }

    /// Cost used for path computations: the maximum of incoming and
    /// outgoing, or 7 when the outgoing cost is unknown.
    pub fn path_cost(&self) -> (c: u8)
        ensures
            c == self.spec_path_cost(),
    {
        if self.outgoing_cost == 0 {
            7
        } else {
            let i = self.incoming_cost();
            if i >= self.outgoing_cost { i } else { self.outgoing_cost }
        }
    }

    /// True for an end device.
    pub fn is_end_device(&self) -> (b: bool)
        ensures
            b == (self.device_type is EndDevice),
    {
        match self.device_type {
            LogicalDeviceType::EndDevice => true,
            _ => false,
        }
    }

    /// True for a router or the coordinator.
    pub fn is_router(&self) -> (b: bool)
        ensures
            b == self.spec_is_router(),
    {
        !self.is_end_device()
    }

    /// Sets the end device timeout from an enumeration value; an invalid
    /// value leaves the entry unchanged.
    pub fn set_timeout(&mut self, idx: TimeoutIndex)
        ensures
            match idx.spec_seconds() {
                Some(s) => *final(self) == (NeighborEntry { device_timeout_secs: s, timeout_counter_secs: s, ..*old(self) }),
                None => *final(self) == *old(self),
            },
    {
        if let Some(s) = idx.seconds() {
            self.device_timeout_secs = s;
            self.timeout_counter_secs = s;
        }
    }
}

/// Index of the first entry of `s` that satisfies `p`.
pub open spec fn first_match(s: Seq<NeighborEntry>, p: spec_fn(NeighborEntry) -> bool) -> Option<int>
    decreases s.len(),
{
    if s.len() == 0 {
        None
    } else if p(s[0]) {
        Some(0)
    } else {
        match first_match(s.drop_first(), p) {
            Some(i) => Some(i + 1),
            None => None,
        }
    }
}

/// `first_match` is the lowest index whose entry satisfies the predicate.
pub proof fn lemma_first_match(s: Seq<NeighborEntry>, p: spec_fn(NeighborEntry) -> bool)
    ensures
        match first_match(s, p) {
            Some(i) => 0 <= i < s.len() && p(s[i]) && forall|j: int| 0 <= j < i ==> !p(#[trigger] s[j]),
            None => forall|j: int| 0 <= j < s.len() ==> !p(#[trigger] s[j]),
        },
    decreases s.len(),
{
    if s.len() > 0 && !p(s[0]) {
        lemma_first_match(s.drop_first(), p);
        assert forall|j: int| 1 <= j < s.len() implies s[j] == s.drop_first()[j - 1] by {}
    }
}

/// The lowest index satisfying a predicate is what `first_match` gives.
pub proof fn lemma_first_match_at(s: Seq<NeighborEntry>, p: spec_fn(NeighborEntry) -> bool, i: int)
    requires
        0 <= i < s.len(),
        p(s[i]),
        forall|j: int| 0 <= j < i ==> !p(#[trigger] s[j]),
    ensures
        first_match(s, p) == Some(i),
{
    lemma_first_match(s, p);
    match first_match(s, p) {
        Some(k) => {
            if k < i {
                assert(!p(s[k]));
            } else if k > i {
                assert(!p(s[i]));
            }
        },
        None => {
            assert(!p(s[i]));
        },
    }
}

/// No index satisfying a predicate means `first_match` gives nothing.
pub proof fn lemma_first_match_none(s: Seq<NeighborEntry>, p: spec_fn(NeighborEntry) -> bool)
    requires
        forall|j: int| 0 <= j < s.len() ==> !p(#[trigger] s[j]),
    ensures
        first_match(s, p) is None,
{
    lemma_first_match(s, p);
    if let Some(k) = first_match(s, p) {
        assert(!p(s[k]));
    }
}

/// The entry has the given extended address.
pub open spec fn has_extended(addr: ExtendedAddress) -> spec_fn(NeighborEntry) -> bool {
    |e: NeighborEntry| e.extended == addr
}

/// The entry has the given network address.
pub open spec fn has_short(addr: ShortAddress) -> spec_fn(NeighborEntry) -> bool {
    |e: NeighborEntry| e.short == addr
}

/// The entry is the parent.
pub open spec fn is_parent_entry() -> spec_fn(NeighborEntry) -> bool {
    |e: NeighborEntry| e.relationship is Parent
}

/// The entry is a stale router that may be evicted: a router or
/// coordinator, older than the limit, neither parent nor child.
pub open spec fn evictable(router_age_limit: u8) -> spec_fn(NeighborEntry) -> bool {
    |e: NeighborEntry|
        e.spec_is_router() && e.age > router_age_limit && !(e.relationship is Parent)
            && !e.relationship.spec_is_child()
}

/// `s` with its element `i` removed by moving the last element into its
/// place.
pub open spec fn swap_removed(s: Seq<NeighborEntry>, i: int) -> Seq<NeighborEntry> {
    s.update(i, s.last()).drop_last()
}

/// `a + b`, saturating at `u32::MAX`.
pub open spec fn sat_add_u32(a: u32, b: int) -> u32 {
    if a + b > u32::MAX { u32::MAX } else { (a + b) as u32 }
}

/// Why an insertion failed.
#[derive(Clone, Copy, PartialEq, Eq, Debug, Structural)]
pub enum NeighborTableError {
    /// No free slot and nothing evictable.
    Full,
}

/// Neighbor table holding at most `N` entries.
#[derive(Clone, Debug)]
pub struct NeighborTable<const N: usize> {
    entries: Vec<NeighborEntry>,
    /// Entries added since start.
    pub added: u32,
    /// Entries removed since start.
    pub removed: u32,
    /// Router entries that went stale.
    pub stale: u32,
}

impl<const N: usize> View for NeighborTable<N> {
    type V = Seq<NeighborEntry>;

    closed spec fn view(&self) -> Seq<NeighborEntry> {
        self.entries@
    }
}

impl<const N: usize> NeighborTable<N> {
    /// The `added` counter.
    pub closed spec fn spec_added(&self) -> u32 {
        self.added
    }

    /// The `removed` counter.
    pub closed spec fn spec_removed(&self) -> u32 {
        self.removed
    }

    /// The `stale` counter.
    pub closed spec fn spec_stale(&self) -> u32 {
        self.stale
    }

    /// The table never holds more than its capacity.
    pub open spec fn wf(&self) -> bool {
        self@.len() <= N
    }

    /// Empty table.
    pub fn new() -> (t: Self)
        ensures
            t.wf(),
            t@ == Seq::<NeighborEntry>::empty(),
            t.spec_added() == 0,
            t.spec_removed() == 0,
            t.spec_stale() == 0,
    {
        NeighborTable { entries: Vec::new(), added: 0, removed: 0, stale: 0 }
    }

    /// Capacity.
    pub fn capacity(&self) -> (n: usize)
        ensures
            n == N,
    {
        N
    }

    /// Number of entries.
    pub fn len(&self) -> (n: usize)
        ensures
            n == self@.len(),
    {
        self.entries.len()
    }

    /// True when empty.
    pub fn is_empty(&self) -> (b: bool)
        ensures
            b == (self@.len() == 0),
    {
        self.entries.len() == 0
    }

    /// The entries, in table order.
    pub fn entries(&self) -> (v: &[NeighborEntry])
        ensures
            v@ == self@,
    {
        self.entries.as_slice()
    }

    /// Index of the first entry with extended address `addr`.
    fn position_extended(&self, addr: ExtendedAddress) -> (r: Option<usize>)
        ensures
            r matches Some(i) ==> first_match(self@, has_extended(addr)) == Some(i as int),
            r is None ==> first_match(self@, has_extended(addr)) is None,
    {
        let mut i: usize = 0;
        while i < self.entries.len()
            invariant
                i <= self@.len(),
                forall|j: int| 0 <= j < i ==> !has_extended(addr)(#[trigger] self@[j]),
            decreases self@.len() - i,
        {
            if self.entries[i].extended == addr {
                proof {
                    lemma_first_match_at(self@, has_extended(addr), i as int);
                }
                return Some(i);
            }
            i = i + 1;
        }
        proof {
            lemma_first_match_none(self@, has_extended(addr));
        }
        None
    }

    /// Index of the first entry with network address `addr`.
    fn position_short(&self, addr: ShortAddress) -> (r: Option<usize>)
        ensures
            r matches Some(i) ==> first_match(self@, has_short(addr)) == Some(i as int),
            r is None ==> first_match(self@, has_short(addr)) is None,
    {
        let mut i: usize = 0;
        while i < self.entries.len()
            invariant
                i <= self@.len(),
                forall|j: int| 0 <= j < i ==> !has_short(addr)(#[trigger] self@[j]),
            decreases self@.len() - i,
        {
            if self.entries[i].short == addr {
                proof {
                    lemma_first_match_at(self@, has_short(addr), i as int);
                }
                return Some(i);
            }
            i = i + 1;
        }
        proof {
            lemma_first_match_none(self@, has_short(addr));
        }
        None
    }

    /// Finds by extended address.
    pub fn by_extended(&self, addr: ExtendedAddress) -> (r: Option<&NeighborEntry>)
        ensures
            r == (match first_match(self@, has_extended(addr)) {
                Some(i) => Some(&self@[i]),
                None => None,
            }),
    {
        match self.position_extended(addr) {
            Some(i) => {
                proof {
                    lemma_first_match(self@, has_extended(addr));
                }
                Some(&self.entries[i])
            },
            None => None,
        }
    }

    /// Finds by short address.
    pub fn by_short(&self, addr: ShortAddress) -> (r: Option<&NeighborEntry>)
        ensures
            r == (match first_match(self@, has_short(addr)) {
                Some(i) => Some(&self@[i]),
                None => None,
            }),
    {
        match self.position_short(addr) {
            Some(i) => {
                proof {
                    lemma_first_match(self@, has_short(addr));
                }
                Some(&self.entries[i])
            },
            None => None,
        }
    }

    /// The parent entry, if any.
    pub fn parent(&self) -> (r: Option<&NeighborEntry>)
        ensures
            r == (match first_match(self@, is_parent_entry()) {
                Some(i) => Some(&self@[i]),
                None => None,
            }),
    {
        let mut i: usize = 0;
        while i < self.entries.len()
            invariant
                i <= self@.len(),
                forall|j: int| 0 <= j < i ==> !is_parent_entry()(#[trigger] self@[j]),
            decreases self@.len() - i,
        {
            if matches!(self.entries[i].relationship, Relationship::Parent) {
                proof {
                    lemma_first_match_at(self@, is_parent_entry(), i as int);
                }
                return Some(&self.entries[i]);
            }
            i = i + 1;
        }
        proof {
            lemma_first_match_none(self@, is_parent_entry());
        }
        None
    }

    /// Finds by extended address (mutable); the counters are unaffected.
    pub fn by_extended_mut(&mut self, addr: ExtendedAddress) -> (r: Option<&mut NeighborEntry>)
        ensures
            match first_match(old(self)@, has_extended(addr)) {
                Some(i) => r is Some && *r->0 == old(self)@[i] && final(self)@ == old(self)@.update(i, *final(r->0)),
                None => r is None && final(self)@ == old(self)@,
            },
            final(self).spec_added() == old(self).spec_added(),
            final(self).spec_removed() == old(self).spec_removed(),
            final(self).spec_stale() == old(self).spec_stale(),
    {
        match self.position_extended(addr) {
            Some(i) => {
                proof {
                    lemma_first_match(self@, has_extended(addr));
                }
                Some(&mut self.entries[i])
            },
            None => None,
        }
    }

    /// Finds by short address (mutable); the counters are unaffected.
    pub fn by_short_mut(&mut self, addr: ShortAddress) -> (r: Option<&mut NeighborEntry>)
        ensures
            match first_match(old(self)@, has_short(addr)) {
                Some(i) => r is Some && *r->0 == old(self)@[i] && final(self)@ == old(self)@.update(i, *final(r->0)),
                None => r is None && final(self)@ == old(self)@,
            },
            final(self).spec_added() == old(self).spec_added(),
            final(self).spec_removed() == old(self).spec_removed(),
            final(self).spec_stale() == old(self).spec_stale(),
    {
        match self.position_short(addr) {
            Some(i) => {
                proof {
                    lemma_first_match(self@, has_short(addr));
                }
                Some(&mut self.entries[i])
            },
            None => None,
        }
    }

    /// Index of the first evictable entry.
    fn position_evictable(&self, router_age_limit: u8) -> (r: Option<usize>)
        ensures
            r matches Some(i) ==> first_match(self@, evictable(router_age_limit)) == Some(i as int),
            r is None ==> first_match(self@, evictable(router_age_limit)) is None,
    {
        let mut i: usize = 0;
        while i < self.entries.len()
            invariant
                i <= self@.len(),
                forall|j: int| 0 <= j < i ==> !evictable(router_age_limit)(#[trigger] self@[j]),
            decreases self@.len() - i,
        {
            let e = &self.entries[i];
            if e.is_router() && e.age > router_age_limit && !matches!(e.relationship, Relationship::Parent)
                && !e.relationship.is_child() {
                proof {
                    lemma_first_match_at(self@, evictable(router_age_limit), i as int);
                }
                return Some(i);
            }
            i = i + 1;
        }
        proof {
            lemma_first_match_none(self@, evictable(router_age_limit));
        }
        None
    }

    /// Inserts or replaces the entry with the same extended address. When
    /// the table is full, the first stale router entry (age beyond
    /// `router_age_limit`, neither parent nor child) is evicted; with none
    /// the insertion fails with [`NeighborTableError::Full`] and the table
    /// is unchanged.
    pub fn insert(&mut self, entry: NeighborEntry, router_age_limit: u8) -> (r: Result<&mut NeighborEntry, NeighborTableError>)
        requires
            old(self).wf(),
        ensures
            final(self).wf(),
            match spec_insert_slot(old(self)@, entry, router_age_limit, N as int) {
                Some((t, k)) => {
                    &&& r is Ok
                    &&& *r->Ok_0 == entry
                    &&& final(self)@ == t.update(k, *final(r->Ok_0))
                    &&& final(self).spec_added() == if first_match(old(self)@, has_extended(entry.extended)) is Some {
                        old(self).spec_added()
                    } else {
                        sat_add_u32(old(self).spec_added(), 1)
                    }
                },
                None => r is Err && final(self)@ == old(self)@ && final(self).spec_added() == old(self).spec_added(),
            },
            final(self).spec_removed() == old(self).spec_removed(),
            final(self).spec_stale() == old(self).spec_stale(),
    {
        proof {
            lemma_first_match(self@, has_extended(entry.extended));
            lemma_first_match(self@, evictable(router_age_limit));
        }
        match self.position_extended(entry.extended) {
            Some(pos) => {
                self.entries.set(pos, entry);
                return Ok(&mut self.entries[pos]);
            },
            None => {},
        }
        if self.entries.len() >= N {
            match self.position_evictable(router_age_limit) {
                Some(v) => {
                    let _ = self.entries.swap_remove(v);
                },
                None => return Err(NeighborTableError::Full),
            }
        }
        self.entries.push(entry);
        self.added = self.added.saturating_add(1);
        let last = self.entries.len() - 1;
        Ok(&mut self.entries[last])
    }

    /// Removes the first entry with extended address `addr`, moving the
    /// last entry into its place.
    pub fn remove_extended(&mut self, addr: ExtendedAddress) -> (r: Option<NeighborEntry>)
        ensures
            match first_match(old(self)@, has_extended(addr)) {
                Some(i) => r == Some(old(self)@[i]) && final(self)@ == swap_removed(old(self)@, i)
                    && final(self).spec_removed() == sat_add_u32(old(self).spec_removed(), 1),
                None => r is None && final(self)@ == old(self)@ && final(self).spec_removed() == old(self).spec_removed(),
            },
            final(self).spec_added() == old(self).spec_added(),
            final(self).spec_stale() == old(self).spec_stale(),
    {
        match self.position_extended(addr) {
            Some(pos) => {
                proof {
                    lemma_first_match(self@, has_extended(addr));
                }
                self.removed = self.removed.saturating_add(1);
                Some(self.entries.swap_remove(pos))
            },
            None => None,
        }
    }

    /// Removes the first entry with network address `addr`, moving the
    /// last entry into its place.
    pub fn remove_short(&mut self, addr: ShortAddress) -> (r: Option<NeighborEntry>)
        ensures
            match first_match(old(self)@, has_short(addr)) {
                Some(i) => r == Some(old(self)@[i]) && final(self)@ == swap_removed(old(self)@, i)
                    && final(self).spec_removed() == sat_add_u32(old(self).spec_removed(), 1),
                None => r is None && final(self)@ == old(self)@ && final(self).spec_removed() == old(self).spec_removed(),
            },
            final(self).spec_added() == old(self).spec_added(),
            final(self).spec_stale() == old(self).spec_stale(),
    {
        match self.position_short(addr) {
            Some(pos) => {
                proof {
                    lemma_first_match(self@, has_short(addr));
                }
                self.removed = self.removed.saturating_add(1);
                Some(self.entries.swap_remove(pos))
            },
            None => None,
        }
    }

    /// Number of child entries (authenticated or not).
    pub fn child_count(&self) -> (n: usize)
        ensures
            n == self@.filter(is_child_entry()).len(),
    {
        let mut n: usize = 0;
        let mut i: usize = 0;
        while i < self.entries.len()
            invariant
                i <= self@.len(),
                n == self@.take(i as int).filter(is_child_entry()).len(),
                n <= i,
            decreases self@.len() - i,
        {
            proof {
                assert(self@.take(i + 1) =~= self@.take(i as int).push(self@[i as int]));
                self@.take(i as int).lemma_filter_push(self@[i as int], is_child_entry());
            }
            if self.entries[i].relationship.is_child() {
                n = n + 1;
            }
            i = i + 1;
        }
        assert(self@.take(i as int) =~= self@);
        n
    }

    /// Number of router children.
    pub fn router_child_count(&self) -> (n: usize)
        ensures
            n == self@.filter(is_router_child_entry()).len(),
    {
        let mut n: usize = 0;
        let mut i: usize = 0;
        while i < self.entries.len()
            invariant
                i <= self@.len(),
                n == self@.take(i as int).filter(is_router_child_entry()).len(),
                n <= i,
            decreases self@.len() - i,
        {
            proof {
                assert(self@.take(i + 1) =~= self@.take(i as int).push(self@[i as int]));
                self@.take(i as int).lemma_filter_push(self@[i as int], is_router_child_entry());
            }
            if self.entries[i].relationship.is_child() && self.entries[i].is_router() {
                n = n + 1;
            }
            i = i + 1;
        }
        assert(self@.take(i as int) =~= self@);
        n
    }

    /// The end device children, in table order.
    pub fn end_device_children(&self) -> (v: Vec<NeighborEntry>)
        ensures
            v@ == self@.filter(is_end_device_child_entry()),
    {
        let mut v: Vec<NeighborEntry> = Vec::new();
        let mut i: usize = 0;
        while i < self.entries.len()
            invariant
                i <= self@.len(),
                v@ == self@.take(i as int).filter(is_end_device_child_entry()),
            decreases self@.len() - i,
        {
            proof {
                assert(self@.take(i + 1) =~= self@.take(i as int).push(self@[i as int]));
                self@.take(i as int).lemma_filter_push(self@[i as int], is_end_device_child_entry());
            }
            if self.entries[i].relationship.is_child() && self.entries[i].is_end_device() {
                v.push(self.entries[i]);
            }
            i = i + 1;
        }
        assert(self@.take(i as int) =~= self@);
        v
    }

    /// The router neighbors (parent, siblings, router children), in table
    /// order.
    pub fn routers(&self) -> (v: Vec<NeighborEntry>)
        ensures
            v@ == self@.filter(is_router_entry()),
    {
        let mut v: Vec<NeighborEntry> = Vec::new();
        let mut i: usize = 0;
        while i < self.entries.len()
            invariant
                i <= self@.len(),
                v@ == self@.take(i as int).filter(is_router_entry()),
            decreases self@.len() - i,
        {
            proof {
                assert(self@.take(i + 1) =~= self@.take(i as int).push(self@[i as int]));
                self@.take(i as int).lemma_filter_push(self@[i as int], is_router_entry());
            }
            if self.entries[i].is_router() {
                v.push(self.entries[i]);
            }
            i = i + 1;
        }
        assert(self@.take(i as int) =~= self@);
        v
    }

    /// Applies one link status period: every router neighbor not reached
    /// over a trusted link ages by one period, and those beyond the limit
    /// lose their outgoing cost. Returns the number of entries that became
    /// stale during this tick.
    pub fn link_status_tick(&mut self, router_age_limit: u8) -> (n: usize)
        ensures
            final(self)@ == old(self)@.map_values(ticked_by(router_age_limit)),
            n == old(self)@.filter(turns_stale(router_age_limit)).len(),
            final(self).spec_stale() == sat_add_u32(old(self).spec_stale(), n as int),
            final(self).spec_added() == old(self).spec_added(),
            final(self).spec_removed() == old(self).spec_removed(),
    {
        let ghost s0 = self@;
        let mut n: usize = 0;
        let mut i: usize = 0;
        while i < self.entries.len()
            invariant
                self@.len() == s0.len(),
                i <= s0.len(),
                forall|j: int| 0 <= j < i ==> self@[j] == ticked(s0[j], router_age_limit),
                forall|j: int| i <= j < s0.len() ==> self@[j] == s0[j],
                n == s0.take(i as int).filter(turns_stale(router_age_limit)).len(),
                n <= i,
                self.added == old(self).added,
                self.removed == old(self).removed,
                self.stale == old(self).stale,
            decreases s0.len() - i,
        {
            proof {
                assert(s0.take(i + 1) =~= s0.take(i as int).push(s0[i as int]));
                s0.take(i as int).lemma_filter_push(s0[i as int], turns_stale(router_age_limit));
            }
            let mut e = self.entries[i];
            if e.is_router() && e.link.is_none() {
                e.age = e.age.saturating_add(1);
                e.router_age = e.router_age.saturating_add(1);
                e.router_outbound_activity = e.router_outbound_activity.saturating_sub(1);
                e.router_inbound_activity = e.router_inbound_activity.saturating_sub(1);
                if e.age > router_age_limit {
                    if e.outgoing_cost != 0 {
                        n = n + 1;
                    }
                    e.outgoing_cost = 0;
                }
            }
            self.entries.set(i, e);
            i = i + 1;
        }
        assert(s0.take(i as int) =~= s0);
        assert(self@ =~= s0.map_values(ticked_by(router_age_limit)));
        let add: u32 = if n > 0xFFFF_FFFFusize { u32::MAX } else { n as u32 };
        self.stale = self.stale.saturating_add(add);
        n
    }

    /// Removes the entries `pred` rejects, keeping the others in order.
    /// `pred` is asked once for each entry, in table order.
    pub fn retain<F: Fn(&NeighborEntry) -> bool>(&mut self, pred: F)
        requires
            forall|e: &NeighborEntry| pred.requires((e,)),
        ensures
            exists|d: Seq<bool>|
                #![trigger select(old(self)@, d)]
                d.len() == old(self)@.len() && (forall|i: int| 0 <= i < d.len() ==> pred.ensures((&old(self)@[i],), #[trigger] d[i]))
                    && final(self)@ == select(old(self)@, d),
            final(self)@.len() <= old(self)@.len(),
            final(self).spec_removed() == sat_add_u32(old(self).spec_removed(), old(self)@.len() - final(self)@.len()),
            final(self).spec_added() == old(self).spec_added(),
            final(self).spec_stale() == old(self).spec_stale(),
    {
        let ghost s0 = self@;
        let ghost mut d: Seq<bool> = Seq::empty();
        let mut kept: Vec<NeighborEntry> = Vec::new();
        let mut i: usize = 0;
        while i < self.entries.len()
            invariant
                self@ == s0,
                i <= s0.len(),
                d.len() == i,
                forall|j: int| 0 <= j < i ==> pred.ensures((&s0[j],), #[trigger] d[j]),
                forall|e: &NeighborEntry| pred.requires((e,)),
                kept@ == select(s0.take(i as int), d),
                kept@.len() <= i,
            decreases s0.len() - i,
        {
            let b = pred(&self.entries[i]);
            proof {
                let d1 = d.push(b);
                assert(s0.take(i + 1).drop_last() =~= s0.take(i as int));
                assert(d1.drop_last() =~= d);
                assert forall|j: int| 0 <= j < i + 1 implies pred.ensures((&s0[j],), #[trigger] d1[j]) by {
                    if j < i {
                        assert(d1[j] == d[j]);
                    }
                }
                d = d1;
            }
            if b {
                kept.push(self.entries[i]);
            }
            i = i + 1;
        }
        assert(s0.take(i as int) =~= s0);
        let before = self.entries.len();
        self.entries = kept;
        let gone = before - self.entries.len();
        let add: u32 = if gone > 0xFFFF_FFFFusize { u32::MAX } else { gone as u32 };
        self.removed = self.removed.saturating_add(add);
    }

    /// Applies `elapsed_secs` to child timeout counters and security
    /// timers. Children whose timer ran out are removed and their extended
    /// addresses appended to `expired`, which holds at most `M` addresses
    /// (those beyond are dropped); the removed counter grows by the number
    /// of entries removed. Nothing happens when no time elapsed.
    pub fn age_children<const M: usize>(&mut self, elapsed_secs: u32, expired: &mut Vec<ExtendedAddress>)
        requires
            old(expired)@.len() <= M,
        ensures
            elapsed_secs == 0 ==> final(self)@ == old(self)@ && final(expired)@ == old(expired)@
                && final(self).spec_removed() == old(self).spec_removed(),
            elapsed_secs != 0 ==> {
                &&& final(self)@ == old(self)@.filter(survives(elapsed_secs)).map_values(aged_by(elapsed_secs))
                &&& final(expired)@ == capped(
                    old(expired)@ + old(self)@.filter(expires(elapsed_secs)).map_values(extended_of()),
                    M as int,
                )
                &&& final(self).spec_removed() == sat_add_u32(old(self).spec_removed(), old(self)@.len() - final(self)@.len())
            },
            final(expired)@.len() <= M,
            final(self).spec_added() == old(self).spec_added(),
            final(self).spec_stale() == old(self).spec_stale(),
    {
        if elapsed_secs == 0 {
            return;
        }
        let secs16: u16 = if elapsed_secs > 0xFFFF { 0xFFFF } else { elapsed_secs as u16 };
        let ghost s0 = self@;
        let ghost x0 = expired@;
        let mut kept: Vec<NeighborEntry> = Vec::new();
        let mut i: usize = 0;
        while i < self.entries.len()
            invariant
                self@ == s0,
                i <= s0.len(),
                elapsed_secs != 0,
                secs16 == secs16_of(elapsed_secs),
                x0.len() <= M,
                kept@ == s0.take(i as int).filter(survives(elapsed_secs)).map_values(aged_by(elapsed_secs)),
                expired@ == capped(x0 + s0.take(i as int).filter(expires(elapsed_secs)).map_values(extended_of()), M as int),
                expired@.len() <= M,
                kept@.len() <= i,
            decreases s0.len() - i,
        {
            let e = self.entries[i];
            proof {
                let t = s0.take(i as int);
                assert(s0.take(i + 1) =~= t.push(e));
                t.lemma_filter_push(e, survives(elapsed_secs));
                t.lemma_filter_push(e, expires(elapsed_secs));
                assert(t.filter(survives(elapsed_secs)).push(e).map_values(aged_by(elapsed_secs))
                    =~= t.filter(survives(elapsed_secs)).map_values(aged_by(elapsed_secs)).push(aged(e, elapsed_secs)));
                let xs = t.filter(expires(elapsed_secs)).map_values(extended_of());
                assert(t.filter(expires(elapsed_secs)).push(e).map_values(extended_of()) =~= xs.push(e.extended));
                assert(x0 + xs.push(e.extended) =~= (x0 + xs).push(e.extended));
                lemma_capped_push(x0 + xs, e.extended, M as int);
            }
            let mut keep = true;
            if e.security_timer_secs != 0 {
                let remaining = e.security_timer_secs.saturating_sub(secs16);
                if remaining == 0 && (matches!(e.relationship, Relationship::UnauthenticatedChild) || matches!(
                    e.relationship,
                    Relationship::UnauthorizedChildRelayAllowed
                )) {
                    keep = false;
                }
            }
            if keep && e.relationship.is_authenticated_child() && e.is_end_device() {
                let remaining = e.timeout_counter_secs.saturating_sub(elapsed_secs);
                if remaining == 0 && e.device_timeout_secs != 0 {
                    keep = false;
                }
            }
            if keep {
                let mut a = e;
                a.security_timer_secs = a.security_timer_secs.saturating_sub(secs16);
                if a.relationship.is_authenticated_child() && a.is_end_device() {
                    a.timeout_counter_secs = a.timeout_counter_secs.saturating_sub(elapsed_secs);
                }
                kept.push(a);
            } else if expired.len() < M {
                expired.push(e.extended);
            }
            i = i + 1;
        }
        assert(s0.take(i as int) =~= s0);
        let before = self.entries.len();
        self.entries = kept;
        let gone = before - self.entries.len();
        let add: u32 = if gone > 0xFFFF_FFFFusize { u32::MAX } else { gone as u32 };
        self.removed = self.removed.saturating_add(add);
    }

    /// Index of the first entry with the extended address.
    pub fn find_extended(&self, addr: ExtendedAddress) -> (r: Option<usize>)
        ensures
            r matches Some(i) ==> first_match(self@, has_extended(addr)) == Some(i as int) && i < self@.len(),
            r is None ==> first_match(self@, has_extended(addr)) is None,
    {
        proof {
            lemma_first_match(self@, has_extended(addr));
        }
        self.position_extended(addr)
    }

    /// Index of the first entry with the network address.
    pub fn find_short(&self, addr: ShortAddress) -> (r: Option<usize>)
        ensures
            r matches Some(i) ==> first_match(self@, has_short(addr)) == Some(i as int) && i < self@.len(),
            r is None ==> first_match(self@, has_short(addr)) is None,
    {
        proof {
            lemma_first_match(self@, has_short(addr));
        }
        self.position_short(addr)
    }

    /// Replaces the entry at `index`.
    pub fn set_entry(&mut self, index: usize, e: NeighborEntry)
        requires
            index < old(self)@.len(),
        ensures
            final(self)@ == old(self)@.update(index as int, e),
            final(self).spec_added() == old(self).spec_added(),
            final(self).spec_removed() == old(self).spec_removed(),
            final(self).spec_stale() == old(self).spec_stale(),
    {
        self.entries.set(index, e);
    }

    fn position_parent(&self) -> (r: Option<usize>)
        ensures
            r matches Some(i) ==> first_match(self@, is_parent_entry()) == Some(i as int) && i < self@.len(),
            r is None ==> first_match(self@, is_parent_entry()) is None,
    {
        let mut i: usize = 0;
        while i < self.entries.len()
            invariant
                i <= self@.len(),
                forall|j: int| 0 <= j < i ==> !is_parent_entry()(#[trigger] self@[j]),
            decreases self@.len() - i,
        {
            if matches!(self.entries[i].relationship, Relationship::Parent) {
                proof {
                    lemma_first_match_at(self@, is_parent_entry(), i as int);
                }
                return Some(i);
            }
            i = i + 1;
        }
        proof {
            lemma_first_match_none(self@, is_parent_entry());
        }
        None
    }

    /// Counts `elapsed_secs` off the parent's timeout (an end device's
    /// view of its own timeout). When it runs out while a timeout is
    /// negotiated, the device assumes its parent aged it out: the counter
    /// starts over and `true` is returned.
    pub fn tick_parent_timeout(&mut self, elapsed_secs: u32) -> (aged_out: bool)
        ensures
            match first_match(old(self)@, is_parent_entry()) {
                Some(i) => {
                    let p = old(self)@[i];
                    let c = if p.timeout_counter_secs >= elapsed_secs {
                        (p.timeout_counter_secs - elapsed_secs) as u32
                    } else {
                        0u32
                    };
                    &&& aged_out == (c == 0 && p.device_timeout_secs != 0)
                    &&& final(self)@ == old(self)@.update(
                        i,
                        NeighborEntry { timeout_counter_secs: if aged_out { p.device_timeout_secs } else { c }, ..p },
                    )
                },
                None => !aged_out && final(self)@ == old(self)@,
            },
            final(self).spec_added() == old(self).spec_added(),
            final(self).spec_removed() == old(self).spec_removed(),
            final(self).spec_stale() == old(self).spec_stale(),
    {
        match self.position_parent() {
            Some(i) => {
                let mut p = self.entries[i];
                let c = p.timeout_counter_secs.saturating_sub(elapsed_secs);
                let aged = c == 0 && p.device_timeout_secs != 0;
                p.timeout_counter_secs = if aged { p.device_timeout_secs } else { c };
                self.entries.set(i, p);
                aged
            },
            None => false,
        }
    }

    /// Restarts the parent's timeout (after a keepalive).
    pub fn refresh_parent_timeout(&mut self)
        ensures
            match first_match(old(self)@, is_parent_entry()) {
                Some(i) => final(self)@ == old(self)@.update(
                    i,
                    NeighborEntry { timeout_counter_secs: old(self)@[i].device_timeout_secs, ..old(self)@[i] },
                ),
                None => final(self)@ == old(self)@,
            },
            final(self).spec_added() == old(self).spec_added(),
            final(self).spec_removed() == old(self).spec_removed(),
            final(self).spec_stale() == old(self).spec_stale(),
    {
        if let Some(i) = self.position_parent() {
            let mut p = self.entries[i];
            p.timeout_counter_secs = p.device_timeout_secs;
            self.entries.set(i, p);
        }
    }

    /// Clears the table; the counters are kept.
    pub fn clear(&mut self)
        ensures
            final(self)@ == Seq::<NeighborEntry>::empty(),
            final(self).spec_added() == old(self).spec_added(),
            final(self).spec_removed() == old(self).spec_removed(),
            final(self).spec_stale() == old(self).spec_stale(),
    {
        self.entries.clear();
    }
}

/// The entries after inserting `entry` into a table holding `s` with
/// capacity `cap`, with the index `entry` lands at; `None` when the table
/// is full and nothing can be evicted.
pub open spec fn spec_insert_slot(s: Seq<NeighborEntry>, entry: NeighborEntry, router_age_limit: u8, cap: int) -> Option<(Seq<NeighborEntry>, int)> {
    match first_match(s, has_extended(entry.extended)) {
        Some(p) => Some((s.update(p, entry), p)),
        None => if s.len() < cap {
            Some((s.push(entry), s.len() as int))
        } else {
            match first_match(s, evictable(router_age_limit)) {
                Some(v) => Some((swap_removed(s, v).push(entry), s.len() - 1)),
                None => None,
            }
        },
    }
}

/// The entry is a child (authenticated or not).
pub open spec fn is_child_entry() -> spec_fn(NeighborEntry) -> bool {
    |e: NeighborEntry| e.relationship.spec_is_child()
}

/// The entry is a child that routes.
pub open spec fn is_router_child_entry() -> spec_fn(NeighborEntry) -> bool {
    |e: NeighborEntry| e.relationship.spec_is_child() && e.spec_is_router()
}

/// The entry is an end device child.
pub open spec fn is_end_device_child_entry() -> spec_fn(NeighborEntry) -> bool {
    |e: NeighborEntry| e.relationship.spec_is_child() && e.device_type is EndDevice
}

/// The entry is a router or the coordinator.
pub open spec fn is_router_entry() -> spec_fn(NeighborEntry) -> bool {
    |e: NeighborEntry| e.spec_is_router()
}

/// The entries of `s` whose decision in `d` is `true`, in order.
pub open spec fn select(s: Seq<NeighborEntry>, d: Seq<bool>) -> Seq<NeighborEntry>
    decreases s.len(),
{
    if s.len() == 0 {
        s
    } else {
        let r = select(s.drop_last(), d.drop_last());
        if d.last() {
            r.push(s.last())
        } else {
            r
        }
    }
}

/// `a + b` saturating at `u8::MAX`.
pub open spec fn sat_add_u8(a: u8, b: u8) -> u8 {
    if a + b > u8::MAX { u8::MAX } else { (a + b) as u8 }
}

/// `a + b` saturating at `u16::MAX`.
pub open spec fn sat_add_u16(a: u16, b: u16) -> u16 {
    if a + b > u16::MAX { u16::MAX } else { (a + b) as u16 }
}

/// `a - b` saturating at zero.
pub open spec fn sat_sub_u8(a: u8, b: u8) -> u8 {
    if a >= b { (a - b) as u8 } else { 0 }
}

/// `a - b` saturating at zero.
pub open spec fn sat_sub_u16(a: u16, b: u16) -> u16 {
    if a >= b { (a - b) as u16 } else { 0 }
}

/// `a - b` saturating at zero.
pub open spec fn sat_sub_u32(a: u32, b: u32) -> u32 {
    if a >= b { (a - b) as u32 } else { 0 }
}

/// An entry after one link status period.
pub open spec fn ticked(e: NeighborEntry, router_age_limit: u8) -> NeighborEntry {
    if e.spec_is_router() && e.link is None {
        let age = sat_add_u8(e.age, 1);
        NeighborEntry {
            age,
            router_age: sat_add_u16(e.router_age, 1),
            router_outbound_activity: sat_sub_u8(e.router_outbound_activity, 1),
            router_inbound_activity: sat_sub_u8(e.router_inbound_activity, 1),
            outgoing_cost: if age > router_age_limit { 0 } else { e.outgoing_cost },
            ..e
        }
    } else {
        e
    }
}

/// The entry becomes stale during a link status period.
pub open spec fn turns_stale(router_age_limit: u8) -> spec_fn(NeighborEntry) -> bool {
    |e: NeighborEntry|
        e.spec_is_router() && e.link is None && sat_add_u8(e.age, 1) > router_age_limit && e.outgoing_cost != 0
}

/// [`ticked`] as a function.
pub open spec fn ticked_by(router_age_limit: u8) -> spec_fn(NeighborEntry) -> NeighborEntry {
    |e: NeighborEntry| ticked(e, router_age_limit)
}

/// [`aged`] as a function.
pub open spec fn aged_by(elapsed_secs: u32) -> spec_fn(NeighborEntry) -> NeighborEntry {
    |e: NeighborEntry| aged(e, elapsed_secs)
}

/// The extended address of an entry.
pub open spec fn extended_of() -> spec_fn(NeighborEntry) -> ExtendedAddress {
    |e: NeighborEntry| e.extended
}

/// The elapsed time applied to 16-bit security timers.
pub open spec fn secs16_of(elapsed_secs: u32) -> u16 {
    if elapsed_secs > 0xFFFF { 0xFFFF } else { elapsed_secs as u16 }
}

/// A child entry runs out within `elapsed_secs`: an unauthenticated or
/// unauthorized child whose security timer expires, or an authenticated
/// end device child whose (negotiated) timeout expires.
pub open spec fn child_expires(e: NeighborEntry, elapsed_secs: u32) -> bool {
    let security = e.security_timer_secs != 0 && sat_sub_u16(e.security_timer_secs, secs16_of(elapsed_secs)) == 0
        && (e.relationship is UnauthenticatedChild || e.relationship is UnauthorizedChildRelayAllowed);
    let timeout = e.relationship is Child && e.device_type is EndDevice
        && sat_sub_u32(e.timeout_counter_secs, elapsed_secs) == 0 && e.device_timeout_secs != 0;
    security || timeout
}

/// The entry runs out within `elapsed_secs`.
pub open spec fn expires(elapsed_secs: u32) -> spec_fn(NeighborEntry) -> bool {
    |e: NeighborEntry| child_expires(e, elapsed_secs)
}

/// The entry stays for `elapsed_secs`.
pub open spec fn survives(elapsed_secs: u32) -> spec_fn(NeighborEntry) -> bool {
    |e: NeighborEntry| !child_expires(e, elapsed_secs)
}

/// An entry after `elapsed_secs`: its security timer and, for an
/// authenticated end device child, its timeout counter run down.
pub open spec fn aged(e: NeighborEntry, elapsed_secs: u32) -> NeighborEntry {
    NeighborEntry {
        security_timer_secs: sat_sub_u16(e.security_timer_secs, secs16_of(elapsed_secs)),
        timeout_counter_secs: if e.relationship is Child && e.device_type is EndDevice {
            sat_sub_u32(e.timeout_counter_secs, elapsed_secs)
        } else {
            e.timeout_counter_secs
        },
        ..e
    }
}

/// The first `cap` elements of `s` (all of them when there are fewer).
pub open spec fn capped(s: Seq<ExtendedAddress>, cap: int) -> Seq<ExtendedAddress> {
    if s.len() <= cap { s } else { s.take(cap) }
}

/// Appending to a capped sequence adds the element only while below the
/// cap.
pub proof fn lemma_capped_push(s: Seq<ExtendedAddress>, x: ExtendedAddress, cap: int)
    requires
        0 <= cap,
    ensures
        capped(s.push(x), cap) == if capped(s, cap).len() < cap { capped(s, cap).push(x) } else { capped(s, cap) },
{
    if s.len() + 1 <= cap {
        assert(capped(s.push(x), cap) =~= capped(s, cap).push(x));
    } else if s.len() < cap {
        assert(s.len() + 1 == cap + 1);
        assert(capped(s.push(x), cap) =~= s);
    } else {
        assert(capped(s.push(x), cap) =~= s.take(cap));
    }
}

/// No two entries share an extended address.
pub open spec fn unique_extended(s: Seq<NeighborEntry>) -> bool {
    forall|i: int, j: int| 0 <= i < j < s.len() ==> s[i].extended != s[j].extended
}

/// Moving the last entry into a removed slot keeps the other entries and
/// adds none.
proof fn lemma_swap_removed(s: Seq<NeighborEntry>, v: int)
    requires
        0 <= v < s.len(),
    ensures
        swap_removed(s, v).len() == s.len() - 1,
        forall|j: int| 0 <= j < s.len() && j != v ==> swap_removed(s, v).contains(#[trigger] s[j]),
        forall|j: int| 0 <= j < s.len() - 1 ==> (#[trigger] swap_removed(s, v)[j] == if j == v { s.last() } else { s[j] }),
        unique_extended(s) ==> unique_extended(swap_removed(s, v)),
{
    let r = swap_removed(s, v);
    assert forall|j: int| 0 <= j < s.len() && j != v implies r.contains(#[trigger] s[j]) by {
        if j == s.len() - 1 {
            assert(r[v] == s[j]);
        } else {
            assert(r[j] == s[j]);
        }
    }
    if unique_extended(s) {
        assert forall|i: int, j: int| 0 <= i < j < r.len() implies r[i].extended != r[j].extended by {
            let a = if i == v { s.len() - 1 } else { i };
            let b = if j == v { s.len() - 1 } else { j };
            assert(r[i] == s[a] && r[j] == s[b]);
            if a < b {
                assert(s[a].extended != s[b].extended);
            } else {
                assert(s[b].extended != s[a].extended);
            }
        }
    }
}

/// Inserting into a table whose extended addresses are distinct keeps
/// them distinct, never grows it past its capacity, and a lookup by the
/// inserted entry's extended address then finds that entry.
pub proof fn lemma_insert_then_lookup(s: Seq<NeighborEntry>, entry: NeighborEntry, router_age_limit: u8, cap: int)
    requires
        unique_extended(s),
        s.len() <= cap,
        spec_insert_slot(s, entry, router_age_limit, cap) is Some,
    ensures
        ({
            let (t, k) = spec_insert_slot(s, entry, router_age_limit, cap)->0;
            &&& 0 <= k < t.len() <= cap
            &&& t[k] == entry
            &&& unique_extended(t)
            &&& first_match(t, has_extended(entry.extended)) == Some(k)
        }),
{
    let (t, k) = spec_insert_slot(s, entry, router_age_limit, cap)->0;
    lemma_first_match(s, has_extended(entry.extended));
    lemma_first_match(s, evictable(router_age_limit));
    match first_match(s, has_extended(entry.extended)) {
        Some(p) => {
            assert forall|i: int, j: int| 0 <= i < j < t.len() implies t[i].extended != t[j].extended by {
                assert(s[i].extended != s[j].extended);
            }
            assert forall|j: int| 0 <= j < k implies !has_extended(entry.extended)(#[trigger] t[j]) by {
                assert(s[j].extended != s[p].extended);
            }
            lemma_first_match_at(t, has_extended(entry.extended), k);
        },
        None => {
            let base = if s.len() < cap { s } else { swap_removed(s, first_match(s, evictable(router_age_limit))->0) };
            if s.len() >= cap {
                lemma_swap_removed(s, first_match(s, evictable(router_age_limit))->0);
            }
            assert(t == base.push(entry));
            assert forall|j: int| 0 <= j < base.len() implies !has_extended(entry.extended)(#[trigger] base[j]) by {
                if s.len() >= cap {
                    let v = first_match(s, evictable(router_age_limit))->0;
                    let a = if j == v { s.len() - 1 } else { j };
                    assert(base[j] == s[a]);
                    assert(!has_extended(entry.extended)(s[a]));
                } else {
                    assert(!has_extended(entry.extended)(s[j]));
                }
            }
            assert forall|i: int, j: int| 0 <= i < j < t.len() implies t[i].extended != t[j].extended by {
                if j == t.len() - 1 {
                    assert(!has_extended(entry.extended)(base[i]));
                } else {
                    assert(base[i].extended != base[j].extended);
                }
            }
            assert forall|j: int| 0 <= j < k implies !has_extended(entry.extended)(#[trigger] t[j]) by {
                assert(t[j] == base[j]);
            }
            lemma_first_match_at(t, has_extended(entry.extended), k);
        },
    }
}

/// Insertion never evicts the parent or a child: every such entry whose
/// extended address differs from the inserted one is still present.
pub proof fn lemma_insert_spares_parent_and_children(
    s: Seq<NeighborEntry>,
    entry: NeighborEntry,
    router_age_limit: u8,
    cap: int,
    i: int,
)
    requires
        0 <= i < s.len(),
        s[i].relationship is Parent || s[i].relationship.spec_is_child(),
        s[i].extended != entry.extended,
        spec_insert_slot(s, entry, router_age_limit, cap) is Some,
    ensures
        (spec_insert_slot(s, entry, router_age_limit, cap)->0).0.contains(s[i]),
{
    let (t, k) = spec_insert_slot(s, entry, router_age_limit, cap)->0;
    lemma_first_match(s, has_extended(entry.extended));
    lemma_first_match(s, evictable(router_age_limit));
    match first_match(s, has_extended(entry.extended)) {
        Some(p) => {
            assert(t[i] == s[i]);
        },
        None => {
            if s.len() < cap {
                assert(t[i] == s[i]);
            } else {
                let v = first_match(s, evictable(router_age_limit))->0;
                assert(v != i);
                lemma_swap_removed(s, v);
                let r = swap_removed(s, v);
                assert(r.contains(s[i]));
                let j = choose|j: int| 0 <= j < r.len() && r[j] == s[i];
                assert(t[j] == s[i]);
            }
        },
    }
}

/// The path cost of a link with a known outgoing cost is the larger of
/// its incoming and outgoing costs (it is at least each of them, and is
/// one of them); with the outgoing cost unknown (0) it is 7.
pub proof fn lemma_path_cost_is_max(e: NeighborEntry)
    ensures
        e.outgoing_cost != 0 ==> {
            &&& e.spec_path_cost() >= e.spec_incoming_cost()
            &&& e.spec_path_cost() >= e.outgoing_cost
            &&& (e.spec_path_cost() == e.spec_incoming_cost() || e.spec_path_cost() == e.outgoing_cost)
        },
        e.outgoing_cost == 0 ==> e.spec_path_cost() == 7,
        e.spec_incoming_cost() == spec_link_cost(e.lqa.spec_value()),
{
}

/// The neighbor relationship values of the NIB: parent 0, child 1,
/// sibling 2, none 3, previous child 4, unauthenticated child 5, relay
/// allowed 6, lost child 7, address conflict 8, backbone sibling 9.
pub proof fn lemma_relationship_wire_values()
    ensures
        Relationship::Parent.spec_raw() == 0,
        Relationship::Child.spec_raw() == 1,
        Relationship::Sibling.spec_raw() == 2,
        Relationship::NoRelation.spec_raw() == 3,
        Relationship::PreviousChild.spec_raw() == 4,
        Relationship::UnauthenticatedChild.spec_raw() == 5,
        Relationship::UnauthorizedChildRelayAllowed.spec_raw() == 6,
        Relationship::LostChild.spec_raw() == 7,
        Relationship::ChildAddressConflict.spec_raw() == 8,
        Relationship::BackboneMeshSibling.spec_raw() == 9,
{
}

} // verus!
