//! Joining, parent side: how a router or coordinator answers a Rejoin
//! Request or a Network Commissioning Request from a device that wants
//! to attach (or re-attach) as its child.
use vstd::prelude::*;

use crate::nwk::address_map::{allocate_stochastic, assignable, spec_extended_for, spec_record, AddressPair};
use crate::nwk::joining_list::JoiningPolicy;
use crate::nwk::layer::JoinMethod;
use crate::nwk::neighbor::{
    first_match, has_extended, has_short, is_child_entry, is_router_child_entry, spec_insert_slot, NeighborEntry,
    Relationship,
};
use crate::nwk::nib::Nib;
use crate::nwk::state::{Nwk, NwkStateView};
use crate::types::{ExtendedAddress, LogicalDeviceType, MacCapability, ShortAddress};

verus! {

/// Seconds an unauthenticated child may stay before the network key
/// reaches it.
pub const CHILD_SECURITY_TIMER_SECS: u16 = 10;

/// Status of an attach response.
#[derive(Clone, Copy, PartialEq, Eq, Debug, Structural)]
pub enum AttachStatus {
    /// Accepted (0x00).
    Success,
    /// No room for another child (0x01).
    PanAtCapacity,
    /// Not allowed to attach (0x02).
    PanAccessDenied,
    /// The requested address is taken: retry with the given one (0xF0,
    /// commissioning only).
    AddressConflict,
}

impl AttachStatus {
    /// The wire value.
    pub open spec fn spec_raw(self) -> u8 {
        match self {
            AttachStatus::Success => 0x00,
            AttachStatus::PanAtCapacity => 0x01,
            AttachStatus::PanAccessDenied => 0x02,
            AttachStatus::AddressConflict => 0xF0,
        }
    }

    /// The wire value.
    pub fn raw(self) -> (v: u8)
        ensures
            v == self.spec_raw(),
    {
        match self {
            AttachStatus::Success => 0x00,
            AttachStatus::PanAtCapacity => 0x01,
            AttachStatus::PanAccessDenied => 0x02,
            AttachStatus::AddressConflict => 0xF0,
        }
    }
}

/// What the parent does with an attach request.
#[derive(Clone, Copy, PartialEq, Eq, Debug, Structural)]
pub enum AttachDecision {
    /// The request is not answered.
    Ignore,
    /// Answer with a Commissioning Response (`commissioning`) or a Rejoin
    /// Response carrying `status` and `address`; on success `method` is
    /// how the child attached (for the join indication).
    Respond {
        /// Status.
        status: AttachStatus,
        /// Network address given in the response.
        address: ShortAddress,
        /// How the child attached, on success.
        method: Option<JoinMethod>,
        /// Answer with a Commissioning Response.
        commissioning: bool,
    },
}

/// How a device attaches, by the request it sent.
pub open spec fn spec_join_method(commissioning: bool, initial: bool, secured: bool) -> JoinMethod {
    if commissioning {
        if initial {
            JoinMethod::CommissioningJoin
        } else if secured {
            JoinMethod::CommissioningRejoinSecured
        } else {
            JoinMethod::CommissioningRejoinUnsecured
        }
    } else if secured {
        JoinMethod::RejoinSecured
    } else {
        JoinMethod::RejoinUnsecured
    }
}

/// A full function device (joins as a router).
pub open spec fn cap_router(c: MacCapability) -> bool {
    c.0 & 0x02 != 0
}

/// Receiver on when idle.
pub open spec fn cap_rx_on(c: MacCapability) -> bool {
    c.0 & 0x08 != 0
}

/// The address is taken locally: it is the device's own, a neighbor's, or
/// in the address map.
pub open spec fn address_in_use(nib: Nib, neighbors: Seq<NeighborEntry>, map: Seq<AddressPair>, s: ShortAddress) -> bool {
    s == nib.network_address || first_match(neighbors, has_short(s)) is Some || exists|i: int|
        0 <= i < map.len() && (#[trigger] map[i]).1 == s
}

/// `short` is used by a device other than `ext`.
pub open spec fn address_conflicts(
    nib: Nib,
    neighbors: Seq<NeighborEntry>,
    map: Seq<AddressPair>,
    short: ShortAddress,
    ext: ExtendedAddress,
) -> bool {
    short == nib.network_address || (first_match(neighbors, has_short(short)) matches Some(k) && neighbors[k].extended
        != ext) || (spec_extended_for(map, short) matches Some(e) && e != ext)
}

/// The first of the first 64 draws from index `i` on that is assignable
/// and not in use locally.
pub open spec fn first_free_address(
    draws: Seq<u16>,
    i: int,
    nib: Nib,
    neighbors: Seq<NeighborEntry>,
    map: Seq<AddressPair>,
) -> Option<ShortAddress>
    decreases 64 - i,
{
    if i < 0 || i >= 64 || i >= draws.len() {
        None
    } else if assignable(draws[i]) && !address_in_use(nib, neighbors, map, ShortAddress(draws[i])) {
        Some(ShortAddress(draws[i]))
    } else {
        first_free_address(draws, i + 1, nib, neighbors, map)
    }
}

proof fn lemma_first_free_at(
    draws: Seq<u16>,
    i: int,
    k: int,
    nib: Nib,
    neighbors: Seq<NeighborEntry>,
    map: Seq<AddressPair>,
)
    requires
        0 <= i <= k,
        k < 64,
        k < draws.len(),
        assignable(draws[k]) && !address_in_use(nib, neighbors, map, ShortAddress(draws[k])),
        forall|j: int|
            i <= j < k ==> !(assignable(#[trigger] draws[j]) && !address_in_use(nib, neighbors, map, ShortAddress(draws[j]))),
    ensures
        first_free_address(draws, i, nib, neighbors, map) == Some(ShortAddress(draws[k])),
    decreases k - i,
{
    if i < k {
        lemma_first_free_at(draws, i + 1, k, nib, neighbors, map);
    }
}

proof fn lemma_no_free(draws: Seq<u16>, i: int, nib: Nib, neighbors: Seq<NeighborEntry>, map: Seq<AddressPair>)
    requires
        0 <= i,
        forall|j: int|
            i <= j < 64 && j < draws.len() ==> !(assignable(#[trigger] draws[j]) && !address_in_use(
                nib,
                neighbors,
                map,
                ShortAddress(draws[j]),
            )),
    ensures
        first_free_address(draws, i, nib, neighbors, map) is None,
    decreases 64 - i,
{
    if i < 64 && i < draws.len() {
        lemma_no_free(draws, i + 1, nib, neighbors, map);
    }
}

/// The neighbor entry of an accepted child: a child (an unauthenticated
/// one, with the security timer armed, when the request was unsecured)
/// of the requested kind at the given address, keeping the timeout and
/// configuration of an entry it already had, else taking the default
/// timeout, with an outgoing cost of 1.
pub open spec fn spec_attach_entry(
    existing: Option<NeighborEntry>,
    device: ExtendedAddress,
    assigned: ShortAddress,
    capability: MacCapability,
    secured: bool,
    lqi: u8,
    nib: Nib,
) -> NeighborEntry {
    let base = NeighborEntry::spec_new(
        device,
        assigned,
        if cap_router(capability) {
            LogicalDeviceType::Router
        } else {
            LogicalDeviceType::EndDevice
        },
        cap_rx_on(capability),
        if secured {
            Relationship::Child
        } else {
            Relationship::UnauthenticatedChild
        },
        lqi,
    );
    let e1 = match existing {
        Some(o) => NeighborEntry {
            device_timeout_secs: o.device_timeout_secs,
            timeout_counter_secs: o.device_timeout_secs,
            end_device_configuration: o.end_device_configuration,
            ..base
        },
        None => base,
    };
    let e2 = if e1.device_timeout_secs == 0 {
        match nib.end_device_timeout_default.spec_seconds() {
            Some(s) => NeighborEntry { device_timeout_secs: s, timeout_counter_secs: s, ..e1 },
            None => e1,
        }
    } else {
        e1
    };
    let e3 = if !secured {
        NeighborEntry { security_timer_secs: CHILD_SECURITY_TIMER_SECS, ..e2 }
    } else {
        e2
    };
    NeighborEntry { outgoing_cost: 1, ..e3 }
}

/// The device passes the joining policy.
pub open spec fn policy_allows(policy: JoiningPolicy, list: Seq<ExtendedAddress>, device: ExtendedAddress) -> bool {
    match policy {
        JoiningPolicy::AllJoin => true,
        JoiningPolicy::IeeeListJoin => list.contains(device),
        JoiningPolicy::NoJoin => false,
    }
}

impl NwkStateView {
    /// Joining is permitted now.
    pub open spec fn permitting(self) -> bool {
        self.permit_until matches Some(t) && self.now.0 < t.0
    }

    /// There is room for another child of the kind (`router`): the table
    /// is not full, routers are allowed on the interface in use, and
    /// neither the child nor the router child limit is reached.
    pub open spec fn child_capacity(self, nb_cap: int, routers_allowed: bool, router: bool) -> bool {
        &&& self.neighbors.len() < nb_cap
        &&& (router ==> routers_allowed)
        &&& self.neighbors.filter(is_child_entry()).len() < self.nib.max_children
        &&& (router ==> self.neighbors.filter(is_router_child_entry()).len() < self.nib.max_routers)
    }

    /// The state and answer after an attach request from `device`, which
    /// asks for address `src`. `initial` is, for a commissioning request,
    /// whether it is an initial join (`None` for another commissioning
    /// type, which is not answered); `routers_allowed` is whether the
    /// interface in use admits routers; `short_draws` are random values
    /// for a new address.
    ///
    /// A secured initial commissioning join is not answered. An initial
    /// join is denied while joining is not permitted or the joining
    /// policy refuses the device; an unsecured rejoin is denied on a
    /// distributed-security network. For a known device, an unsecured
    /// request that would change a child's address, kind or receiver mode
    /// is denied; an unknown device needs room for another child. An
    /// address that is not assignable or used by another device is
    /// replaced by a free random one (at capacity when there is none); a
    /// commissioning joiner is then asked to retry with it. Otherwise the
    /// child is stored in the neighbor table (at capacity when it does
    /// not fit) and in the address map, and accepted.
    pub open spec fn attach_requested(
        self,
        nb_cap: int,
        am_cap: int,
        routers_allowed: bool,
        src: ShortAddress,
        device: ExtendedAddress,
        capability: MacCapability,
        commissioning: bool,
        secured: bool,
        initial: Option<bool>,
        lqi: u8,
        short_draws: Seq<u16>,
    ) -> (NwkStateView, AttachDecision) {
        let deny = |st: AttachStatus, a: ShortAddress|
            AttachDecision::Respond { status: st, address: a, method: None, commissioning };
        let initial_join = commissioning && initial == Some(true);
        let router = cap_router(capability);
        if commissioning && initial is None {
            (self, AttachDecision::Ignore)
        } else if initial_join && secured {
            (self, AttachDecision::Ignore)
        } else if initial_join && (!self.permitting() || !policy_allows(self.joining_policy, self.joining, device)) {
            (self, deny(AttachStatus::PanAccessDenied, src))
        } else if !secured && !initial_join && self.distributed_network {
            (self, deny(AttachStatus::PanAccessDenied, src))
        } else {
            let existing = match first_match(self.neighbors, has_extended(device)) {
                Some(i) => Some(self.neighbors[i]),
                None => None,
            };
            let refused = match existing {
                Some(e) => {
                    let differs = e.short != src || e.spec_is_router() != router || e.rx_on_when_idle != cap_rx_on(
                        capability,
                    );
                    !secured && differs && e.relationship.spec_is_child()
                },
                None => false,
            };
            if refused {
                (self, deny(AttachStatus::PanAccessDenied, src))
            } else if existing is None && !self.child_capacity(nb_cap, routers_allowed, router) {
                (self, deny(AttachStatus::PanAtCapacity, src))
            } else {
                let conflict = !assignable(src.0) || address_conflicts(
                    self.nib,
                    self.neighbors,
                    self.address_map,
                    src,
                    device,
                );
                let fresh = first_free_address(short_draws, 0, self.nib, self.neighbors, self.address_map);
                if conflict && fresh is None {
                    (self, deny(AttachStatus::PanAtCapacity, src))
                } else if conflict && commissioning {
                    (self, deny(AttachStatus::AddressConflict, fresh->0))
                } else {
                    let assigned = if conflict { fresh->0 } else { src };
                    let e = spec_attach_entry(existing, device, assigned, capability, secured, lqi, self.nib);
                    match spec_insert_slot(self.neighbors, e, self.nib.router_age_limit, nb_cap) {
                        None => (self, deny(AttachStatus::PanAtCapacity, src)),
                        Some((t, k)) => (
                            NwkStateView {
                                neighbors: t.update(k, e),
                                address_map: spec_record(self.address_map, device, assigned, am_cap).0,
                                ..self
                            },
                            AttachDecision::Respond {
                                status: AttachStatus::Success,
                                address: assigned,
                                method: Some(spec_join_method(commissioning, initial_join, secured)),
                                commissioning,
                            },
                        ),
                    }
                }
            }
        }
    }
}

/// The neighbor entry of an accepted child.
fn attach_entry(
    existing: Option<NeighborEntry>,
    device: ExtendedAddress,
    assigned: ShortAddress,
    capability: MacCapability,
    secured: bool,
    lqi: u8,
    nib: &Nib,
) -> (e: NeighborEntry)
    ensures
        e == spec_attach_entry(existing, device, assigned, capability, secured, lqi, *nib),
{
    let router = capability.is_full_function_device();
    let mut e = NeighborEntry::new(
        device,
        assigned,
        if router {
            LogicalDeviceType::Router
        } else {
            LogicalDeviceType::EndDevice
        },
        capability.rx_on_when_idle(),
        if secured {
            Relationship::Child
        } else {
            Relationship::UnauthenticatedChild
        },
        lqi,
    );
    if let Some(o) = existing {
        e.device_timeout_secs = o.device_timeout_secs;
        e.timeout_counter_secs = o.device_timeout_secs;
        e.end_device_configuration = o.end_device_configuration;
    }
    if e.device_timeout_secs == 0 {
        e.set_timeout(nib.end_device_timeout_default);
    }
    if !secured {
        e.security_timer_secs = CHILD_SECURITY_TIMER_SECS;
    }
    e.outgoing_cost = 1;
    e
}

impl<const NB: usize, const BTT: usize, const D: usize, const AM: usize, const JL: usize> Nwk<NB, BTT, D, AM, JL> {
    /// Whether the address is taken locally.
    fn address_in_use(&self, s: ShortAddress) -> (b: bool)
        ensures
            b == address_in_use(self.nib, self@.neighbors, self@.address_map, s),
    {
        s == self.nib.network_address || self.neighbors.by_short(s).is_some() || self.address_map.contains_short(s)
    }

    /// A free random address from the draws.
    fn free_address(&self, draws: &[u16]) -> (r: Option<ShortAddress>)
        ensures
            r == first_free_address(draws@, 0, self.nib, self@.neighbors, self@.address_map),
    {
        let in_use = |s: ShortAddress| -> (b: bool) ensures b == address_in_use(self.nib, self.neighbors@, self.address_map@, s) { self.address_in_use(s) };
        let r = allocate_stochastic(draws, in_use);
        proof {
            let n = if draws@.len() < 64 { draws@.len() as int } else { 64 };
            let nib = self.nib;
            let nb = self@.neighbors;
            let map = self@.address_map;
            match r {
                Some(a) => {
                    let k = choose|k: int|
                        0 <= k < n && draws@[k] == a.0 && assignable(a.0) && !address_in_use(nib, nb, map, a)
                            && forall|j: int|
                            0 <= j < k ==> (!assignable(#[trigger] draws@[j]) || address_in_use(
                                nib,
                                nb,
                                map,
                                ShortAddress(draws@[j]),
                            ));
                    lemma_first_free_at(draws@, 0, k, nib, nb, map);
                },
                None => {
                    lemma_no_free(draws@, 0, nib, nb, map);
                },
            }
        }
        r
    }

    /// Whether `short` is used by a device other than `ext`.
    fn address_conflicts(&self, short: ShortAddress, ext: ExtendedAddress) -> (b: bool)
        ensures
            b == address_conflicts(self.nib, self@.neighbors, self@.address_map, short, ext),
    {
        if short == self.nib.network_address {
            return true;
        }
        match self.neighbors.by_short(short) {
            Some(n) => {
                if n.extended != ext {
                    return true;
                }
            },
            None => {},
        }
        match self.address_map.extended_for(short) {
            Some(e) => e != ext,
            None => false,
        }
    }

    /// Whether there is room for another child of the kind.
    fn child_capacity(&self, routers_allowed: bool, router: bool) -> (b: bool)
        ensures
            b == self@.child_capacity(NB as int, routers_allowed, router),
    {
        if self.neighbors.len() >= self.neighbors.capacity() {
            return false;
        }
        if router && !routers_allowed {
            return false;
        }
        if self.neighbors.child_count() >= self.nib.max_children as usize {
            return false;
        }
        if router && self.neighbors.router_child_count() >= self.nib.max_routers as usize {
            return false;
        }
        true
    }

    /// Whether joining is permitted now.
    pub fn is_permitting_joins(&self) -> (b: bool)
        ensures
            b == self@.permitting(),
    {
        match self.permit_until {
            Some(t) => !self.now.has_reached(t),
            None => false,
        }
    }

    /// Answers an attach request (see [`NwkStateView::attach_requested`]).
    pub fn on_attach_request(
        &mut self,
        routers_allowed: bool,
        src: ShortAddress,
        device: ExtendedAddress,
        capability: MacCapability,
        commissioning: bool,
        secured: bool,
        initial: Option<bool>,
        lqi: u8,
        short_draws: &[u16],
    ) -> (o: AttachDecision)
        requires
            old(self).wf(),
        ensures
            final(self).wf(),
            (final(self)@, o) == old(self)@.attach_requested(
                NB as int,
                AM as int,
                routers_allowed,
                src,
                device,
                capability,
                commissioning,
                secured,
                initial,
                lqi,
                short_draws@,
            ),
    {
        let initial_join = commissioning && initial == Some(true);
        let router = capability.is_full_function_device();
        if commissioning && initial.is_none() {
            return AttachDecision::Ignore;
        }
        if initial_join && secured {
            return AttachDecision::Ignore;
        }
        if initial_join && (!self.is_permitting_joins() || !self.joining_list.allows(device)) {
            return AttachDecision::Respond {
                status: AttachStatus::PanAccessDenied,
                address: src,
                method: None,
                commissioning,
            };
        }
        if !secured && !initial_join && self.distributed_network {
            return AttachDecision::Respond {
                status: AttachStatus::PanAccessDenied,
                address: src,
                method: None,
                commissioning,
            };
        }
        let existing = match self.neighbors.by_extended(device) {
            Some(e) => Some(*e),
            None => None,
        };
        match existing {
            Some(e) => {
                let differs = e.short != src || e.is_router() != router || e.rx_on_when_idle
                    != capability.rx_on_when_idle();
                if !secured && differs && e.relationship.is_child() {
                    return AttachDecision::Respond {
                        status: AttachStatus::PanAccessDenied,
                        address: src,
                        method: None,
                        commissioning,
                    };
                }
            },
            None => {
                if !self.child_capacity(routers_allowed, router) {
                    return AttachDecision::Respond {
                        status: AttachStatus::PanAtCapacity,
                        address: src,
                        method: None,
                        commissioning,
                    };
                }
            },
        }
        let conflict = !src.is_assignable() || self.address_conflicts(src, device);
        let mut assigned = src;
        if conflict {
            match self.free_address(short_draws) {
                Some(a) => {
                    assigned = a;
                },
                None => {
                    return AttachDecision::Respond {
                        status: AttachStatus::PanAtCapacity,
                        address: src,
                        method: None,
                        commissioning,
                    };
                },
            }
            if commissioning {
                return AttachDecision::Respond {
                    status: AttachStatus::AddressConflict,
                    address: assigned,
                    method: None,
                    commissioning,
                };
            }
        }
        let e = attach_entry(existing, device, assigned, capability, secured, lqi, &self.nib);
        let limit = self.nib.router_age_limit;
        let stored = self.neighbors.insert(e, limit).is_ok();
        if !stored {
            return AttachDecision::Respond {
                status: AttachStatus::PanAtCapacity,
                address: src,
                method: None,
                commissioning,
            };
        }
        let _ = self.address_map.record(device, assigned);
        let method = if commissioning {
            if initial_join {
                JoinMethod::CommissioningJoin
            } else if secured {
                JoinMethod::CommissioningRejoinSecured
            } else {
                JoinMethod::CommissioningRejoinUnsecured
            }
        } else if secured {
            JoinMethod::RejoinSecured
        } else {
            JoinMethod::RejoinUnsecured
        };
        AttachDecision::Respond { status: AttachStatus::Success, address: assigned, method: Some(method), commissioning }
    }
}

/// The attach status values: success 0x00, PAN at capacity 0x01, PAN
/// access denied 0x02, address conflict 0xF0.
pub proof fn lemma_attach_status_wire_values()
    ensures
        AttachStatus::Success.spec_raw() == 0x00,
        AttachStatus::PanAtCapacity.spec_raw() == 0x01,
        AttachStatus::PanAccessDenied.spec_raw() == 0x02,
        AttachStatus::AddressConflict.spec_raw() == 0xF0,
{
}

} // verus!
