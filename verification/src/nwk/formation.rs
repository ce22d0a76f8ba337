//! Network formation: what the scans found per channel, and the choice of
//! channel, PAN identifier and network address that starts the network.
//!
//! Random draws are arguments, so the choices are determined by them.
use vstd::prelude::*;

use crate::nwk::address_map::{allocate_stochastic, assignable};
use crate::nwk::nib::Nib;
use crate::types::{Channel, ChannelMask, ExtendedAddress, PanId, ShortAddress, bit_set, COORDINATOR_RAW};

verus! {

/// Number of channel slots the scans report on.
pub const CHANNEL_SLOTS: usize = 27;

/// Number of PAN identifiers remembered from the active scan.
pub const SEEN_PAN_IDS: usize = 16;

/// Number of random PAN identifiers tried.
pub const PAN_ID_DRAWS: usize = 16;

/// Highest PAN identifier a new network may take.
pub const MAX_FORMATION_PAN_ID: u16 = 0x3FFF;

/// Network address of a distributed-security router when no random draw
/// is usable.
pub const FALLBACK_DISTRIBUTED_ADDRESS: u16 = 0x0001;

/// A PAN identifier a new network may take.
pub open spec fn spec_valid_for_formation(p: PanId) -> bool {
    p.0 <= MAX_FORMATION_PAN_ID
}

/// Whether a new network may take the PAN identifier.
pub fn valid_for_formation(p: PanId) -> (b: bool)
    ensures
        b == spec_valid_for_formation(p),
{
    p.0 <= MAX_FORMATION_PAN_ID
}

/// What a formation learned from its scans.
#[derive(Clone, Debug)]
pub struct FormationState {
    /// Channels still considered.
    pub channels: ChannelMask,
    /// Energy measured per channel slot.
    pub energy: Vec<u8>,
    /// Networks heard per channel slot during the active scan.
    pub networks_per_channel: Vec<u8>,
    /// PAN identifiers heard, at most [`SEEN_PAN_IDS`] of them.
    pub seen_pan_ids: Vec<PanId>,
    /// Forming a distributed-security network (as a router).
    pub distributed: bool,
    /// PAN identifier chosen by the caller.
    pub pan_id: Option<PanId>,
    /// Network address chosen by the caller (distributed networks).
    pub short: Option<ShortAddress>,
}

/// The mathematical content of a [`FormationState`].
pub struct FormationView {
    /// Channels still considered.
    pub channels: ChannelMask,
    /// Energy per channel slot.
    pub energy: Seq<u8>,
    /// Networks heard per channel slot.
    pub networks_per_channel: Seq<u8>,
    /// PAN identifiers heard.
    pub seen_pan_ids: Seq<PanId>,
    /// Distributed-security network.
    pub distributed: bool,
    /// Caller's PAN identifier.
    pub pan_id: Option<PanId>,
    /// Caller's network address.
    pub short: Option<ShortAddress>,
}

impl View for FormationState {
    type V = FormationView;

    open spec fn view(&self) -> FormationView {
        FormationView {
            channels: self.channels,
            energy: self.energy@,
            networks_per_channel: self.networks_per_channel@,
            seen_pan_ids: self.seen_pan_ids@,
            distributed: self.distributed,
            pan_id: self.pan_id,
            short: self.short,
        }
    }
}

impl FormationView {
    /// After a beacon of PAN `pan` was heard on `channel` during the
    /// active scan: the channel's network count grows by one (saturating)
    /// and the PAN identifier is remembered while there is room.
    pub open spec fn recorded(self, channel: Channel, pan: PanId) -> FormationView {
        FormationView {
            networks_per_channel: if channel.0 < CHANNEL_SLOTS {
                let n = self.networks_per_channel[channel.0 as int];
                self.networks_per_channel.update(channel.0 as int, if n == 255 { 255u8 } else { (n + 1) as u8 })
            } else {
                self.networks_per_channel
            },
            seen_pan_ids: if self.seen_pan_ids.contains(pan) || self.seen_pan_ids.len() >= SEEN_PAN_IDS {
                self.seen_pan_ids
            } else {
                self.seen_pan_ids.push(pan)
            },
            ..self
        }
    }
}

impl FormationState {
    /// One slot per channel, and a bounded list of PAN identifiers.
    pub open spec fn wf(&self) -> bool {
        &&& self.energy@.len() == CHANNEL_SLOTS
        &&& self.networks_per_channel@.len() == CHANNEL_SLOTS
        &&& self.seen_pan_ids@.len() <= SEEN_PAN_IDS
    }

    /// A formation over `channels` with nothing learned yet.
    pub fn new(channels: ChannelMask, distributed: bool, pan_id: Option<PanId>, short: Option<ShortAddress>) -> (f: Self)
        ensures
            f.wf(),
            f.channels == channels,
            f.energy@ == Seq::new(CHANNEL_SLOTS as nat, |i: int| 0u8),
            f.networks_per_channel@ == Seq::new(CHANNEL_SLOTS as nat, |i: int| 0u8),
            f.seen_pan_ids@ == Seq::<PanId>::empty(),
            f.distributed == distributed,
            f.pan_id == pan_id,
            f.short == short,
    {
        let mut energy: Vec<u8> = Vec::new();
        let mut networks: Vec<u8> = Vec::new();
        let mut i: usize = 0;
        while i < CHANNEL_SLOTS
            invariant
                i <= CHANNEL_SLOTS,
                energy@ == Seq::new(i as nat, |k: int| 0u8),
                networks@ == Seq::new(i as nat, |k: int| 0u8),
            decreases CHANNEL_SLOTS - i,
        {
            energy.push(0);
            networks.push(0);
            assert(energy@ =~= Seq::new((i + 1) as nat, |k: int| 0u8));
            assert(networks@ =~= Seq::new((i + 1) as nat, |k: int| 0u8));
            i = i + 1;
        }
        FormationState {
            channels,
            energy,
            networks_per_channel: networks,
            seen_pan_ids: Vec::new(),
            distributed,
            pan_id,
            short,
        }
    }

    /// A beacon of PAN `pan` heard on `channel` during the active scan:
    /// the channel's network count grows by one (saturating) and the PAN
    /// identifier is remembered while there is room.
    pub fn record_network(&mut self, channel: Channel, pan: PanId)
        requires
            old(self).wf(),
        ensures
            final(self).wf(),
            final(self)@ == old(self)@.recorded(channel, pan),
    {
        let c = channel.0 as usize;
        if c < CHANNEL_SLOTS {
            let n = self.networks_per_channel[c];
            self.networks_per_channel.set(c, n.saturating_add(1));
        }
        if !self.seen(pan) && self.seen_pan_ids.len() < SEEN_PAN_IDS {
            self.seen_pan_ids.push(pan);
        }
    }

    /// Whether the PAN identifier was heard.
    pub fn seen(&self, pan: PanId) -> (b: bool)
        ensures
            b == self.seen_pan_ids@.contains(pan),
    {
        let mut i: usize = 0;
        while i < self.seen_pan_ids.len()
            invariant
                i <= self.seen_pan_ids@.len(),
                forall|j: int| 0 <= j < i ==> self.seen_pan_ids@[j] != pan,
            decreases self.seen_pan_ids@.len() - i,
        {
            if self.seen_pan_ids[i] == pan {
                return true;
            }
            i = i + 1;
        }
        false
    }

    /// The channel is one of the formation's.
    pub open spec fn considers(&self, c: int) -> bool {
        0 <= c < CHANNEL_SLOTS && bit_set(self.channels.0, c as u32)
    }

    /// Channel `a` is strictly preferred to channel `b`: fewer networks,
    /// or as many and less energy.
    pub open spec fn better(&self, a: int, b: int) -> bool {
        let na = self.networks_per_channel@[a];
        let nb = self.networks_per_channel@[b];
        na < nb || (na == nb && self.energy@[a] < self.energy@[b])
    }

    /// `c` is the chosen channel: considered, no considered channel is
    /// strictly preferred to it, and it is preferred to every considered
    /// channel below it.
    pub open spec fn is_best_channel(&self, c: int) -> bool {
        &&& self.considers(c)
        &&& forall|d: int| #[trigger] self.considers(d) ==> !self.better(d, c)
        &&& forall|d: int| 0 <= d < c && #[trigger] self.considers(d) ==> self.better(c, d)
    }

    /// The channel with the fewest networks, the lowest energy breaking
    /// ties and the lowest channel number after that; `None` when no
    /// channel is considered.
    pub fn best_channel(&self) -> (r: Option<Channel>)
        requires
            self.wf(),
        ensures
            match r {
                Some(c) => self.is_best_channel(c.0 as int),
                None => forall|d: int| !self.considers(d),
            },
    {
        let mut best: Option<usize> = None;
        let mut c: usize = 0;
        while c < CHANNEL_SLOTS
            invariant
                self.wf(),
                c <= CHANNEL_SLOTS,
                match best {
                    Some(b) => {
                        &&& b < c
                        &&& self.considers(b as int)
                        &&& forall|d: int| 0 <= d < c && #[trigger] self.considers(d) ==> !self.better(d, b as int)
                        &&& forall|d: int| 0 <= d < b && #[trigger] self.considers(d) ==> self.better(b as int, d)
                    },
                    None => forall|d: int| 0 <= d < c ==> !#[trigger] self.considers(d),
                },
            decreases CHANNEL_SLOTS - c,
        {
            if self.channels.contains(Channel(c as u8)) {
                let n = self.networks_per_channel[c];
                let e = self.energy[c];
                let take = match best {
                    None => true,
                    Some(b) => n < self.networks_per_channel[b] || (n == self.networks_per_channel[b] && e
                        < self.energy[b]),
                };
                if take {
                    best = Some(c);
                }
            }
            c = c + 1;
        }
        match best {
            Some(b) => Some(Channel(b as u8)),
            None => None,
        }
    }
}

/// The first usable PAN identifier among the first [`PAN_ID_DRAWS`]
/// draws from index `i` on: valid for formation and not heard.
pub open spec fn first_free_pan(draws: Seq<u16>, seen: Seq<PanId>, i: int) -> Option<PanId>
    decreases PAN_ID_DRAWS - i,
{
    if i < 0 || i >= PAN_ID_DRAWS || i >= draws.len() {
        None
    } else if spec_valid_for_formation(PanId(draws[i])) && !seen.contains(PanId(draws[i])) {
        Some(PanId(draws[i]))
    } else {
        first_free_pan(draws, seen, i + 1)
    }
}

/// The PAN identifier a formation takes: the caller's, else the first
/// usable random draw.
pub open spec fn spec_formation_pan(f: FormationState, draws: Seq<u16>) -> Option<PanId> {
    match f.pan_id {
        Some(p) => Some(p),
        None => first_free_pan(draws, f.seen_pan_ids@, 0),
    }
}

/// The first assignable network address among the first 64 draws from
/// index `i` on.
pub open spec fn first_assignable(draws: Seq<u16>, i: int) -> Option<ShortAddress>
    decreases 64 - i,
{
    if i < 0 || i >= 64 || i >= draws.len() {
        None
    } else if assignable(draws[i]) {
        Some(ShortAddress(draws[i]))
    } else {
        first_assignable(draws, i + 1)
    }
}

/// `first_assignable` from `i` on is the first assignable draw there.
proof fn lemma_first_assignable(draws: Seq<u16>, i: int, k: int)
    requires
        0 <= i <= k,
        k < 64,
        k < draws.len(),
        assignable(draws[k]),
        forall|j: int| i <= j < k ==> !assignable(#[trigger] draws[j]),
    ensures
        first_assignable(draws, i) == Some(ShortAddress(draws[k])),
    decreases k - i,
{
    if i < k {
        lemma_first_assignable(draws, i + 1, k);
    }
}

/// No assignable draw among the first 64 from `i` on.
proof fn lemma_no_assignable(draws: Seq<u16>, i: int)
    requires
        0 <= i,
        forall|j: int| i <= j < 64 && j < draws.len() ==> !assignable(#[trigger] draws[j]),
    ensures
        first_assignable(draws, i) is None,
    decreases 64 - i,
{
    if i < 64 && i < draws.len() {
        lemma_no_assignable(draws, i + 1);
    }
}

/// The network address a formation takes: the coordinator's for a
/// centralized network; for a distributed one the caller's, else the
/// first assignable random draw, else [`FALLBACK_DISTRIBUTED_ADDRESS`].
pub open spec fn spec_formation_short(f: FormationState, draws: Seq<u16>) -> ShortAddress {
    if !f.distributed {
        ShortAddress(COORDINATOR_RAW)
    } else {
        match f.short {
            Some(s) => s,
            None => match first_assignable(draws, 0) {
                Some(s) => s,
                None => ShortAddress(FALLBACK_DISTRIBUTED_ADDRESS),
            },
        }
    }
}

/// How a formation ended.
#[derive(Clone, Copy, PartialEq, Eq, Debug, Structural)]
pub enum FormationOutcome {
    /// No channel, or no usable PAN identifier: the start failed.
    StartupFailure,
    /// The network was started (the MAC is to be started with these).
    Started {
        /// PAN identifier.
        pan_id: PanId,
        /// Channel.
        channel: Channel,
        /// Local network address.
        short: ShortAddress,
        /// PAN coordinator role (a centralized network).
        coordinator: bool,
    },
}

/// The random network address of a distributed-security router.
pub(crate) fn random_address(draws: &[u16]) -> (r: Option<ShortAddress>)
    ensures
        r == first_assignable(draws@, 0),
{
    let r = allocate_stochastic(draws, |s: ShortAddress| -> (b: bool) ensures !b { false });
    proof {
        let n = if draws@.len() < 64 { draws@.len() as int } else { 64 };
        match r {
            Some(a) => {
                let k = choose|k: int|
                    0 <= k < n && draws@[k] == a.0 && assignable(a.0) && forall|j: int|
                        0 <= j < k ==> (!assignable(#[trigger] draws@[j]) || false);
                assert forall|j: int| 0 <= j < k implies !assignable(#[trigger] draws@[j]) by {}
                lemma_first_assignable(draws@, 0, k);
            },
            None => {
                lemma_no_assignable(draws@, 0);
            },
        }
    }
    r
}

/// The PAN identifier a formation takes.
pub fn formation_pan(f: &FormationState, draws: &[u16]) -> (r: Option<PanId>)
    ensures
        r == spec_formation_pan(*f, draws@),
{
    if let Some(p) = f.pan_id {
        return Some(p);
    }
    let mut i: usize = 0;
    while i < PAN_ID_DRAWS && i < draws.len()
        invariant
            i <= PAN_ID_DRAWS,
            f.pan_id is None,
            first_free_pan(draws@, f.seen_pan_ids@, 0) == first_free_pan(draws@, f.seen_pan_ids@, i as int),
        decreases PAN_ID_DRAWS - i,
    {
        let p = PanId(draws[i]);
        if valid_for_formation(p) && !f.seen(p) {
            return Some(p);
        }
        i = i + 1;
    }
    None
}

/// Completes a formation once the scans are done: picks the channel
/// with the fewest networks (lowest energy, then lowest number breaking
/// ties), the PAN identifier and the network address; `pan_draws`,
/// `short_draws` and `ext_draw` are random values. On success the NIB
/// joins the new network: the extended PAN identifier, when still zero,
/// becomes the device's IEEE address (a random odd value for a
/// distributed network), and the device is joined, authenticated and
/// started at depth 0. On failure the NIB is unchanged.
pub fn finish_formation(nib: &mut Nib, f: &FormationState, pan_draws: &[u16], short_draws: &[u16], ext_draw: u64) -> (o:
    FormationOutcome)
    requires
        f.wf(),
    ensures
        match o {
            FormationOutcome::StartupFailure => {
                &&& *final(nib) == *old(nib)
                &&& (forall|d: int| !f.considers(d)) || spec_formation_pan(*f, pan_draws@) is None
            },
            FormationOutcome::Started { pan_id, channel, short, coordinator } => {
                &&& f.is_best_channel(channel.0 as int)
                &&& spec_formation_pan(*f, pan_draws@) == Some(pan_id)
                &&& short == spec_formation_short(*f, short_draws@)
                &&& coordinator == !f.distributed
                &&& *final(nib) == (Nib {
                    extended_pan_id: if old(nib).extended_pan_id.0 == 0 {
                        if f.distributed {
                            ExtendedAddress(ext_draw | 1)
                        } else {
                            old(nib).ieee_address
                        }
                    } else {
                        old(nib).extended_pan_id
                    },
                    pan_id,
                    channel,
                    network_address: short,
                    joined: true,
                    authenticated: true,
                    router_started: true,
                    depth: 0,
                    ..*old(nib)
                })
            },
        },
{
    let channel = match f.best_channel() {
        Some(c) => c,
        None => {
            return FormationOutcome::StartupFailure;
        },
    };
    let pan_id = match formation_pan(f, pan_draws) {
        Some(p) => p,
        None => {
            return FormationOutcome::StartupFailure;
        },
    };
    let short = if f.distributed {
        match f.short {
            Some(s) => s,
            None => match random_address(short_draws) {
                Some(s) => s,
                None => ShortAddress(FALLBACK_DISTRIBUTED_ADDRESS),
            },
        }
    } else {
        ShortAddress(COORDINATOR_RAW)
    };
    if nib.extended_pan_id.0 == 0 {
        nib.extended_pan_id = if f.distributed {
            ExtendedAddress(ext_draw | 1)
        } else {
            nib.ieee_address
        };
    }
    nib.pan_id = pan_id;
    nib.channel = channel;
    nib.network_address = short;
    nib.joined = true;
    nib.authenticated = true;
    nib.router_started = true;
    nib.depth = 0;
    FormationOutcome::Started { pan_id, channel, short, coordinator: !f.distributed }
}

/// A PAN identifier a formation draws itself is valid for a new network
/// and was not heard during the scan.
pub proof fn lemma_drawn_pan_is_free(draws: Seq<u16>, seen: Seq<PanId>, i: int)
    requires
        first_free_pan(draws, seen, i) is Some,
    ensures
        ({
            let p = first_free_pan(draws, seen, i)->0;
            spec_valid_for_formation(p) && !seen.contains(p)
        }),
    decreases PAN_ID_DRAWS - i,
{
    if !(i < 0 || i >= PAN_ID_DRAWS || i >= draws.len()) && !(spec_valid_for_formation(PanId(draws[i]))
        && !seen.contains(PanId(draws[i]))) {
        lemma_drawn_pan_is_free(draws, seen, i + 1);
    }
}

/// The chosen formation channel is a quietest one: no considered channel
/// has fewer networks, none with as many networks has less energy, and
/// a channel that ties on both is not below it.
pub proof fn lemma_best_channel_is_quietest(f: FormationState, c: int, d: int)
    requires
        f.is_best_channel(c),
        f.considers(d),
    ensures
        f.networks_per_channel@[c] <= f.networks_per_channel@[d],
        f.networks_per_channel@[c] == f.networks_per_channel@[d] ==> f.energy@[c] <= f.energy@[d],
        f.networks_per_channel@[c] == f.networks_per_channel@[d] && f.energy@[c] == f.energy@[d] ==> c <= d,
{
    assert(!f.better(d, c));
    if d < c {
        assert(f.better(c, d));
    }
}

} // verus!
