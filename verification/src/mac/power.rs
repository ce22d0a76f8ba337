//! Power Control Information Table: the transmit power negotiated per
//! link, consulted for every unicast transmission to that link (a device
//! without an entry is sent to at the maximum power). The table is
//! volatile: after a reset every link starts at maximum power and is
//! negotiated down again. Entries created while joining that the network
//! layer never confirms are dropped after [`UNNEGOTIATED_LIFETIME_MS`].
use vstd::prelude::*;

use crate::mac::frame::MacAddress;
use crate::types::{Duration, ExtendedAddress, Instant, ShortAddress, FIRST_NON_UNICAST_RAW};

verus! {

/// How long, in milliseconds, an entry may stay without the network
/// layer confirming the link.
pub const UNNEGOTIATED_LIFETIME_MS: u64 = 10_000;

/// How long an entry may stay without the network layer confirming the
/// link.
pub fn unnegotiated_lifetime() -> (d: Duration)
    ensures
        d.0 == UNNEGOTIATED_LIFETIME_MS,
{
    Duration::from_millis(UNNEGOTIATED_LIFETIME_MS)
}

/// Transmit power limits a negotiation may never exceed.
#[derive(Clone, Copy, PartialEq, Eq, Debug, Structural)]
pub struct PowerLimits {
    /// Minimum transmit power in dBm.
    pub min_dbm: i8,
    /// Maximum transmit power in dBm (the power used before any
    /// negotiation and for links not in the table).
    pub max_dbm: i8,
}

impl Default for PowerLimits {
    /// A conservative range common to 2.4 GHz transceivers.
    fn default() -> (l: Self)
        ensures
            l == (PowerLimits { min_dbm: -20i8, max_dbm: 8i8 }),
    {
        PowerLimits { min_dbm: -20, max_dbm: 8 }
    }
}

impl PowerLimits {
    /// A power level clamped to the limits.
    pub open spec fn spec_clamp(self, dbm: i8) -> i8 {
        if dbm < self.min_dbm {
            self.min_dbm
        } else if dbm > self.max_dbm {
            self.max_dbm
        } else {
            dbm
        }
    }

    /// Clamps a power level to the limits.
    pub fn clamp(&self, dbm: i8) -> (r: i8)
        ensures
            r == self.spec_clamp(dbm),
            self.min_dbm <= self.max_dbm ==> self.min_dbm <= r <= self.max_dbm,
    {
        if dbm < self.min_dbm {
            self.min_dbm
        } else if dbm > self.max_dbm {
            self.max_dbm
        } else {
            dbm
        }
    }
}

/// One link.
#[derive(Clone, Copy, PartialEq, Eq, Debug, Structural)]
pub struct PowerEntry {
    /// Short address of the peer.
    pub short: ShortAddress,
    /// IEEE address of the peer (zero when unknown).
    pub extended: ExtendedAddress,
    /// Transmit power to use towards the peer, dBm.
    pub tx_power_dbm: i8,
    /// RSSI of the last frame received from the peer, dBm.
    pub last_rssi_dbm: i8,
    /// The network layer confirmed the link.
    pub nwk_negotiated: bool,
    /// When the entry was created (for the un-negotiated timeout).
    pub created: Instant,
}

/// Why an entry could not be stored.
#[derive(Clone, Copy, PartialEq, Eq, Debug, Structural)]
pub enum PowerTableError {
    /// No room and nothing evictable.
    Full,
}

/// The entry is the link named by a short and/or IEEE address: the short
/// address counts when unicast, the IEEE address when not zero.
pub open spec fn names_link(e: PowerEntry, short: Option<ShortAddress>, extended: Option<ExtendedAddress>) -> bool {
    (short matches Some(s) && s.0 < FIRST_NON_UNICAST_RAW && e.short == s) || (extended matches Some(x) && x.0 != 0
        && e.extended == x)
}

/// Index of the first entry naming the link.
pub open spec fn link_position(s: Seq<PowerEntry>, short: Option<ShortAddress>, extended: Option<ExtendedAddress>) -> Option<int>
    decreases s.len(),
{
    if s.len() == 0 {
        None
    } else if names_link(s[0], short, extended) {
        Some(0)
    } else {
        match link_position(s.drop_first(), short, extended) {
            Some(i) => Some(i + 1),
            None => None,
        }
    }
}

/// `link_position` is the lowest index of an entry naming the link.
pub proof fn lemma_link_position(s: Seq<PowerEntry>, short: Option<ShortAddress>, extended: Option<ExtendedAddress>)
    ensures
        match link_position(s, short, extended) {
            Some(i) => 0 <= i < s.len() && names_link(s[i], short, extended) && forall|j: int|
                0 <= j < i ==> !names_link(#[trigger] s[j], short, extended),
            None => forall|j: int| 0 <= j < s.len() ==> !names_link(#[trigger] s[j], short, extended),
        },
    decreases s.len(),
{
    if s.len() > 0 && !names_link(s[0], short, extended) {
        lemma_link_position(s.drop_first(), short, extended);
        assert forall|j: int| 1 <= j < s.len() implies s[j] == s.drop_first()[j - 1] by {}
    }
}

/// `i` is the position of the first un-negotiated entry created no later
/// than any other un-negotiated entry.
pub open spec fn is_oldest_unnegotiated(s: Seq<PowerEntry>, i: int) -> bool {
    &&& 0 <= i < s.len()
    &&& !s[i].nwk_negotiated
    &&& forall|j: int| 0 <= j < s.len() && !(#[trigger] s[j]).nwk_negotiated ==> s[i].created.0 <= s[j].created.0
    &&& forall|j: int| 0 <= j < i && !(#[trigger] s[j]).nwk_negotiated ==> s[j].created.0 > s[i].created.0
}

/// The entry evicted when the table is full: the oldest un-negotiated one
/// (the first of equally old ones).
pub open spec fn oldest_unnegotiated(s: Seq<PowerEntry>) -> Option<int> {
    if exists|i: int| is_oldest_unnegotiated(s, i) {
        Some(choose|i: int| is_oldest_unnegotiated(s, i))
    } else {
        None
    }
}

/// At most one position is the oldest un-negotiated entry.
proof fn lemma_oldest_unique(s: Seq<PowerEntry>, i: int)
    requires
        is_oldest_unnegotiated(s, i),
    ensures
        oldest_unnegotiated(s) == Some(i),
{
    let k = choose|k: int| is_oldest_unnegotiated(s, k);
    assert(is_oldest_unnegotiated(s, k));
    if k < i {
        assert(s[k].created.0 > s[i].created.0);
        assert(s[i].created.0 <= s[k].created.0);
    } else if k > i {
        assert(s[i].created.0 > s[k].created.0);
        assert(s[k].created.0 <= s[i].created.0);
    }
}

/// The entries after storing `entry` (power already clamped) into a table
/// holding `s` with capacity `cap`; `None` when it is full and every entry
/// is negotiated.
pub open spec fn spec_power_set(s: Seq<PowerEntry>, entry: PowerEntry, cap: int) -> Option<Seq<PowerEntry>> {
    match link_position(s, Some(entry.short), Some(entry.extended)) {
        Some(i) => Some(
            s.update(
                i,
                if entry.extended.0 == 0 {
                    PowerEntry { extended: s[i].extended, ..entry }
                } else {
                    entry
                },
            ),
        ),
        None => if s.len() < cap {
            Some(s.push(entry))
        } else {
            match oldest_unnegotiated(s) {
                Some(v) => Some(s.update(v, s.last()).drop_last().push(entry)),
                None => None,
            }
        },
    }
}

/// The table, holding at most `N` links.
#[derive(Clone, Debug)]
pub struct PowerControlTable<const N: usize> {
    entries: Vec<PowerEntry>,
    /// The limits negotiations are clamped to.
    pub limits: PowerLimits,
}

impl<const N: usize> View for PowerControlTable<N> {
    type V = Seq<PowerEntry>;

    closed spec fn view(&self) -> Seq<PowerEntry> {
        self.entries@
    }
}

impl<const N: usize> Default for PowerControlTable<N> {
    fn default() -> (t: Self)
        ensures
            t@ == Seq::<PowerEntry>::empty(),
            t.spec_limits() == (PowerLimits { min_dbm: -20i8, max_dbm: 8i8 }),
    {
        Self::new(PowerLimits::default())
    }
}

impl<const N: usize> PowerControlTable<N> {
    /// The limits.
    pub closed spec fn spec_limits(&self) -> PowerLimits {
        self.limits
    }

    /// The table holds at most `N` links.
    pub open spec fn wf(&self) -> bool {
        self@.len() <= N
    }

    /// Empty table with the given limits.
    pub fn new(limits: PowerLimits) -> (t: Self)
        ensures
            t@ == Seq::<PowerEntry>::empty(),
            t.spec_limits() == limits,
            t.wf(),
    {
        PowerControlTable { entries: Vec::new(), limits }
    }

    /// The limits negotiations are clamped to.
    pub fn limits(&self) -> (l: PowerLimits)
        ensures
            l == self.spec_limits(),
    {
        self.limits
    }

    /// The entries, in table order.
    pub fn entries(&self) -> (v: &[PowerEntry])
        ensures
            v@ == self@,
    {
        self.entries.as_slice()
    }

    /// Number of links in the table.
    pub fn len(&self) -> (n: usize)
        ensures
            n == self@.len(),
    {
        self.entries.len()
    }

    /// Whether the table is empty.
    pub fn is_empty(&self) -> (b: bool)
        ensures
            b == (self@.len() == 0),
    {
        self.entries.len() == 0
    }

    /// Index of the first entry naming the link.
    fn position(&self, short: Option<ShortAddress>, extended: Option<ExtendedAddress>) -> (r: Option<usize>)
        ensures
            r matches Some(i) ==> link_position(self@, short, extended) == Some(i as int),
            r is None ==> link_position(self@, short, extended) is None,
    {
        proof {
            lemma_link_position(self@, short, extended);
        }
        let mut i: usize = 0;
        while i < self.entries.len()
            invariant
                i <= self@.len(),
                forall|j: int| 0 <= j < i ==> !names_link(#[trigger] self@[j], short, extended),
                match link_position(self@, short, extended) {
                    Some(k) => 0 <= k < self@.len() && names_link(self@[k], short, extended) && forall|j: int|
                        0 <= j < k ==> !names_link(#[trigger] self@[j], short, extended),
                    None => forall|j: int| 0 <= j < self@.len() ==> !names_link(#[trigger] self@[j], short, extended),
                },
            decreases self@.len() - i,
        {
            let e = &self.entries[i];
            let by_short = match short {
                Some(s) => s.0 < FIRST_NON_UNICAST_RAW && e.short == s,
                None => false,
            };
            let by_ext = match extended {
                Some(x) => x.0 != 0 && e.extended == x,
                None => false,
            };
            if by_short || by_ext {
                proof {
                    match link_position(self@, short, extended) {
                        Some(k) => {
                            if k < i {
                                assert(!names_link(self@[k], short, extended));
                            } else if k > i {
                                assert(!names_link(self@[i as int], short, extended));
                            }
                        },
                        None => {
                            assert(!names_link(self@[i as int], short, extended));
                        },
                    }
                }
                return Some(i);
            }
            i = i + 1;
        }
        proof {
            if let Some(k) = link_position(self@, short, extended) {
                assert(!names_link(self@[k], short, extended));
            }
        }
        None
    }

    /// The entry for the link, by short and/or IEEE address.
    pub fn get(&self, short: Option<ShortAddress>, extended: Option<ExtendedAddress>) -> (r: Option<&PowerEntry>)
        ensures
            r == (match link_position(self@, short, extended) {
                Some(i) => Some(&self@[i]),
                None => None,
            }),
    {
        match self.position(short, extended) {
            Some(i) => {
                proof {
                    lemma_link_position(self@, short, extended);
                }
                Some(&self.entries[i])
            },
            None => None,
        }
    }

    /// Index of the oldest un-negotiated entry.
    fn oldest(&self) -> (r: Option<usize>)
        ensures
            r matches Some(i) ==> oldest_unnegotiated(self@) == Some(i as int),
            r is None ==> oldest_unnegotiated(self@) is None,
    {
        let mut best: Option<usize> = None;
        let mut best_ms: u64 = 0;
        let mut i: usize = 0;
        while i < self.entries.len()
            invariant
                i <= self@.len(),
                best matches Some(b) ==> {
                    &&& b < i
                    &&& !self@[b as int].nwk_negotiated
                    &&& best_ms == self@[b as int].created.0
                    &&& forall|j: int| 0 <= j < i && !(#[trigger] self@[j]).nwk_negotiated ==> best_ms <= self@[j].created.0
                    &&& forall|j: int| 0 <= j < b && !(#[trigger] self@[j]).nwk_negotiated ==> self@[j].created.0 > best_ms
                },
                best is None ==> forall|j: int| 0 <= j < i ==> (#[trigger] self@[j]).nwk_negotiated,
            decreases self@.len() - i,
        {
            let e = &self.entries[i];
            if !e.nwk_negotiated {
                let replace = match best {
                    None => true,
                    Some(_) => e.created.0 < best_ms,
                };
                if replace {
                    best = Some(i);
                    best_ms = e.created.0;
                }
            }
            i = i + 1;
        }
        match best {
            Some(b) => {
                proof {
                    lemma_oldest_unique(self@, b as int);
                }
                Some(b)
            },
            None => {
                proof {
                    if exists|k: int| is_oldest_unnegotiated(self@, k) {
                        let k = choose|k: int| is_oldest_unnegotiated(self@, k);
                        assert(self@[k].nwk_negotiated);
                    }
                }
                None
            },
        }
    }

    /// Stores or replaces the entry for the link pair, clamping the power
    /// (a replacement with an unknown IEEE address keeps the stored one).
    /// When full, the oldest un-negotiated entry is evicted; with none
    /// the table is unchanged and full.
    pub fn set(&mut self, entry: PowerEntry) -> (r: Result<(), PowerTableError>)
        requires
            old(self).wf(),
        ensures
            final(self).wf(),
            final(self).spec_limits() == old(self).spec_limits(),
            match spec_power_set(
                old(self)@,
                PowerEntry { tx_power_dbm: old(self).spec_limits().spec_clamp(entry.tx_power_dbm), ..entry },
                N as int,
            ) {
                Some(t) => r is Ok && final(self)@ == t,
                None => r is Err && final(self)@ == old(self)@,
            },
    {
        let mut entry = entry;
        entry.tx_power_dbm = self.limits.clamp(entry.tx_power_dbm);
        proof {
            lemma_link_position(self@, Some(entry.short), Some(entry.extended));
        }
        if let Some(i) = self.position(Some(entry.short), Some(entry.extended)) {
            if entry.extended.0 == 0 {
                entry.extended = self.entries[i].extended;
            }
            self.entries.set(i, entry);
            return Ok(());
        }
        if self.entries.len() >= N {
            match self.oldest() {
                Some(v) => {
                    proof {
                        let k = choose|k: int| is_oldest_unnegotiated(self@, k);
                        assert(is_oldest_unnegotiated(self@, k));
                    }
                    let _ = self.entries.swap_remove(v);
                },
                None => return Err(PowerTableError::Full),
            }
        }
        self.entries.push(entry);
        Ok(())
    }

    /// Applies a negotiated power delta for the link: the link's transmit
    /// power becomes the current one (maximum when unknown) plus the delta,
    /// saturating and clamped; the last RSSI is recorded and the link is
    /// marked negotiated. Returns the resulting power.
    pub fn adjust(
        &mut self,
        short: ShortAddress,
        extended: ExtendedAddress,
        delta_db: i8,
        rssi_dbm: i8,
        now: Instant,
    ) -> (r: Result<i8, PowerTableError>)
        requires
            old(self).wf(),
        ensures
            final(self).wf(),
            final(self).spec_limits() == old(self).spec_limits(),
            match spec_adjust(old(self)@, old(self).spec_limits(), N as int, short, extended, delta_db, rssi_dbm, now) {
                Some((power, t)) => r == Ok::<i8, PowerTableError>(power) && final(self)@ == t,
                None => r is Err && final(self)@ == old(self)@,
            },
            // A unicast link that is known, or fits, or can evict an
            // un-negotiated link, is adjusted; a lookup then gives the
            // new power, and the entry holds the RSSI and is negotiated.
            old(self).spec_limits().min_dbm <= old(self).spec_limits().max_dbm && short.0 < FIRST_NON_UNICAST_RAW && (
            link_position(old(self)@, Some(short), Some(extended)) is Some || old(self)@.len() < N || exists|j: int|
                0 <= j < old(self)@.len() && !(#[trigger] old(self)@[j]).nwk_negotiated) ==> {
                let p = adjusted_power(old(self)@, old(self).spec_limits(), short, extended, delta_db);
                &&& r == Ok::<i8, PowerTableError>(p)
                &&& spec_tx_power_for(final(self)@, MacAddress::Short(short)) == Some(p)
                &&& link_position(final(self)@, Some(short), None) matches Some(i) && final(self)@[i].last_rssi_dbm
                    == rssi_dbm && final(self)@[i].nwk_negotiated
            },
    {
        proof {
            if self.limits.min_dbm <= self.limits.max_dbm && short.0 < FIRST_NON_UNICAST_RAW && (link_position(
                self@,
                Some(short),
                Some(extended),
            ) is Some || self@.len() < N || exists|j: int| 0 <= j < self@.len() && !(#[trigger] self@[j]).nwk_negotiated) {
                lemma_adjust_stores(self@, self.limits, N as int, short, extended, delta_db, rssi_dbm, now);
            }
        }
        let (current, created) = match self.get(Some(short), Some(extended)) {
            Some(e) => (e.tx_power_dbm, e.created),
            None => (self.limits.max_dbm, now),
        };
        let sum: i16 = current as i16 + delta_db as i16;
        let sat: i8 = if sum > 127 { 127 } else if sum < -128 { -128 } else { sum as i8 };
        let power = self.limits.clamp(sat);
        match self.set(
            PowerEntry { short, extended, tx_power_dbm: power, last_rssi_dbm: rssi_dbm, nwk_negotiated: true, created },
        ) {
            Ok(()) => Ok(power),
            Err(e) => Err(e),
        }
    }

    /// Marks the link as confirmed by the network layer.
    pub fn mark_negotiated(&mut self, short: Option<ShortAddress>, extended: Option<ExtendedAddress>)
        ensures
            final(self).spec_limits() == old(self).spec_limits(),
            match link_position(old(self)@, short, extended) {
                Some(i) => final(self)@ == old(self)@.update(i, PowerEntry { nwk_negotiated: true, ..old(self)@[i] }),
                None => final(self)@ == old(self)@,
            },
    {
        if let Some(i) = self.position(short, extended) {
            proof {
                lemma_link_position(self@, short, extended);
            }
            let mut e = self.entries[i];
            e.nwk_negotiated = true;
            self.entries.set(i, e);
        }
    }

    /// Removes the link, moving the last entry into its place.
    pub fn remove(&mut self, short: Option<ShortAddress>, extended: Option<ExtendedAddress>) -> (b: bool)
        ensures
            final(self).spec_limits() == old(self).spec_limits(),
            match link_position(old(self)@, short, extended) {
                Some(i) => b && final(self)@ == old(self)@.update(i, old(self)@.last()).drop_last(),
                None => !b && final(self)@ == old(self)@,
            },
    {
        match self.position(short, extended) {
            Some(i) => {
                proof {
                    lemma_link_position(self@, short, extended);
                }
                let _ = self.entries.swap_remove(i);
                true
            },
            None => false,
        }
    }

    /// Forgets every link: after a channel change, a rejoin or a reset all
    /// transmissions return to the maximum power.
    pub fn reset(&mut self)
        ensures
            final(self)@ == Seq::<PowerEntry>::empty(),
            final(self).spec_limits() == old(self).spec_limits(),
    {
        self.entries.clear();
    }

    /// Drops entries the network layer never confirmed within
    /// [`UNNEGOTIATED_LIFETIME_MS`], keeping the others in order.
    pub fn expire(&mut self, now: Instant)
        ensures
            final(self)@ == old(self)@.filter(|e: PowerEntry| still_valid(e, now)),
            final(self).spec_limits() == old(self).spec_limits(),
    {
        let ghost s0 = self@;
        let mut kept: Vec<PowerEntry> = Vec::new();
        let mut i: usize = 0;
        while i < self.entries.len()
            invariant
                self@ == s0,
                i <= s0.len(),
                kept@ == s0.take(i as int).filter(|e: PowerEntry| still_valid(e, now)),
            decreases s0.len() - i,
        {
            let e = self.entries[i];
            proof {
                assert(s0.take(i + 1) =~= s0.take(i as int).push(e));
                s0.take(i as int).lemma_filter_push(e, |e: PowerEntry| still_valid(e, now));
            }
            let age = now.saturating_duration_since(e.created);
            if e.nwk_negotiated || age.0 < UNNEGOTIATED_LIFETIME_MS {
                kept.push(e);
            }
            i = i + 1;
        }
        assert(s0.take(i as int) =~= s0);
        self.entries = kept;
    }

    /// The transmit power for a frame to `dst`: the link's negotiated
    /// power, or `None` (the radio's maximum) for broadcasts and unknown
    /// links.
    pub fn tx_power_for(&self, dst: &MacAddress) -> (r: Option<i8>)
        ensures
            r == spec_tx_power_for(self@, *dst),
    {
        let found = match *dst {
            MacAddress::Short(s) => if s.0 < FIRST_NON_UNICAST_RAW {
                self.get(Some(s), None)
            } else {
                None
            },
            MacAddress::Extended(x) => self.get(None, Some(x)),
            MacAddress::Absent => None,
        };
        match found {
            Some(e) => Some(e.tx_power_dbm),
            None => None,
        }
    }
}

/// The negotiated power of the link to `dst` in a table holding `s`:
/// `None` for broadcasts, non-unicast short addresses and unknown links.
pub open spec fn spec_tx_power_for(s: Seq<PowerEntry>, dst: MacAddress) -> Option<i8> {
    match dst {
        MacAddress::Short(a) => if a.0 < FIRST_NON_UNICAST_RAW {
            match link_position(s, Some(a), None) {
                Some(i) => Some(s[i].tx_power_dbm),
                None => None,
            }
        } else {
            None
        },
        MacAddress::Extended(x) => match link_position(s, None, Some(x)) {
            Some(i) => Some(s[i].tx_power_dbm),
            None => None,
        },
        MacAddress::Absent => None,
    }
}

/// The power a negotiation moves the link to: its current power (the
/// maximum when the link is unknown) plus the delta, saturating, clamped
/// to the limits.
pub open spec fn adjusted_power(
    s: Seq<PowerEntry>,
    lim: PowerLimits,
    short: ShortAddress,
    extended: ExtendedAddress,
    delta_db: i8,
) -> i8 {
    let current = match link_position(s, Some(short), Some(extended)) {
        Some(i) => s[i].tx_power_dbm,
        None => lim.max_dbm,
    };
    lim.spec_clamp(sat_add_i8(current, delta_db))
}

/// What a negotiated power delta does to a table holding `s` with limits
/// `lim` and capacity `cap`: the resulting power and entries, or `None`
/// when the link cannot be stored.
pub open spec fn spec_adjust(
    s: Seq<PowerEntry>,
    lim: PowerLimits,
    cap: int,
    short: ShortAddress,
    extended: ExtendedAddress,
    delta_db: i8,
    rssi_dbm: i8,
    now: Instant,
) -> Option<(i8, Seq<PowerEntry>)> {
    let created = match link_position(s, Some(short), Some(extended)) {
        Some(i) => s[i].created,
        None => now,
    };
    let power = adjusted_power(s, lim, short, extended, delta_db);
    let entry = PowerEntry {
        short,
        extended,
        tx_power_dbm: lim.spec_clamp(power),
        last_rssi_dbm: rssi_dbm,
        nwk_negotiated: true,
        created,
    };
    match spec_power_set(s, entry, cap) {
        Some(t) => Some((power, t)),
        None => None,
    }
}

/// `a + b`, saturating at the bounds of `i8`.
pub open spec fn sat_add_i8(a: i8, b: i8) -> i8 {
    if a + b > 127 {
        127
    } else if a + b < -128 {
        -128i8
    } else {
        (a + b) as i8
    }
}

/// The entry is kept by expiry at `now`: negotiated, or younger than the
/// un-negotiated lifetime.
pub open spec fn still_valid(e: PowerEntry, now: Instant) -> bool {
    e.nwk_negotiated || (if now.0 >= e.created.0 { now.0 - e.created.0 } else { 0 }) < UNNEGOTIATED_LIFETIME_MS
}

/// The first entry naming the link is at `i` when it names it and no
/// entry before it does.
proof fn lemma_link_position_at(s: Seq<PowerEntry>, short: Option<ShortAddress>, extended: Option<ExtendedAddress>, i: int)
    requires
        0 <= i < s.len(),
        names_link(s[i], short, extended),
        forall|j: int| 0 <= j < i ==> !names_link(#[trigger] s[j], short, extended),
    ensures
        link_position(s, short, extended) == Some(i),
{
    lemma_link_position(s, short, extended);
    match link_position(s, short, extended) {
        Some(k) => {
            if k < i {
                assert(!names_link(s[k], short, extended));
            } else if k > i {
                assert(!names_link(s[i], short, extended));
            }
        },
        None => {
            assert(!names_link(s[i], short, extended));
        },
    }
}

/// Storing an entry that names a link (a unicast short address or a known
/// IEEE address) makes a lookup of that link by the same addresses find
/// it, with the stored power, short address and negotiation flag.
pub proof fn lemma_power_set_then_get(s: Seq<PowerEntry>, e: PowerEntry, cap: int)
    requires
        names_link(e, Some(e.short), Some(e.extended)),
        spec_power_set(s, e, cap) is Some,
    ensures
        ({
            let t = spec_power_set(s, e, cap).unwrap();
            match link_position(t, Some(e.short), Some(e.extended)) {
                Some(i) => t[i].tx_power_dbm == e.tx_power_dbm && t[i].short == e.short && t[i].nwk_negotiated
                    == e.nwk_negotiated && t[i].created == e.created,
                None => false,
            }
        }),
{
    let a = Some(e.short);
    let b = Some(e.extended);
    let t = spec_power_set(s, e, cap).unwrap();
    lemma_link_position(s, a, b);
    match link_position(s, a, b) {
        Some(i) => {
            let e2 = if e.extended.0 == 0 {
                PowerEntry { extended: s[i].extended, ..e }
            } else {
                e
            };
            assert(t == s.update(i, e2));
            assert(names_link(e2, a, b));
            assert forall|j: int| 0 <= j < i implies !names_link(#[trigger] t[j], a, b) by {
                assert(t[j] == s[j]);
            }
            lemma_link_position_at(t, a, b, i);
        },
        None => {
            let n = t.len() - 1;
            assert(t[n] == e);
            assert forall|j: int| 0 <= j < n implies !names_link(#[trigger] t[j], a, b) by {
                if s.len() < cap {
                    assert(t[j] == s[j]);
                } else {
                    let v = oldest_unnegotiated(s).unwrap();
                    let u = s.update(v, s.last()).drop_last();
                    assert(t == u.push(e));
                    if j == v {
                        assert(t[j] == s[s.len() - 1]);
                    } else {
                        assert(t[j] == s[j]);
                    }
                }
            }
            lemma_link_position_at(t, a, b, n);
        },
    }
}

/// A table holding an un-negotiated entry has an oldest one.
proof fn lemma_oldest_exists(s: Seq<PowerEntry>)
    requires
        exists|j: int| 0 <= j < s.len() && !(#[trigger] s[j]).nwk_negotiated,
    ensures
        oldest_unnegotiated(s) is Some,
    decreases s.len(),
{
    let n = s.len() - 1;
    let p = s.drop_last();
    let x = s.last();
    if exists|j: int| 0 <= j < p.len() && !(#[trigger] p[j]).nwk_negotiated {
        lemma_oldest_exists(p);
        let k = choose|k: int| is_oldest_unnegotiated(p, k);
        assert(is_oldest_unnegotiated(p, k));
        if !x.nwk_negotiated && x.created.0 < p[k].created.0 {
            assert forall|j: int| 0 <= j < s.len() && !(#[trigger] s[j]).nwk_negotiated implies s[n].created.0
                <= s[j].created.0 by {
                if j < n {
                    assert(p[j] == s[j]);
                }
            }
            assert forall|j: int| 0 <= j < n && !(#[trigger] s[j]).nwk_negotiated implies s[j].created.0
                > s[n].created.0 by {
                assert(p[j] == s[j]);
            }
            assert(is_oldest_unnegotiated(s, n));
        } else {
            assert forall|j: int| 0 <= j < s.len() && !(#[trigger] s[j]).nwk_negotiated implies s[k].created.0
                <= s[j].created.0 by {
                if j < n {
                    assert(p[j] == s[j]);
                }
            }
            assert forall|j: int| 0 <= j < k && !(#[trigger] s[j]).nwk_negotiated implies s[j].created.0
                > s[k].created.0 by {
                assert(p[j] == s[j]);
            }
            assert(p[k] == s[k]);
            assert(is_oldest_unnegotiated(s, k));
        }
    } else {
        let j0 = choose|j: int| 0 <= j < s.len() && !(#[trigger] s[j]).nwk_negotiated;
        if j0 < n {
            assert(p[j0] == s[j0]);
        }
        assert forall|j: int| 0 <= j < n implies (#[trigger] s[j]).nwk_negotiated by {
            assert(p[j] == s[j]);
        }
        assert(is_oldest_unnegotiated(s, n));
    }
}

/// A negotiated power delta for a unicast link succeeds whenever the link
/// is already in the table, the table has room, or some entry was never
/// negotiated (and can be evicted): the link's power becomes its current
/// power (the maximum when unknown) plus the delta, saturating and
/// clamped; a lookup of the link by its short address then gives that
/// power, and the entry records the RSSI and is marked negotiated.
pub proof fn lemma_adjust_stores(
    s: Seq<PowerEntry>,
    lim: PowerLimits,
    cap: int,
    short: ShortAddress,
    extended: ExtendedAddress,
    delta_db: i8,
    rssi_dbm: i8,
    now: Instant,
)
    requires
        lim.min_dbm <= lim.max_dbm,
        short.0 < FIRST_NON_UNICAST_RAW,
        s.len() <= cap,
        link_position(s, Some(short), Some(extended)) is Some || s.len() < cap || exists|j: int|
            0 <= j < s.len() && !(#[trigger] s[j]).nwk_negotiated,
    ensures
        ({
            let current = match link_position(s, Some(short), Some(extended)) {
                Some(i) => s[i].tx_power_dbm,
                None => lim.max_dbm,
            };
            let p = lim.spec_clamp(sat_add_i8(current, delta_db));
            match spec_adjust(s, lim, cap, short, extended, delta_db, rssi_dbm, now) {
                Some((power, t)) => {
                    &&& power == p
                    &&& spec_tx_power_for(t, MacAddress::Short(short)) == Some(p)
                    &&& link_position(t, Some(short), None) matches Some(i) && t[i].last_rssi_dbm == rssi_dbm
                        && t[i].nwk_negotiated && t[i].short == short
                },
                None => false,
            }
        }),
{
    let a = Some(short);
    let b = Some(extended);
    let created = match link_position(s, a, b) {
        Some(i) => s[i].created,
        None => now,
    };
    let power = adjusted_power(s, lim, short, extended, delta_db);
    assert(lim.spec_clamp(power) == power);
    let e = PowerEntry { short, extended, tx_power_dbm: power, last_rssi_dbm: rssi_dbm, nwk_negotiated: true, created };
    lemma_link_position(s, a, b);
    if link_position(s, a, b) is None && s.len() >= cap {
        lemma_oldest_exists(s);
    }
    let t = spec_power_set(s, e, cap).unwrap();
    match link_position(s, a, b) {
        Some(i) => {
            let e2 = if extended.0 == 0 {
                PowerEntry { extended: s[i].extended, ..e }
            } else {
                e
            };
            assert(t == s.update(i, e2));
            assert forall|j: int| 0 <= j < i implies !names_link(#[trigger] t[j], a, None) by {
                assert(t[j] == s[j]);
                assert(!names_link(s[j], a, b));
            }
            lemma_link_position_at(t, a, None, i);
        },
        None => {
            let n = t.len() - 1;
            assert(t[n] == e);
            assert forall|j: int| 0 <= j < n implies !names_link(#[trigger] t[j], a, None) by {
                if s.len() < cap {
                    assert(t[j] == s[j]);
                    assert(!names_link(s[j], a, b));
                } else {
                    let v = oldest_unnegotiated(s).unwrap();
                    let u = s.update(v, s.last()).drop_last();
                    assert(t == u.push(e));
                    if j == v {
                        assert(t[j] == s[s.len() - 1]);
                        assert(!names_link(s[s.len() - 1], a, b));
                    } else {
                        assert(t[j] == s[j]);
                        assert(!names_link(s[j], a, b));
                    }
                }
            }
            lemma_link_position_at(t, a, None, n);
        },
    }
}

/// Clamping gives the power level within the limits closest to the
/// requested one (the requested level itself when it is within them).
pub proof fn lemma_clamp_nearest(lim: PowerLimits, dbm: i8, y: i8)
    requires
        lim.min_dbm <= lim.max_dbm,
    ensures
        lim.min_dbm <= lim.spec_clamp(dbm) <= lim.max_dbm,
        lim.min_dbm <= y <= lim.max_dbm ==> {
            let d1 = if lim.spec_clamp(dbm) >= dbm { lim.spec_clamp(dbm) - dbm } else { dbm - lim.spec_clamp(dbm) };
            let d2 = if y >= dbm { y - dbm } else { dbm - y };
            d1 <= d2
        },
        lim.min_dbm <= dbm <= lim.max_dbm ==> lim.spec_clamp(dbm) == dbm,
{
}

/// Saturating addition gives the `i8` value closest to the true sum.
pub proof fn lemma_sat_add_nearest(a: i8, b: i8, y: i8)
    ensures
        ({
            let r = sat_add_i8(a, b);
            let d1 = if r >= a + b { r - (a + b) } else { (a + b) - r };
            let d2 = if y >= a + b { y - (a + b) } else { (a + b) - y };
            d1 <= d2
        }),
        -128 <= a + b <= 127 ==> sat_add_i8(a, b) == a + b,
{
}

} // verus!
