//! The MAC Interface Table and the NLME-SET-INTERFACE / NLME-GET-INTERFACE
//! primitives: which radio interfaces the network layer may use, their
//! supported channels, the channel in use, whether routers may join
//! through them, and the per-interface counters the application reads
//! (and thereby resets).
use vstd::prelude::*;

use crate::types::{bit_set, Channel, ChannelMask, ChannelPage, CHANNEL_BITS};

verus! {

/// Largest interface index.
pub const MAX_INDEX: u8 = 31;

/// Largest link cost scalar.
pub const MAX_LINK_COST_SCALAR: u8 = 34;

/// Interface type.
#[derive(Clone, Copy, PartialEq, Eq, Debug, Default, Structural)]
pub enum InterfaceType {
    /// An IEEE 802.15.4 radio.
    #[default]
    ZigbeeLink,
    /// A Zigbee Direct BLE connection (supported channels and channel in
    /// use are meaningless).
    TrustedLink,
}

/// Scan type used for network discovery on the interface.
#[derive(Clone, Copy, PartialEq, Eq, Debug, Default, Structural)]
pub enum ScanType {
    /// Beacon requests.
    #[default]
    Active,
    /// Enhanced beacon requests.
    EnhancedActive,
}

/// Duty cycle thresholds in hundredths of a percent; 0 = no limit.
#[derive(Clone, Copy, PartialEq, Eq, Debug, Default, Structural)]
pub struct DutyCycleThresholds {
    /// Warning threshold.
    pub warning: u16,
    /// Critical threshold.
    pub critical: u16,
    /// Regulated threshold.
    pub regulated: u16,
}

/// The counters NLME-GET-INTERFACE returns and resets.
#[derive(Clone, Copy, PartialEq, Eq, Debug, Default, Structural)]
pub struct InterfaceCounters {
    /// Unicast frames received.
    pub rx_ucast: u16,
    /// MAC retries.
    pub tx_ucast_retries: u16,
    /// Failed transactions.
    pub tx_ucast_failures: u16,
    /// Transactions attempted (retries not counted).
    pub tx_ucast_total: u16,
}

impl InterfaceCounters {
    /// All counters at zero.
    pub open spec fn spec_zero() -> InterfaceCounters {
        InterfaceCounters { rx_ucast: 0, tx_ucast_retries: 0, tx_ucast_failures: 0, tx_ucast_total: 0 }
    }
}

/// One entry of the MAC Interface Table.
#[derive(Clone, Debug)]
pub struct MacInterfaceEntry {
    /// Unique index (0..=31).
    pub index: u8,
    /// Enabled for sending and receiving.
    pub state: bool,
    /// Supported channels, one mask per page (each with its page bits).
    pub supported_channels: Vec<ChannelMask>,
    /// The channel in use (page and channel), when enabled.
    pub channel_in_use: Option<(ChannelPage, Channel)>,
    /// Routers may join through this interface.
    pub routers_allowed: bool,
    /// Link power delta transmit rate, seconds (0 = never).
    pub link_power_delta_transmit_rate: u16,
    /// Beacons supported.
    pub beacons_supported: bool,
    /// Enhanced beacons supported.
    pub enhanced_beacons_supported: bool,
    /// Scan type for discovery.
    pub scan_type: ScanType,
    /// Scales every link cost on the interface (1..=34, default 1).
    pub link_cost_scalar: u8,
    /// Zigbee link or Trusted Link.
    pub kind: InterfaceType,
    /// The BLE connection handle of a Trusted Link.
    pub ble_connection_handle: u16,
    /// Power negotiation supported.
    pub power_negotiation_supported: bool,
    /// Duty cycle thresholds.
    pub duty_cycle: DutyCycleThresholds,
    /// Counters since the last NLME-GET-INTERFACE.
    pub counters: InterfaceCounters,
}

/// The mathematical content of a [`MacInterfaceEntry`].
pub struct MacInterfaceEntryView {
    /// Index.
    pub index: u8,
    /// Enabled.
    pub state: bool,
    /// Supported channel masks.
    pub supported_channels: Seq<ChannelMask>,
    /// Channel in use.
    pub channel_in_use: Option<(ChannelPage, Channel)>,
    /// Routers may join.
    pub routers_allowed: bool,
    /// Link power delta transmit rate.
    pub link_power_delta_transmit_rate: u16,
    /// Beacons supported.
    pub beacons_supported: bool,
    /// Enhanced beacons supported.
    pub enhanced_beacons_supported: bool,
    /// Scan type.
    pub scan_type: ScanType,
    /// Link cost scalar.
    pub link_cost_scalar: u8,
    /// Kind.
    pub kind: InterfaceType,
    /// BLE connection handle.
    pub ble_connection_handle: u16,
    /// Power negotiation supported.
    pub power_negotiation_supported: bool,
    /// Duty cycle thresholds.
    pub duty_cycle: DutyCycleThresholds,
    /// Counters.
    pub counters: InterfaceCounters,
}

impl View for MacInterfaceEntry {
    type V = MacInterfaceEntryView;

    open spec fn view(&self) -> MacInterfaceEntryView {
        MacInterfaceEntryView {
            index: self.index,
            state: self.state,
            supported_channels: self.supported_channels@,
            channel_in_use: self.channel_in_use,
            routers_allowed: self.routers_allowed,
            link_power_delta_transmit_rate: self.link_power_delta_transmit_rate,
            beacons_supported: self.beacons_supported,
            enhanced_beacons_supported: self.enhanced_beacons_supported,
            scan_type: self.scan_type,
            link_cost_scalar: self.link_cost_scalar,
            kind: self.kind,
            ble_connection_handle: self.ble_connection_handle,
            power_negotiation_supported: self.power_negotiation_supported,
            duty_cycle: self.duty_cycle,
            counters: self.counters,
        }
    }
}

/// A mask selects a channel on a page.
pub open spec fn mask_has(m: ChannelMask, page: ChannelPage, channel: Channel) -> bool {
    (m.0 >> 27) == page.0 && channel.0 < 27 && bit_set(m.0, channel.0 as u32)
}

/// Some mask of a set selects the channel on the page.
pub open spec fn spec_supports(masks: Seq<ChannelMask>, page: ChannelPage, channel: Channel) -> bool {
    exists|i: int| 0 <= i < masks.len() && mask_has(#[trigger] masks[i], page, channel)
}

/// The channel bits of the first mask for `page`, or none.
pub open spec fn spec_supported_on(masks: Seq<ChannelMask>, page: ChannelPage) -> ChannelMask
    decreases masks.len(),
{
    if masks.len() == 0 {
        ChannelMask(0)
    } else if (masks[0].0 >> 27) == page.0 {
        ChannelMask(masks[0].0 & CHANNEL_BITS)
    } else {
        spec_supported_on(masks.drop_first(), page)
    }
}

/// Copies a list of masks.
fn copy_masks(m: &[ChannelMask]) -> (v: Vec<ChannelMask>)
    ensures
        v@ == m@,
{
    let mut v: Vec<ChannelMask> = Vec::new();
    let mut i: usize = 0;
    while i < m.len()
        invariant
            i <= m@.len(),
            v@ == m@.take(i as int),
        decreases m@.len() - i,
    {
        v.push(m[i]);
        i = i + 1;
        assert(v@ =~= m@.take(i as int));
    }
    assert(m@.take(i as int) =~= m@);
    v
}

/// The view of a freshly made radio interface entry.
pub open spec fn spec_radio(index: u8, supported: ChannelMask) -> MacInterfaceEntryView {
    MacInterfaceEntryView {
                index,
                state: true,
                supported_channels: seq![supported],
                channel_in_use: None,
                routers_allowed: true,
                link_power_delta_transmit_rate: 16,
                beacons_supported: true,
                enhanced_beacons_supported: false,
                scan_type: ScanType::Active,
                link_cost_scalar: 1,
                kind: InterfaceType::ZigbeeLink,
                ble_connection_handle: 0,
                power_negotiation_supported: false,
                duty_cycle: DutyCycleThresholds { warning: 0, critical: 0, regulated: 0 },
                counters: InterfaceCounters::spec_zero(),
            }
}

impl MacInterfaceEntry {
    /// An enabled 802.15.4 interface with the given supported channels and
    /// defaults for everything else.
    pub fn radio(index: u8, supported: ChannelMask) -> (e: MacInterfaceEntry)
        ensures
            e@ == spec_radio(index, supported),
    {
        let mut supported_channels: Vec<ChannelMask> = Vec::new();
        supported_channels.push(supported);
        MacInterfaceEntry {
            index,
            state: true,
            supported_channels,
            channel_in_use: None,
            routers_allowed: true,
            link_power_delta_transmit_rate: 16,
            beacons_supported: true,
            enhanced_beacons_supported: false,
            scan_type: ScanType::Active,
            link_cost_scalar: 1,
            kind: InterfaceType::ZigbeeLink,
            ble_connection_handle: 0,
            power_negotiation_supported: false,
            duty_cycle: DutyCycleThresholds { warning: 0, critical: 0, regulated: 0 },
            counters: InterfaceCounters { rx_ucast: 0, tx_ucast_retries: 0, tx_ucast_failures: 0, tx_ucast_total: 0 },
        }
    }

    /// A Trusted Link entry for a Zigbee Direct BLE connection.
    pub fn trusted_link(index: u8, ble_connection_handle: u16) -> (e: MacInterfaceEntry)
        ensures
            e@ == (MacInterfaceEntryView {
                index,
                state: true,
                supported_channels: Seq::empty(),
                channel_in_use: None,
                routers_allowed: true,
                link_power_delta_transmit_rate: 16,
                beacons_supported: false,
                enhanced_beacons_supported: false,
                scan_type: ScanType::Active,
                link_cost_scalar: 1,
                kind: InterfaceType::TrustedLink,
                ble_connection_handle,
                power_negotiation_supported: false,
                duty_cycle: DutyCycleThresholds { warning: 0, critical: 0, regulated: 0 },
                counters: InterfaceCounters::spec_zero(),
            }),
    {
        let r = Self::radio(index, ChannelMask(0));
        MacInterfaceEntry {
            supported_channels: Vec::new(),
            beacons_supported: false,
            kind: InterfaceType::TrustedLink,
            ble_connection_handle,
            ..r
        }
    }

    /// Whether the interface supports `channel` on `page`.
    pub fn supports(&self, page: ChannelPage, channel: Channel) -> (b: bool)
        ensures
            b == spec_supports(self@.supported_channels, page, channel),
    {
        masks_support(self.supported_channels.as_slice(), page, channel)
    }

    /// The supported channels on `page`.
    pub fn supported_on(&self, page: ChannelPage) -> (m: ChannelMask)
        ensures
            m == spec_supported_on(self@.supported_channels, page),
    {
        let s = self.supported_channels.as_slice();
        assert(s@.skip(0) =~= s@);
        let mut i: usize = 0;
        while i < s.len()
            invariant
                i <= s@.len(),
                s@ == self.supported_channels@,
                spec_supported_on(s@, page) == spec_supported_on(s@.skip(i as int), page),
            decreases s@.len() - i,
        {
            proof {
                assert(s@.skip(i as int).drop_first() =~= s@.skip(i + 1));
                assert(s@.skip(i as int)[0] == s@[i as int]);
            }
            if s[i].page() == page {
                return s[i].channels_only();
            }
            i = i + 1;
        }
        assert(s@.skip(i as int) =~= Seq::<ChannelMask>::empty());
        ChannelMask(0)
    }

    /// A copy of the entry.
    pub fn copy(&self) -> (e: MacInterfaceEntry)
        ensures
            e@ == self@,
    {
        MacInterfaceEntry {
            index: self.index,
            state: self.state,
            supported_channels: copy_masks(self.supported_channels.as_slice()),
            channel_in_use: self.channel_in_use,
            routers_allowed: self.routers_allowed,
            link_power_delta_transmit_rate: self.link_power_delta_transmit_rate,
            beacons_supported: self.beacons_supported,
            enhanced_beacons_supported: self.enhanced_beacons_supported,
            scan_type: self.scan_type,
            link_cost_scalar: self.link_cost_scalar,
            kind: self.kind,
            ble_connection_handle: self.ble_connection_handle,
            power_negotiation_supported: self.power_negotiation_supported,
            duty_cycle: self.duty_cycle,
            counters: self.counters,
        }
    }
}

/// Whether some mask selects `channel` on `page`.
fn masks_support(s: &[ChannelMask], page: ChannelPage, channel: Channel) -> (b: bool)
    ensures
        b == spec_supports(s@, page, channel),
{
    let mut i: usize = 0;
    while i < s.len()
        invariant
            i <= s@.len(),
            forall|j: int| 0 <= j < i ==> !mask_has(#[trigger] s@[j], page, channel),
        decreases s@.len() - i,
    {
        if s[i].page() == page && s[i].contains(channel) {
            assert(mask_has(s@[i as int], page, channel));
            return true;
        }
        i = i + 1;
    }
    false
}

/// NLME-SET-INTERFACE.request parameters.
#[derive(Clone, Debug)]
pub struct SetInterface {
    /// The interface.
    pub index: u8,
    /// Enable or disable.
    pub state: bool,
    /// A single channel to use (page and channel); `None` = unspecified.
    pub channel_to_use: Option<(ChannelPage, Channel)>,
    /// The complete set of channels supported by the interface; `None`
    /// keeps the current set.
    pub supported_channels: Option<Vec<ChannelMask>>,
    /// Routers may join through this interface.
    pub routers_allowed: bool,
    /// Duty cycle thresholds (tenths of a percent in the request, stored
    /// in hundredths).
    pub duty_cycle: DutyCycleThresholds,
    /// Link cost scalar (1..=34).
    pub link_cost_scalar: u8,
}

/// NLME-GET-INTERFACE.confirm: the entry as read; the counters are reset
/// by the read.
#[derive(Clone, Debug)]
pub struct InterfaceInfo {
    /// The entry.
    pub entry: MacInterfaceEntry,
}

/// Why a request was refused.
#[derive(Clone, Copy, PartialEq, Eq, Debug, Structural)]
pub enum InterfaceError {
    /// No entry with that index.
    UnknownInterface,
    /// Disabling would leave no enabled interface.
    LastInterface,
    /// The channel is not a single supported channel.
    InvalidChannel,
    /// The link cost scalar is out of range, or the table is full.
    InvalidParameter,
}

/// The views of entries.
pub open spec fn entry_views(s: Seq<MacInterfaceEntry>) -> Seq<MacInterfaceEntryView> {
    s.map_values(|e: MacInterfaceEntry| e@)
}

/// Index of the first entry with interface index `index`.
pub open spec fn find_index(s: Seq<MacInterfaceEntryView>, index: u8) -> Option<int>
    decreases s.len(),
{
    if s.len() == 0 {
        None
    } else if s[0].index == index {
        Some(0)
    } else {
        match find_index(s.drop_first(), index) {
            Some(i) => Some(i + 1),
            None => None,
        }
    }
}

/// `find_index` is the lowest position holding the index.
pub proof fn lemma_find_index(s: Seq<MacInterfaceEntryView>, index: u8)
    ensures
        match find_index(s, index) {
            Some(i) => 0 <= i < s.len() && s[i].index == index && forall|j: int| 0 <= j < i ==> (#[trigger] s[j]).index != index,
            None => forall|j: int| 0 <= j < s.len() ==> (#[trigger] s[j]).index != index,
        },
    decreases s.len(),
{
    if s.len() > 0 && s[0].index != index {
        lemma_find_index(s.drop_first(), index);
        assert forall|j: int| 1 <= j < s.len() implies s[j] == s.drop_first()[j - 1] by {}
    }
}

/// `v * 10`, saturating.
pub open spec fn sat_mul10(v: u16) -> u16 {
    if v * 10 > u16::MAX { u16::MAX } else { (v * 10) as u16 }
}

/// What NLME-SET-INTERFACE does to a table holding `s`: the new entries,
/// or the refusal.
pub open spec fn spec_set_interface(
    s: Seq<MacInterfaceEntryView>,
    index: u8,
    state: bool,
    channel_to_use: Option<(ChannelPage, Channel)>,
    supported_channels: Option<Seq<ChannelMask>>,
    routers_allowed: bool,
    duty_cycle: DutyCycleThresholds,
    link_cost_scalar: u8,
) -> Result<Seq<MacInterfaceEntryView>, InterfaceError> {
    match find_index(s, index) {
        None => Err(InterfaceError::UnknownInterface),
        Some(pos) => {
            let e = s[pos];
            if !state {
                if !(exists|j: int| 0 <= j < s.len() && (#[trigger] s[j]).index != index && s[j].state) {
                    Err(InterfaceError::LastInterface)
                } else {
                    Ok(s.update(pos, MacInterfaceEntryView { state: false, channel_in_use: None, ..e }))
                }
            } else if !(1 <= link_cost_scalar <= MAX_LINK_COST_SCALAR) {
                Err(InterfaceError::InvalidParameter)
            } else {
                let supported = match supported_channels {
                    Some(v) => v,
                    None => e.supported_channels,
                };
                let updated = MacInterfaceEntryView {
                    supported_channels: supported,
                    state: true,
                    routers_allowed,
                    link_cost_scalar,
                    duty_cycle: DutyCycleThresholds {
                        warning: sat_mul10(duty_cycle.warning),
                        critical: sat_mul10(duty_cycle.critical),
                        regulated: sat_mul10(duty_cycle.regulated),
                    },
                    ..e
                };
                if e.kind is ZigbeeLink {
                    match channel_to_use {
                        None => Err(InterfaceError::InvalidChannel),
                        Some((page, channel)) => if !spec_supports(supported, page, channel) {
                            Err(InterfaceError::InvalidChannel)
                        } else {
                            Ok(s.update(pos, MacInterfaceEntryView { channel_in_use: Some((page, channel)), ..updated }))
                        },
                    }
                } else {
                    Ok(s.update(pos, updated))
                }
            }
        },
    }
}

/// The MAC interface table holding at most `N` entries.
#[derive(Clone, Debug)]
pub struct MacInterfaceTable<const N: usize> {
    entries: Vec<MacInterfaceEntry>,
}

impl<const N: usize> View for MacInterfaceTable<N> {
    type V = Seq<MacInterfaceEntryView>;

    closed spec fn view(&self) -> Seq<MacInterfaceEntryView> {
        entry_views(self.entries@)
    }
}

/// Replacing one entry replaces its view.
proof fn lemma_entry_views_update(s: Seq<MacInterfaceEntry>, i: int)
    requires
        0 <= i < s.len(),
    ensures
        forall|x: MacInterfaceEntry| #[trigger] entry_views(s.update(i, x)) == entry_views(s).update(i, x@),
{
    assert forall|x: MacInterfaceEntry| #[trigger] entry_views(s.update(i, x)) == entry_views(s).update(i, x@) by {
        assert(entry_views(s.update(i, x)) =~= entry_views(s).update(i, x@));
    }
}

impl<const N: usize> MacInterfaceTable<N> {
    /// The table holds at most `N` entries.
    pub open spec fn wf(&self) -> bool {
        self@.len() <= N
    }

    /// A table with one enabled radio interface (index 0), when `N` leaves
    /// room for it.
    pub fn single(supported: ChannelMask) -> (t: Self)
        ensures
            N >= 1 ==> t@ == seq![spec_radio(0, supported)],
            N == 0 ==> t@ == Seq::<MacInterfaceEntryView>::empty(),
            t.wf(),
    {
        let mut entries: Vec<MacInterfaceEntry> = Vec::new();
        if N >= 1 {
            let e = MacInterfaceEntry::radio(0, supported);
            entries.push(e);
        }
        let t = MacInterfaceTable { entries };
        proof {
            if N >= 1 {
                assert(t@ =~= seq![spec_radio(0, supported)]);
            } else {
                assert(t@ =~= Seq::<MacInterfaceEntryView>::empty());
            }
        }
        t
    }

    /// The entries.
    pub fn entries(&self) -> (v: &[MacInterfaceEntry])
        ensures
            entry_views(v@) == self@,
    {
        self.entries.as_slice()
    }

    /// Positions of the enabled entries, in table order.
    pub fn enabled(&self) -> (v: Vec<usize>)
        ensures
            forall|k: int| 0 <= k < v@.len() ==> (#[trigger] v@[k]) < self@.len() && self@[v@[k] as int].state,
            forall|j: int| 0 <= j < self@.len() && (#[trigger] self@[j]).state ==> v@.contains(j as usize),
            forall|a: int, b: int| #![trigger v@[a], v@[b]] 0 <= a < b < v@.len() ==> v@[a] < v@[b],
    {
        let mut v: Vec<usize> = Vec::new();
        let mut i: usize = 0;
        while i < self.entries.len()
            invariant
                i <= self@.len(),
                self@.len() == self.entries@.len(),
                forall|k: int| 0 <= k < v@.len() ==> (#[trigger] v@[k]) < i && self@[v@[k] as int].state,
                forall|j: int| 0 <= j < i && (#[trigger] self@[j]).state ==> v@.contains(j as usize),
                forall|a: int, b: int| #![trigger v@[a], v@[b]] 0 <= a < b < v@.len() ==> v@[a] < v@[b],
            decreases self@.len() - i,
        {
            if self.entries[i].state {
                let ghost v0 = v@;
                v.push(i);
                proof {
                    assert forall|j: int| 0 <= j < i + 1 && (#[trigger] self@[j]).state implies v@.contains(j as usize) by {
                        if j < i {
                            let k = choose|k: int| 0 <= k < v0.len() && v0[k] == j as usize;
                            assert(v@[k] == j as usize);
                        } else {
                            assert(v@[v0.len() as int] == i);
                        }
                    }
                }
            }
            i = i + 1;
        }
        v
    }

    fn position(&self, index: u8) -> (r: Option<usize>)
        ensures
            find_index(self@, index) == (match r {
                Some(i) => Some(i as int),
                None => None,
            }),
            r matches Some(i) ==> i < self@.len(),
    {
        proof {
            lemma_find_index(self@, index);
        }
        let mut i: usize = 0;
        while i < self.entries.len()
            invariant
                i <= self@.len(),
                self@.len() == self.entries@.len(),
                forall|j: int| 0 <= j < i ==> (#[trigger] self@[j]).index != index,
                match find_index(self@, index) {
                    Some(k) => 0 <= k < self@.len() && self@[k].index == index && forall|j: int|
                        0 <= j < k ==> (#[trigger] self@[j]).index != index,
                    None => forall|j: int| 0 <= j < self@.len() ==> (#[trigger] self@[j]).index != index,
                },
            decreases self@.len() - i,
        {
            if self.entries[i].index == index {
                proof {
                    match find_index(self@, index) {
                        Some(k) => {
                            if k < i {
                                assert(self@[k].index != index);
                            } else if k > i {
                                assert(self@[i as int].index != index);
                            }
                        },
                        None => {
                            assert(self@[i as int].index != index);
                        },
                    }
                }
                return Some(i);
            }
            i = i + 1;
        }
        proof {
            if let Some(k) = find_index(self@, index) {
                assert(self@[k].index != index);
            }
        }
        None
    }

    /// The entry with `index`.
    pub fn get(&self, index: u8) -> (r: Option<&MacInterfaceEntry>)
        ensures
            match find_index(self@, index) {
                Some(i) => r matches Some(e) && e@ == self@[i],
                None => r is None,
            },
    {
        match self.position(index) {
            Some(i) => Some(&self.entries[i]),
            None => None,
        }
    }

    /// The entry with `index`, mutable.
    pub fn get_mut(&mut self, index: u8) -> (r: Option<&mut MacInterfaceEntry>)
        ensures
            match find_index(old(self)@, index) {
                Some(i) => r is Some && (*r->0)@ == old(self)@[i] && final(self)@ == old(self)@.update(i, (*final(r->0))@),
                None => r is None && final(self)@ == old(self)@,
            },
    {
        match self.position(index) {
            Some(i) => {
                proof {
                    lemma_entry_views_update(self.entries@, i as int);
                }
                Some(&mut self.entries[i])
            },
            None => None,
        }
    }

    /// Adds an entry, replacing one with the same index; an index above
    /// [`MAX_INDEX`] or a full table is refused.
    pub fn insert(&mut self, entry: MacInterfaceEntry) -> (r: Result<(), InterfaceError>)
        requires
            old(self).wf(),
        ensures
            final(self).wf(),
            entry.index > MAX_INDEX ==> r == Err::<(), InterfaceError>(InterfaceError::InvalidParameter) && final(self)@
                == old(self)@,
            entry.index <= MAX_INDEX ==> match find_index(old(self)@, entry.index) {
                Some(i) => r is Ok && final(self)@ == old(self)@.update(i, entry@),
                None => if old(self)@.len() < N {
                    r is Ok && final(self)@ == old(self)@.push(entry@)
                } else {
                    r == Err::<(), InterfaceError>(InterfaceError::InvalidParameter) && final(self)@ == old(self)@
                },
            },
    {
        if entry.index > MAX_INDEX {
            return Err(InterfaceError::InvalidParameter);
        }
        match self.position(entry.index) {
            Some(i) => {
                proof {
                    lemma_entry_views_update(self.entries@, i as int);
                }
                self.entries.set(i, entry);
                Ok(())
            },
            None => {
                if self.entries.len() >= N {
                    return Err(InterfaceError::InvalidParameter);
                }
                let ghost e0 = self.entries@;
                let ghost ev = entry@;
                self.entries.push(entry);
                proof {
                    assert(entry_views(self.entries@) =~= entry_views(e0).push(ev));
                }
                Ok(())
            },
        }
    }

    /// Removes an entry (a closed Trusted Link), moving the last entry
    /// into its place.
    pub fn remove(&mut self, index: u8) -> (b: bool)
        ensures
            match find_index(old(self)@, index) {
                Some(i) => b && final(self)@ == old(self)@.update(i, old(self)@.last()).drop_last(),
                None => !b && final(self)@ == old(self)@,
            },
    {
        match self.position(index) {
            Some(i) => {
                let ghost e0 = self.entries@;
                let _ = self.entries.swap_remove(i);
                proof {
                    assert(entry_views(self.entries@) =~= entry_views(e0).update(i as int, entry_views(e0).last()).drop_last());
                }
                true
            },
            None => false,
        }
    }

    /// NLME-SET-INTERFACE.request.
    pub fn set_interface(&mut self, req: &SetInterface) -> (r: Result<(), InterfaceError>)
        ensures
            match spec_set_interface(
                old(self)@,
                req.index,
                req.state,
                req.channel_to_use,
                match req.supported_channels {
                    Some(v) => Some(v@),
                    None => None,
                },
                req.routers_allowed,
                req.duty_cycle,
                req.link_cost_scalar,
            ) {
                Ok(t) => r is Ok && final(self)@ == t,
                Err(e) => r == Err::<(), InterfaceError>(e) && final(self)@ == old(self)@,
            },
    {
        let pos = match self.position(req.index) {
            Some(p) => p,
            None => return Err(InterfaceError::UnknownInterface),
        };
        let ghost s = self@;
        if !req.state {
            let mut other = false;
            let mut j: usize = 0;
            while j < self.entries.len()
                invariant
                    j <= s.len(),
                    s == self@,
                    s.len() == self.entries@.len(),
                    other == exists|k: int| 0 <= k < j && (#[trigger] s[k]).index != req.index && s[k].state,
                decreases s.len() - j,
            {
                if self.entries[j].index != req.index && self.entries[j].state {
                    other = true;
                }
                proof {
                    if other && !(exists|k: int| 0 <= k < j && (#[trigger] s[k]).index != req.index && s[k].state) {
                        assert(s[j as int].index != req.index && s[j as int].state);
                    }
                    if !other {
                        assert forall|k: int| 0 <= k < j + 1 implies !((#[trigger] s[k]).index != req.index && s[k].state) by {}
                    }
                }
                j = j + 1;
            }
            if !other {
                return Err(InterfaceError::LastInterface);
            }
            let mut e = self.entries[pos].copy();
            e.state = false;
            e.channel_in_use = None;
            proof {
                lemma_entry_views_update(self.entries@, pos as int);
            }
            self.entries.set(pos, e);
            return Ok(());
        }
        if req.link_cost_scalar < 1 || req.link_cost_scalar > MAX_LINK_COST_SCALAR {
            return Err(InterfaceError::InvalidParameter);
        }
        let supported: Vec<ChannelMask> = match &req.supported_channels {
            Some(v) => copy_masks(v.as_slice()),
            None => copy_masks(self.entries[pos].supported_channels.as_slice()),
        };
        let mut e = self.entries[pos].copy();
        if matches!(e.kind, InterfaceType::ZigbeeLink) {
            let (page, channel) = match req.channel_to_use {
                Some(pc) => pc,
                None => return Err(InterfaceError::InvalidChannel),
            };
            if !masks_support(supported.as_slice(), page, channel) {
                return Err(InterfaceError::InvalidChannel);
            }
            e.channel_in_use = Some((page, channel));
        }
        e.supported_channels = supported;
        e.state = true;
        e.routers_allowed = req.routers_allowed;
        e.link_cost_scalar = req.link_cost_scalar;
        e.duty_cycle =
            DutyCycleThresholds {
                warning: sat_mul10_exec(req.duty_cycle.warning),
                critical: sat_mul10_exec(req.duty_cycle.critical),
                regulated: sat_mul10_exec(req.duty_cycle.regulated),
            };
        proof {
            lemma_entry_views_update(self.entries@, pos as int);
        }
        self.entries.set(pos, e);
        Ok(())
    }

    /// NLME-GET-INTERFACE.request: the entry, with its counters reset for
    /// the next read.
    pub fn get_interface(&mut self, index: u8) -> (r: Result<InterfaceInfo, InterfaceError>)
        ensures
            match find_index(old(self)@, index) {
                Some(i) => r matches Ok(info) && info.entry@ == old(self)@[i] && final(self)@ == old(self)@.update(
                    i,
                    MacInterfaceEntryView { counters: InterfaceCounters::spec_zero(), ..old(self)@[i] },
                ),
                None => r == Err::<InterfaceInfo, InterfaceError>(InterfaceError::UnknownInterface) && final(self)@
                    == old(self)@,
            },
    {
        match self.position(index) {
            Some(i) => {
                let info = InterfaceInfo { entry: self.entries[i].copy() };
                let mut e = self.entries[i].copy();
                e.counters = InterfaceCounters { rx_ucast: 0, tx_ucast_retries: 0, tx_ucast_failures: 0, tx_ucast_total: 0 };
                proof {
                    lemma_entry_views_update(self.entries@, i as int);
                }
                self.entries.set(i, e);
                Ok(info)
            },
            None => Err(InterfaceError::UnknownInterface),
        }
    }

    /// The first enabled radio interface that carries `channel` on
    /// `page`.
    pub fn interface_for(&self, page: ChannelPage, channel: Channel) -> (r: Option<&MacInterfaceEntry>)
        ensures
            match r {
                Some(e) => exists|i: int|
                    0 <= i < self@.len() && self@[i] == e@ && carries(self@[i], page, channel) && forall|j: int|
                        0 <= j < i ==> !carries(#[trigger] self@[j], page, channel),
                None => forall|j: int| 0 <= j < self@.len() ==> !carries(#[trigger] self@[j], page, channel),
            },
    {
        let mut i: usize = 0;
        while i < self.entries.len()
            invariant
                i <= self@.len(),
                self@.len() == self.entries@.len(),
                forall|j: int| 0 <= j < i ==> !carries(#[trigger] self@[j], page, channel),
            decreases self@.len() - i,
        {
            let e = &self.entries[i];
            if e.state && matches!(e.kind, InterfaceType::ZigbeeLink) && e.supports(page, channel) {
                assert(self@[i as int] == e@);
                return Some(e);
            }
            i = i + 1;
        }
        None
    }

    /// The channels of `mask` (on its page) that some enabled radio
    /// interface supports.
    pub fn supported_subset(&self, mask: ChannelMask) -> (m: ChannelMask)
        ensures
            m.0 == (subset_bits(self@, mask, self@.len() as int) & CHANNEL_BITS) | ((((mask.0 >> 27) as u8 as u32) & 0x1F) << 27),
    {
        let page = mask.page();
        let mut out: u32 = 0;
        let mut i: usize = 0;
        while i < self.entries.len()
            invariant
                i <= self@.len(),
                self@.len() == self.entries@.len(),
                page.0 == (mask.0 >> 27),
                out == subset_bits(self@, mask, i as int),
            decreases self@.len() - i,
        {
            let e = &self.entries[i];
            if e.state && matches!(e.kind, InterfaceType::ZigbeeLink) {
                out = out | (mask.channels_only().raw() & e.supported_on(page).raw());
            }
            i = i + 1;
        }
        ChannelMask(out).with_page(page)
    }

    /// A link cost scaled by the interface's link cost scalar (1 for an
    /// unknown interface, at least 1), capped at the maximum link cost 7.
    pub fn scaled_link_cost(&self, index: u8, cost: u8) -> (c: u8)
        ensures
            ({
                let scalar = match find_index(self@, index) {
                    Some(i) => if self@[i].link_cost_scalar < 1 { 1 } else { self@[i].link_cost_scalar },
                    None => 1,
                };
                c == if cost * scalar > 7 { 7 } else { cost * scalar }
            }),
    {
        let scalar: u8 = match self.get(index) {
            Some(e) => if e.link_cost_scalar < 1 {
                1
            } else {
                e.link_cost_scalar
            },
            None => 1,
        };
        assert((cost as int) * (scalar as int) <= 65025) by (nonlinear_arith)
            requires
                cost <= 255,
                scalar <= 255,
        ;
        let prod: u16 = (cost as u16) * (scalar as u16);
        if prod > 7 {
            7
        } else {
            prod as u8
        }
    }

    /// Counts a unicast transmission on the interface.
    pub fn note_tx(&mut self, index: u8, retries: u16, failed: bool)
        ensures
            match find_index(old(self)@, index) {
                Some(i) => final(self)@ == old(self)@.update(
                    i,
                    MacInterfaceEntryView {
                        counters: InterfaceCounters {
                            tx_ucast_total: sat_add16(old(self)@[i].counters.tx_ucast_total, 1),
                            tx_ucast_retries: sat_add16(old(self)@[i].counters.tx_ucast_retries, retries),
                            tx_ucast_failures: if failed {
                                sat_add16(old(self)@[i].counters.tx_ucast_failures, 1)
                            } else {
                                old(self)@[i].counters.tx_ucast_failures
                            },
                            ..old(self)@[i].counters
                        },
                        ..old(self)@[i]
                    },
                ),
                None => final(self)@ == old(self)@,
            },
    {
        if let Some(e) = self.get_mut(index) {
            e.counters.tx_ucast_total = e.counters.tx_ucast_total.saturating_add(1);
            e.counters.tx_ucast_retries = e.counters.tx_ucast_retries.saturating_add(retries);
            if failed {
                e.counters.tx_ucast_failures = e.counters.tx_ucast_failures.saturating_add(1);
            }
        }
    }

    /// Counts a unicast reception on the interface.
    pub fn note_rx(&mut self, index: u8)
        ensures
            match find_index(old(self)@, index) {
                Some(i) => final(self)@ == old(self)@.update(
                    i,
                    MacInterfaceEntryView {
                        counters: InterfaceCounters {
                            rx_ucast: sat_add16(old(self)@[i].counters.rx_ucast, 1),
                            ..old(self)@[i].counters
                        },
                        ..old(self)@[i]
                    },
                ),
                None => final(self)@ == old(self)@,
            },
    {
        if let Some(e) = self.get_mut(index) {
            e.counters.rx_ucast = e.counters.rx_ucast.saturating_add(1);
        }
    }
}

/// `v * 10`, saturating.
fn sat_mul10_exec(v: u16) -> (r: u16)
    ensures
        r == sat_mul10(v),
{
    if v > u16::MAX / 10 {
        u16::MAX
    } else {
        v * 10
    }
}

/// `a + b`, saturating.
pub open spec fn sat_add16(a: u16, b: u16) -> u16 {
    if a + b > u16::MAX { u16::MAX } else { (a + b) as u16 }
}

/// The entry is an enabled radio interface carrying the channel.
pub open spec fn carries(e: MacInterfaceEntryView, page: ChannelPage, channel: Channel) -> bool {
    e.state && e.kind is ZigbeeLink && spec_supports(e.supported_channels, page, channel)
}

/// The union, over the first `n` entries that are enabled radio
/// interfaces, of the mask's channels each supports on the mask's page.
pub open spec fn subset_bits(s: Seq<MacInterfaceEntryView>, mask: ChannelMask, n: int) -> u32
    decreases n,
{
    if n <= 0 || n > s.len() {
        0
    } else {
        let prev = subset_bits(s, mask, n - 1);
        let e = s[n - 1];
        if e.state && e.kind is ZigbeeLink {
            prev | ((mask.0 & CHANNEL_BITS) & spec_supported_on(e.supported_channels, ChannelPage((mask.0 >> 27) as u8)).0)
        } else {
            prev
        }
    }
}

/// After a successful NLME-SET-INTERFACE the interface reads back as set:
/// it stands where it stood, in the state asked for, and when enabled
/// with the link cost scalar and routers-allowed flag given.
pub proof fn lemma_set_then_get_interface(
    s: Seq<MacInterfaceEntryView>,
    index: u8,
    state: bool,
    channel_to_use: Option<(ChannelPage, Channel)>,
    supported_channels: Option<Seq<ChannelMask>>,
    routers_allowed: bool,
    duty_cycle: DutyCycleThresholds,
    link_cost_scalar: u8,
)
    requires
        spec_set_interface(s, index, state, channel_to_use, supported_channels, routers_allowed, duty_cycle, link_cost_scalar)
            is Ok,
    ensures
        ({
            let t = spec_set_interface(
                s,
                index,
                state,
                channel_to_use,
                supported_channels,
                routers_allowed,
                duty_cycle,
                link_cost_scalar,
            ).unwrap();
            match find_index(t, index) {
                Some(i) => {
                    &&& find_index(s, index) == Some(i)
                    &&& t[i].state == state
                    &&& state ==> t[i].link_cost_scalar == link_cost_scalar && t[i].routers_allowed == routers_allowed
                    &&& !state ==> t[i].channel_in_use is None
                },
                None => false,
            }
        }),
{
    let t = spec_set_interface(
        s,
        index,
        state,
        channel_to_use,
        supported_channels,
        routers_allowed,
        duty_cycle,
        link_cost_scalar,
    ).unwrap();
    lemma_find_index(s, index);
    let pos = find_index(s, index).unwrap();
    assert(t.len() == s.len());
    assert(t[pos].index == s[pos].index);
    assert forall|j: int| 0 <= j < pos implies (#[trigger] t[j]).index != index by {
        assert(t[j] == s[j]);
    }
    lemma_find_index(t, index);
    match find_index(t, index) {
        Some(k) => {
            if k < pos {
                assert(t[k] == s[k]);
            } else if k > pos {
                assert(t[pos].index == index);
            }
        },
        None => {
            assert(t[pos].index == index);
        },
    }
}

} // verus!
