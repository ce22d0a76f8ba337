//! Basic identifiers and quantities shared by the MAC and network layers.
use vstd::prelude::*;

verus! {

/// Raw value of the coordinator's network address.
pub const COORDINATOR_RAW: u16 = 0x0000;
/// Raw value of the all-devices broadcast address.
pub const BROADCAST_ALL_RAW: u16 = 0xFFFF;
/// Raw value of the rx-on-when-idle broadcast address.
pub const BROADCAST_RX_ON_RAW: u16 = 0xFFFD;
/// Raw value of the routers-and-coordinator broadcast address.
pub const BROADCAST_ROUTERS_RAW: u16 = 0xFFFC;
/// Raw value meaning "no short address allocated".
pub const NO_SHORT_ADDRESS_RAW: u16 = 0xFFFE;
/// Lowest raw value that is not a unicast address.
pub const FIRST_NON_UNICAST_RAW: u16 = 0xFFF8;

/// A 16-bit network (short) address.
#[derive(Clone, Copy, PartialEq, Eq, Hash, Debug, Structural)]
pub struct ShortAddress(pub u16);

impl ShortAddress {
    /// True for broadcast and reserved values (`0xFFF8..=0xFFFF`).
    pub fn is_broadcast(self) -> (b: bool)
        ensures
            b == (self.0 >= FIRST_NON_UNICAST_RAW),
    {
        self.0 >= FIRST_NON_UNICAST_RAW
    }

    /// True for an address that designates a single device.
    pub fn is_unicast(self) -> (b: bool)
        ensures
            b == (self.0 < FIRST_NON_UNICAST_RAW),
    {
        self.0 < FIRST_NON_UNICAST_RAW
    }

    /// True for an address a parent may hand out: unicast and not the
    /// coordinator's.
    pub fn is_assignable(self) -> (b: bool)
        ensures
            b == (self.0 != COORDINATOR_RAW && self.0 < FIRST_NON_UNICAST_RAW),
    {
        self.0 != COORDINATOR_RAW && self.0 < FIRST_NON_UNICAST_RAW
    }
}

/// A 64-bit IEEE (extended) address; also used for extended PAN ids.
#[derive(Clone, Copy, PartialEq, Eq, Hash, Debug, Structural)]
pub struct ExtendedAddress(pub u64);

/// A 16-bit PAN identifier.
#[derive(Clone, Copy, PartialEq, Eq, Hash, Debug, Structural)]
pub struct PanId(pub u16);

/// Raw value of the broadcast PAN identifier.
pub const PAN_BROADCAST_RAW: u16 = 0xFFFF;

/// A channel page (0 for 2.4 GHz O-QPSK).
#[derive(Clone, Copy, PartialEq, Eq, Hash, Debug, Structural)]
pub struct ChannelPage(pub u8);

/// A logical channel number within its page.
#[derive(Clone, Copy, PartialEq, Eq, Hash, Debug, Structural)]
pub struct Channel(pub u8);

/// First 2.4 GHz channel.
pub const FIRST_2_4GHZ_CHANNEL: u8 = 11;
/// Last 2.4 GHz channel.
pub const LAST_2_4GHZ_CHANNEL: u8 = 26;

impl Channel {
    /// A 2.4 GHz channel (11..=26).
    pub fn new_2_4ghz(n: u8) -> (c: Option<Channel>)
        ensures
            c == (if FIRST_2_4GHZ_CHANNEL <= n <= LAST_2_4GHZ_CHANNEL {
                Some(Channel(n))
            } else {
                None
            }),
    {
        if FIRST_2_4GHZ_CHANNEL <= n && n <= LAST_2_4GHZ_CHANNEL {
            Some(Channel(n))
        } else {
            None
        }
    }
}

/// A channel mask: bits 0..=26 select channels, bits 27..=31 hold the
/// page.
#[derive(Clone, Copy, PartialEq, Eq, Hash, Debug, Structural)]
pub struct ChannelMask(pub u32);

/// Bits of a channel mask that select channels.
pub const CHANNEL_BITS: u32 = 0x07FF_FFFF;
/// All 2.4 GHz channels on page 0.
pub const ALL_2_4GHZ_RAW: u32 = 0x07FF_F800;
/// The BDB primary channels 11, 15, 20 and 25.
pub const BDB_PRIMARY_RAW: u32 = 0x0210_8800;

/// True when bit `bit` of `v` is set.
pub open spec fn bit_set(v: u32, bit: u32) -> bool {
    (v >> bit) & 1 == 1
}

impl ChannelMask {
    /// The page encoded in bits 27..=31.
    pub fn page(self) -> (p: ChannelPage)
        ensures
            p.0 == (self.0 >> 27),
    {
        let raw = self.0;
        let v = raw >> 27;
        assert(v < 32) by (bit_vector)
            requires
                v == raw >> 27,
        ;
        ChannelPage(v as u8)
    }

    /// The channel bits only (page bits cleared).
    pub fn channels_only(self) -> (m: ChannelMask)
        ensures
            m.0 == self.0 & CHANNEL_BITS,
    {
        ChannelMask(self.0 & CHANNEL_BITS)
    }

    /// The same channel bits on `page`.
    pub fn with_page(self, page: ChannelPage) -> (m: ChannelMask)
        ensures
            m.0 == (self.0 & CHANNEL_BITS) | (((page.0 as u32) & 0x1F) << 27),
    {
        ChannelMask((self.0 & CHANNEL_BITS) | (((page.0 as u32) & 0x1F) << 27))
    }

    /// Whether `channel` is selected.
    pub fn contains(self, channel: Channel) -> (b: bool)
        ensures
            b == (channel.0 < 27 && bit_set(self.0, channel.0 as u32)),
    {
        if channel.0 < 27 {
            (self.0 >> (channel.0 as u32)) & 1 == 1
        } else {
            false
        }
    }

    /// The raw value.
    pub fn raw(self) -> (v: u32)
        ensures
            v == self.0,
    {
        self.0
    }

    /// True when no channel is selected.
    pub fn is_empty(self) -> (b: bool)
        ensures
            b == (self.0 & CHANNEL_BITS == 0),
    {
        self.0 & CHANNEL_BITS == 0
    }

    /// The mask with `channel` selected as well (channels above 26 are
    /// ignored).
    pub fn with(self, channel: Channel) -> (m: ChannelMask)
        ensures
            m.0 == (if channel.0 < 27 {
                self.0 | (1u32 << channel.0)
            } else {
                self.0
            }),
    {
        if channel.0 < 27 {
            ChannelMask(self.0 | (1u32 << channel.0))
        } else {
            self
        }
    }
}

/// The mask selecting no channel on page 0.
pub const EMPTY_MASK_RAW: u32 = 0;

/// A span of time with millisecond resolution.
#[derive(Clone, Copy, PartialEq, Eq, Hash, Debug, Structural)]
pub struct Duration(pub u64);

impl Duration {
    /// `ms` milliseconds.
    pub fn from_millis(ms: u64) -> (d: Duration)
        ensures
            d.0 == ms,
    {
        Duration(ms)
    }

    /// `s` seconds, saturating.
    pub fn from_secs(s: u64) -> (d: Duration)
        ensures
            d.0 == (if s * 1000 <= u64::MAX { (s * 1000) as u64 } else { u64::MAX }),
    {
        if s <= u64::MAX / 1000 {
            Duration(s * 1000)
        } else {
            Duration(u64::MAX)
        }
    }

    /// Milliseconds in the span.
    pub fn as_millis(self) -> (ms: u64)
        ensures
            ms == self.0,
    {
        self.0
    }
}

/// A point in time: milliseconds since an arbitrary epoch.
#[derive(Clone, Copy, PartialEq, Eq, Hash, Debug, Structural)]
pub struct Instant(pub u64);

impl Instant {
    /// Milliseconds since the epoch.
    pub fn as_millis(self) -> (ms: u64)
        ensures
            ms == self.0,
    {
        self.0
    }

    /// True once `self` is at or after `deadline`.
    pub fn has_reached(self, deadline: Instant) -> (b: bool)
        ensures
            b == (self.0 >= deadline.0),
    {
        self.0 >= deadline.0
    }

    /// `self + d`, saturating.
    pub fn plus(self, d: Duration) -> (t: Instant)
        ensures
            t.0 == (if self.0 + d.0 <= u64::MAX { (self.0 + d.0) as u64 } else { u64::MAX }),
    {
        if self.0 <= u64::MAX - d.0 {
            Instant(self.0 + d.0)
        } else {
            Instant(u64::MAX)
        }
    }

    /// Time elapsed since `earlier`, zero when `earlier` is later.
    pub fn saturating_duration_since(self, earlier: Instant) -> (d: Duration)
        ensures
            d.0 == (if self.0 >= earlier.0 { (self.0 - earlier.0) as u64 } else { 0 }),
    {
        if self.0 >= earlier.0 {
            Duration(self.0 - earlier.0)
        } else {
            Duration(0)
        }
    }
}

/// MAC capability information (IEEE 802.15.4 §7.5.2): bit 0 alternate
/// PAN coordinator, bit 1 device type (FFD), bit 2 power source (mains),
/// bit 3 receiver on when idle, bit 6 security, bit 7 allocate address.
#[derive(Clone, Copy, PartialEq, Eq, Hash, Debug, Structural)]
pub struct MacCapability(pub u8);

/// Capability of a router: FFD, mains powered, receiver on, allocate
/// address.
pub const CAPABILITY_ROUTER: u8 = 0x8E;
/// Capability of an end device that keeps its receiver on.
pub const CAPABILITY_END_DEVICE_RX_ON: u8 = 0x8C;
/// Capability of a sleepy end device.
pub const CAPABILITY_SLEEPY_END_DEVICE: u8 = 0x80;

impl MacCapability {
    /// From the wire value.
    pub fn from_raw(v: u8) -> (c: MacCapability)
        ensures
            c.0 == v,
    {
        MacCapability(v)
    }

    /// The wire value.
    pub fn raw(self) -> (v: u8)
        ensures
            v == self.0,
    {
        self.0
    }

    /// Device type bit: a full function device (router capable).
    pub fn is_full_function_device(self) -> (b: bool)
        ensures
            b == (self.0 & 0x02 != 0),
    {
        self.0 & 0x02 != 0
    }

    /// Receiver on when idle bit.
    pub fn rx_on_when_idle(self) -> (b: bool)
        ensures
            b == (self.0 & 0x08 != 0),
    {
        self.0 & 0x08 != 0
    }
}

/// MAC status values (IEEE 802.15.4 Table 8-1 subset used by Zigbee).
#[derive(Clone, Copy, PartialEq, Eq, Hash, Debug, Structural)]
pub enum MacStatus {
    /// Successful (0x00).
    Success,
    /// PAN at capacity (0x01).
    PanAtCapacity,
    /// PAN access denied (0x02).
    PanAccessDenied,
    /// Channel access failure (0xE1).
    ChannelAccessFailure,
    /// No acknowledgement (0xE9).
    NoAck,
    /// No data after a data request (0xEB).
    NoData,
    /// Transaction expired (0xF0).
    TransactionExpired,
    /// Transaction overflow (0xF1).
    TransactionOverflow,
    /// Any other value.
    Other(u8),
}

impl MacStatus {
    /// The value a wire octet denotes.
    pub open spec fn spec_from_raw(v: u8) -> MacStatus {
        match v {
            0 => MacStatus::Success,
            1 => MacStatus::PanAtCapacity,
            2 => MacStatus::PanAccessDenied,
            0xE1 => MacStatus::ChannelAccessFailure,
            0xE9 => MacStatus::NoAck,
            0xEB => MacStatus::NoData,
            0xF0 => MacStatus::TransactionExpired,
            0xF1 => MacStatus::TransactionOverflow,
            _ => MacStatus::Other(v),
        }
    }

    /// The wire octet of a value.
    pub open spec fn spec_raw(self) -> u8 {
        match self {
            MacStatus::Success => 0,
            MacStatus::PanAtCapacity => 1,
            MacStatus::PanAccessDenied => 2,
            MacStatus::ChannelAccessFailure => 0xE1,
            MacStatus::NoAck => 0xE9,
            MacStatus::NoData => 0xEB,
            MacStatus::TransactionExpired => 0xF0,
            MacStatus::TransactionOverflow => 0xF1,
            MacStatus::Other(v) => v,
        }
    }

    /// True for values `from_raw` can produce.
    pub open spec fn wf(self) -> bool {
        self matches MacStatus::Other(v) ==> (v > 2 && v != 0xE1 && v != 0xE9 && v != 0xEB && v != 0xF0 && v != 0xF1)
    }

    /// Parses a wire value.
    pub fn from_raw(v: u8) -> (s: MacStatus)
        ensures
            s == Self::spec_from_raw(v),
            s.wf(),
    {
        match v {
            0 => MacStatus::Success,
            1 => MacStatus::PanAtCapacity,
            2 => MacStatus::PanAccessDenied,
            0xE1 => MacStatus::ChannelAccessFailure,
            0xE9 => MacStatus::NoAck,
            0xEB => MacStatus::NoData,
            0xF0 => MacStatus::TransactionExpired,
            0xF1 => MacStatus::TransactionOverflow,
            _ => MacStatus::Other(v),
        }
    }

    /// Wire value.
    pub fn raw(self) -> (v: u8)
        ensures
            v == self.spec_raw(),
    {
        match self {
            MacStatus::Success => 0,
            MacStatus::PanAtCapacity => 1,
            MacStatus::PanAccessDenied => 2,
            MacStatus::ChannelAccessFailure => 0xE1,
            MacStatus::NoAck => 0xE9,
            MacStatus::NoData => 0xEB,
            MacStatus::TransactionExpired => 0xF0,
            MacStatus::TransactionOverflow => 0xF1,
            MacStatus::Other(v) => v,
        }
    }
}

/// Logical device type of a Zigbee node.
#[derive(Clone, Copy, PartialEq, Eq, Hash, Debug, Structural)]
pub enum LogicalDeviceType {
    /// The coordinator.
    Coordinator,
    /// A router.
    Router,
    /// An end device.
    EndDevice,
}

impl LogicalDeviceType {
    /// True for the coordinator and routers.
    pub fn is_routing_capable(self) -> (b: bool)
        ensures
            b == !(self is EndDevice),
    {
        !matches!(self, LogicalDeviceType::EndDevice)
    }
}

} // verus!
