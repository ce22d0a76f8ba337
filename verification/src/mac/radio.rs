//! Radio-facing types: capabilities, configuration, transmission options
//! and reception metadata. The radio itself (an asynchronous driver) is
//! outside the library; the MAC exchanges these plain values with it.
use vstd::prelude::*;

use crate::types::{Channel, ExtendedAddress, PanId, ShortAddress, NO_SHORT_ADDRESS_RAW, PAN_BROADCAST_RAW};

verus! {

/// Errors reported by a radio backend.
#[derive(Clone, Copy, PartialEq, Eq, Debug, Structural)]
pub enum RadioError {
    /// CSMA-CA failed to find a clear channel.
    ChannelAccessFailure,
    /// No acknowledgement was received (only from radios with hardware
    /// ack-wait).
    NoAck,
    /// The frame exceeds the PHY or backend limit.
    FrameTooLong,
    /// The requested channel or page is not supported.
    InvalidChannel,
    /// The receive buffer was too small for the incoming frame.
    BufferTooSmall,
    /// The radio is asleep or otherwise unable to perform the operation.
    NotReady,
    /// The backend hit a hardware or transport fault; a reset is advised.
    HardwareFault,
    /// The transport to an external RCP failed.
    Transport,
}

impl RadioError {
    /// A short human-readable description.
    pub fn as_str(&self) -> (d: &'static str)
        ensures
            d@ == match *self {
                RadioError::ChannelAccessFailure => "channel access failure"@,
                RadioError::NoAck => "no acknowledgement"@,
                RadioError::FrameTooLong => "frame too long"@,
                RadioError::InvalidChannel => "invalid channel"@,
                RadioError::BufferTooSmall => "receive buffer too small"@,
                RadioError::NotReady => "radio not ready"@,
                RadioError::HardwareFault => "hardware fault"@,
                RadioError::Transport => "transport failure"@,
            },
    {
        match self {
            RadioError::ChannelAccessFailure => "channel access failure",
            RadioError::NoAck => "no acknowledgement",
            RadioError::FrameTooLong => "frame too long",
            RadioError::InvalidChannel => "invalid channel",
            RadioError::BufferTooSmall => "receive buffer too small",
            RadioError::NotReady => "radio not ready",
            RadioError::HardwareFault => "hardware fault",
            RadioError::Transport => "transport failure",
        }
    }
}

/// What the backend does in hardware; whatever it does not, the MAC
/// service does in software.
#[derive(Clone, Copy, PartialEq, Eq, Debug, Default, Structural)]
pub struct RadioCapabilities {
    /// The radio transmits acknowledgements itself.
    pub auto_ack: bool,
    /// Transmission with an acknowledgement request waits for the
    /// acknowledgement and reports it.
    pub ack_wait: bool,
    /// The radio performs the frame retries itself.
    pub retries: bool,
    /// The radio filters by PAN ID and addresses.
    pub address_filter: bool,
    /// The radio sets the frame-pending bit from a pending-address list.
    pub pending_bit: bool,
    /// Receive metadata includes a usable timestamp.
    pub timestamps: bool,
    /// Promiscuous mode is available.
    pub promiscuous: bool,
}

/// Addressing and filtering configuration.
#[derive(Clone, Copy, PartialEq, Eq, Debug, Structural)]
pub struct RadioConfig {
    /// Local PAN identifier (`0xFFFF` accepts any PAN).
    pub pan_id: PanId,
    /// Local short address (`0xFFFE` when none).
    pub short_address: ShortAddress,
    /// Local extended address.
    pub extended_address: ExtendedAddress,
    /// This device is the PAN coordinator.
    pub pan_coordinator: bool,
    /// Keep the receiver on while idle.
    pub rx_on_when_idle: bool,
    /// Receive every frame regardless of address.
    pub promiscuous: bool,
}

impl Default for RadioConfig {
    fn default() -> (c: Self)
        ensures
            c == (RadioConfig {
                pan_id: PanId(PAN_BROADCAST_RAW),
                short_address: ShortAddress(NO_SHORT_ADDRESS_RAW),
                extended_address: ExtendedAddress(0),
                pan_coordinator: false,
                rx_on_when_idle: true,
                promiscuous: false,
            }),
    {
        RadioConfig {
            pan_id: PanId(PAN_BROADCAST_RAW),
            short_address: ShortAddress(NO_SHORT_ADDRESS_RAW),
            extended_address: ExtendedAddress(0),
            pan_coordinator: false,
            rx_on_when_idle: true,
            promiscuous: false,
        }
    }
}

/// Per-transmission options.
#[derive(Clone, Copy, PartialEq, Eq, Debug, Default, Structural)]
pub struct TxOptions {
    /// The frame requests an acknowledgement.
    pub ack_request: bool,
    /// Use CSMA-CA.
    pub csma: bool,
    /// Transmit power in dBm, if the backend supports control.
    pub tx_power_dbm: Option<i8>,
}

impl TxOptions {
    /// CSMA transmission with acknowledgement request.
    pub fn acked() -> (o: TxOptions)
        ensures
            o == (TxOptions { ack_request: true, csma: true, tx_power_dbm: None }),
    {
        TxOptions { ack_request: true, csma: true, tx_power_dbm: None }
    }

    /// CSMA transmission without acknowledgement.
    pub fn unacked() -> (o: TxOptions)
        ensures
            o == (TxOptions { ack_request: false, csma: true, tx_power_dbm: None }),
    {
        TxOptions { ack_request: false, csma: true, tx_power_dbm: None }
    }

    /// Immediate transmission without CSMA (acknowledgement frames).
    pub fn immediate() -> (o: TxOptions)
        ensures
            o == (TxOptions { ack_request: false, csma: false, tx_power_dbm: None }),
    {
        TxOptions { ack_request: false, csma: false, tx_power_dbm: None }
    }
}

/// Result of a completed transmission.
#[derive(Clone, Copy, PartialEq, Eq, Debug, Default, Structural)]
pub struct TxResult {
    /// An acknowledgement was received (with hardware ack-wait).
    pub acked: bool,
    /// The acknowledgement carried the frame-pending bit.
    pub frame_pending: bool,
    /// Transmission timestamp, if available (µs, radio clock).
    pub timestamp_us: Option<u64>,
}

/// Metadata attached to a received frame.
#[derive(Clone, Copy, PartialEq, Eq, Debug, Default, Structural)]
pub struct RxMetadata {
    /// Link quality indicator 0–255.
    pub lqi: u8,
    /// Received signal strength in dBm.
    pub rssi_dbm: i8,
    /// Reception timestamp in µs of the radio clock, if available.
    pub timestamp_us: Option<u64>,
    /// The frame was acknowledged by hardware.
    pub acked_by_hardware: bool,
    /// Channel the frame was received on.
    pub channel: Option<Channel>,
}

/// A received frame length plus metadata; the bytes live in the caller's
/// buffer.
#[derive(Clone, Copy, PartialEq, Eq, Debug, Structural)]
pub struct RxFrame {
    /// Number of valid bytes in the receive buffer (excluding FCS).
    pub len: usize,
    /// Metadata.
    pub meta: RxMetadata,
}

} // verus!
