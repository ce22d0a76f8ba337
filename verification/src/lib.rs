//! Panweave: IEEE 802.15.4 MAC and Zigbee network layer codecs and tables.
pub mod codec;
pub mod mac;
pub mod nwk;
pub mod types;
