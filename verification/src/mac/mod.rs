//! IEEE 802.15.4 MAC: frame codec, information elements, power control
//! and radio configuration types.
pub mod constants;
pub mod frame;
pub mod ie;
pub mod power;
pub mod radio;
pub mod service;
