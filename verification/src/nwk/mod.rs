//! Zigbee network layer: frame and command codecs, beacon payload and the
//! network information base tables.
pub mod address_map;
pub mod attach;
pub mod control;
pub mod beacon;
pub mod broadcast;
pub mod command;
pub mod discovery;
pub mod formation;
pub mod frame;
pub mod interface;
pub mod join;
pub mod join_tx;
pub mod joining_list;
pub mod layer;
pub mod neighbor;
pub mod nib;
pub mod relay;
pub mod rx;
pub mod scan;
pub mod state;
pub mod timers;
pub mod tx;
