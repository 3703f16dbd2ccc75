//! LAN protocol: discovery beacons and game messages.
pub mod proto;
pub mod discovery;
