//! Locates an iBeacon among BLE advertisers, reads one characteristic from it,
//! and reports a single sample.
pub mod coenv;
pub mod coquery;
pub mod gatt;
pub mod ibeacon;
