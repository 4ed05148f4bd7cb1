//! Verified core of a bridge that turns Bluetooth LE thermometer advertisements,
//! as reported by Aruba access points, into Home Assistant MQTT sensors.

pub mod aruba;
pub mod config;
pub mod hass;
pub mod lru;
pub mod protocols;
pub mod utils;
