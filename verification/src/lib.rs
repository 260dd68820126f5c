//! The verified core of a Modbus TCP → MQTT/SQLite gateway: configuration
//! defaults, socket-address reading, broker settings, the simulated Modbus
//! device, the collector's decisions and the records it produces.

pub mod address;
pub mod address_laws;
pub mod broker;
pub mod collector;
pub mod config;
pub mod simulator;
pub mod telemetry;
