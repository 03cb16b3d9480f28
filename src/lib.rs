//! Decoding of type-tagged Modbus holding registers, the register map that
//! tags them, and the decisions of a resilient polling loop built on both.

pub mod units;
pub mod decode;
pub mod regmap;
pub mod connection;
pub mod control;
pub mod setup;
