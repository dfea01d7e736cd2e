//! Driver library for a dual-channel DC-motor controller speaking a binary
//! serial protocol, together with a deterministic simulation backend, system
//! identification estimators, and an IMC-based velocity autotuner.

pub mod crc;
pub mod device;
pub mod estimators;
pub mod num;
pub mod protocol;
pub mod qpps;
pub mod sim;
pub mod tuning;
