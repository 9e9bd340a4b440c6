//! Device link and protocol engine for the TrueGear haptic vest: the binary
//! codec that turns semantic effects into the device's framed byte protocol
//! and reads its notification frames back, and the state machine that keeps
//! exactly one link to the peripheral alive under concurrent demand.
//!
//! Everything here is pure decision and byte work, verified against the
//! specifications in each module.  The radio, the transport that delivers
//! commands, and the floating-point battery calibration live with the
//! program that embeds this library.

pub mod ble;
pub mod ble_notify_parser;
pub mod command;
pub mod controller;
pub mod encode;
pub mod predefined;
