//! Verified command-orchestration core for a bench-top liquid-handling
//! controller.
//!
//! A host sends framed text messages over a serial link; the controller
//! decomposes each message into an ordered script of operations for two
//! serial peripherals: a three-axis gantry (the router) and a syringe pump.
//! This crate holds the verified logic of that controller: the message
//! codec with CRC-32 validation, the command grammar, the planner that
//! turns each command batch into an ordered step script, and the
//! device-reply decision functions. The unverified shell around it performs
//! the actual serial I/O, executing the scripts step by step.

pub mod config;
pub mod devices;
pub mod laws;
pub mod message;
pub mod step;
pub mod numbers;
pub mod orchestrator;
pub mod text;
pub mod trace;
