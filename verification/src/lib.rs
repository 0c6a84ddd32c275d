//! Core of an SRTLA sender: the link-bonding protocol, the per-link state
//! machines and the scheduler that spreads an SRT stream over several uplinks.
//!
//! Everything here is free of I/O. The time and what was measured come in as
//! arguments; packets to send and decisions to act on go out as results.

pub mod bytes;
pub mod clock;
pub mod config;
pub mod connection;
pub mod control;
pub mod extensions;
pub mod harness;
pub mod mode;
pub mod priority;
pub mod protocol;
pub mod registration;
pub mod sender;
pub mod settings;
pub mod stats;
pub mod telemetry;
pub mod text;
