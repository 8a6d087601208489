//! Verified core of two small tools around a dead-man's-switch monitoring
//! service: the sequencing of start and finish signals around a monitored
//! command, and the tables that show the state of checks and their pings.
//!
//! Everything here works on plain values. Reading the environment, talking to
//! the monitoring service, spawning the command and printing are left to the
//! caller, which feeds their results back in.

pub mod cells;
pub mod checks;
pub mod command;
pub mod decimal;
pub mod pings;
pub mod pipeline;
pub mod runs;
pub mod settings;
pub mod table;
pub mod text;
pub mod timestamp;
