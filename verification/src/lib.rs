//! Core of a monitoring agent that samples the users logged in to a host and
//! delivers the sample to an HTTP collector at a fixed interval.
//!
//! The crate holds the decisions of the agent and performs no I/O itself: the
//! caller runs commands, reads files, sends requests and sleeps, and hands the
//! results to the functions here as plain values.

pub mod config;
pub mod delivery;
pub mod retry;
pub mod sampler;
pub mod scheduler;
pub mod text;
