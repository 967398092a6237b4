//! A single-node message broker core: an in-memory queue that mediates
//! between producers and waiting consumers, with a configurable overflow
//! policy, first-in-first-out handoff, exactly-once delivery, and safe
//! cancellation of a consumer's wait.

pub mod config;
pub mod delivery;
pub mod queue;
pub mod service;
