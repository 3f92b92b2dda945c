//! Verified core of a test-orchestration driver for a distributed ledger
//! network.
//!
//! The library holds the parts of the driver with real decision content:
//! dependency-ordered module publishing, per-account sequence-number
//! bookkeeping, and the lifecycle of a concurrent transaction-emission job.
//! The node client, the contract compiler, key generation and process
//! plumbing are external collaborators: the boundary performs those calls
//! and hands their outcomes to the functions here as plain values.

pub mod account;
pub mod emitter;
pub mod instance;
pub mod modules;
pub mod orchestrator;
