//! Milestone-based escrow engine: a verified state machine over escrow records that
//! decides every transition and tells its host which ledger transfers, key derivations
//! and deadline timers to perform.

pub mod address;
pub mod encoding;
pub mod engine;
pub mod event_log;
pub mod laws;
pub mod ledger;
pub mod model;
mod lemmas;
pub mod types;
