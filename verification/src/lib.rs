//! A custody-less marketplace ledger for tokenized real-world-asset units.
//!
//! Holders list a quantity of a fungible asset for sale or rent; buyers purchase
//! it outright; renters lease it for a bounded duration. Every operation is a
//! deterministic step from a ledger, a caller, the attached funds and the
//! current time to a new ledger and the transfers that must follow.

pub mod contract;
pub mod engine;
pub mod error;
pub mod fraction;
pub mod host;
pub mod laws;
pub mod model;
pub mod msg;
pub mod state;
pub mod store;
pub mod text;
