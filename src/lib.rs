//! Storage model and state transitions of a small messaging protocol kept on an
//! account-based ledger: user profiles, two-party threads and write-once
//! message records, each stored in a slot whose address is derived from the
//! entity's keys.
pub mod account;
pub mod address;
pub mod codec;
pub mod error;
pub mod instruction;
pub mod processor;
pub mod state;
