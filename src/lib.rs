//! Verified state machines for a family of on-ledger game contracts: multi-party
//! escrow, bounties, puzzle matches, time-locked reward vaults, achievement sets and
//! crafting recipes. Each contract is a value holding its durable state; every
//! operation is a checked transition on that value, and the token movements it
//! decides on are handed back as `Transfer` records, returned or collected in the
//! contract's `transfers` list, for the host to carry out.

pub mod achievements;
pub mod common;
pub mod crafting;
pub mod bounty;
pub mod escrow;
pub mod puzzle_match;
pub mod vault;

pub use common::{Address, Transfer};
