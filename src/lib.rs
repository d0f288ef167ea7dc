//! Accounting core of a staking pool: participants deposit a fungible asset,
//! earn rewards along a tiered time schedule and withdraw their principal,
//! while an owner funds and drains a shared reward reserve.
//!
//! Every operation is split in two: a validation that touches nothing and
//! says which amount the token transfer must move, and a commit that takes the
//! outcome of that transfer and updates the pool only when it succeeded.

pub mod error;
pub mod state;
pub mod schedule;
pub mod ledger;
pub mod processor;
pub mod proofs;
pub mod instruction;
