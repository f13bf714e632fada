//! Capacity-bounded, single-use claim tickets whose redemptions are committed
//! to an append-only hash accumulator with short inclusion proofs.

pub mod accumulator;
pub mod digest;
pub mod errors;
pub mod event;
pub mod inclusion;
pub mod ledger;
pub mod lifecycle;
pub mod ticket;
pub mod token;
pub mod tree;
