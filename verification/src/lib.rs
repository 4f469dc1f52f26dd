//! Verified core of a fungible-token canister: the decisions that its
//! endpoints, its upgrade hooks and its transaction-archiving policy take,
//! written over plain values so that the canister glue stays thin.

pub mod principal;
pub mod natural;
pub mod holder;
pub mod table;
pub mod state;
pub mod codec;
pub mod scaling;
pub mod calls;
pub mod endpoints;
