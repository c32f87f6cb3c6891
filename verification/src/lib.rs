//! Escrow-based atomic-swap settlement engine.
//!
//! A maker locks value under a hashlock and a timelock; counterparties claim
//! portions of it by revealing the secret, or the maker reclaims unclaimed
//! value once the deadline passes. The engine here is the pure order/fill
//! state machine: the hosting ledger supplies caller identity, the current
//! block, attached value and the value-transfer primitive, and hands them in
//! as plain arguments; the engine hands back the transfers to perform and the
//! events to emit.

pub mod bytes;
pub mod engine;
pub mod hash;
pub mod ids;
pub mod laws;
pub mod store;
pub mod types;
