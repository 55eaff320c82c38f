//! Verified decision logic of two Soroban contracts.
//!
//! `hello` holds the rules of a counter-and-registry contract and `prediction`
//! those of a betting market. Every entry point is a function from the records
//! that the contract keeps in ledger storage, plus what it observes of the
//! ledger (time, token balances and allowances), to the records it writes back
//! and the token amounts it moves. Reading and writing ledger storage, calling
//! the token contract, checking authorisation and publishing events is the
//! host's work and stays outside this crate.

pub mod amount;
pub mod debug;
pub mod hello;
pub mod prediction;
