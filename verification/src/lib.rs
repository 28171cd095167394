//! Building, sending and tallying the transactions of an RPC landing-rate
//! benchmark for Solana senders.
use vstd::prelude::*;

pub mod address;
pub mod builder;
pub mod config;
pub mod encoding;
pub mod error;
pub mod instruction;
pub mod jupiter;
pub mod lookup_table;
pub mod nonce;
pub mod quote;
pub mod report;
pub mod rounds;
pub mod sender;
pub mod tracker;

verus! {
} // verus!
