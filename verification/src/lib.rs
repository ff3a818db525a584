//! A minimal state-transition ledger: blocks of transactions applied
//! atomically against a world state of account balances, hashed with BLAKE3
//! and linked into a chain.

use vstd::prelude::*;

pub use error::Error;

pub mod account;
pub mod block;
pub mod blockchain;
pub mod digest;
pub mod encoding;
pub mod error;
pub mod id;
pub mod time;
pub mod transaction;
pub mod world;

verus! {

/// The hash of some data: a 32-byte BLAKE3 digest.
pub type Hash = Vec<u8>;

/// A number that can only be used once.
pub type Nonce = u64;

} // verus!
