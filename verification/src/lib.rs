//! A minimal ledger: a hash-linked chain of blocks recording value
//! transfers between addresses derived from secp256k1 key pairs, kept
//! beside an in-memory account registry and a per-address balance table.
//!
//! The chain binds each block to its predecessor through a SHA-256 hash
//! of the block's serialized fields; transfers debit one balance, credit
//! another, and record the transaction as a new block. Transfers are not
//! authenticated: nothing checks that the caller owns the sending
//! address, a known limitation preserved by design.

pub mod balance;
pub mod chain;
pub mod crypto;
pub mod numfmt;
pub mod transfer;
pub mod user;
pub mod wallet;
