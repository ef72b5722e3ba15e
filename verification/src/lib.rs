//! A small append-only ledger for one-person-one-vote elections.
//!
//! Transactions are signed transfers between addresses, blocks are batches
//! of transactions linked by hash, and a ledger is a chain of blocks with a
//! bounded buffer of pending transactions. Around the ledger stand the
//! keys that voters sign with, the elections that keep a ledger each, and
//! the users and their sessions.

pub mod text;
pub mod json;
pub mod error;
pub mod digest;
pub mod clock;
pub mod keys;
pub mod transaction;
pub mod block;
pub mod codec;
pub mod chain;
pub mod laws;
pub mod auth;
pub mod user;
pub mod election;
