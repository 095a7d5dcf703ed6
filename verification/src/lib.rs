//! A greeting account: one record per slot, created once, changed only by
//! its owner, and given up by its owner.
//!
//! - `pubkey`, `account`: identities and the handles on accounts that the
//!   runtime hands to the program.
//! - `state`: the record and its stored form of 244 bytes.
//! - `instruction`: the four operations and their encoding.
//! - `error`: what an operation fails with.
//! - `processor`: the operations on a list of handles, each with the exact
//!   outcome that it has.
//! - `lifecycle`: what follows for the life of a record, proved from the
//!   outcomes.
//! - `client`: the requests that a client sends.
//!
//! The program reserves no storage and moves no funds at creation itself:
//! `Processor::process` answers a creation with the reservation to make, and
//! `Processor::complete_initialize` writes the record once it is made.

pub mod account;
pub mod bytes;
pub mod client;
pub mod error;
pub mod instruction;
pub mod lifecycle;
pub mod processor;
pub mod pubkey;
pub mod state;
mod text;
