//! Core of the Deitos upload client: content hashing, validation of the
//! ledger's file registration, the bearer credential handed to the storage
//! provider, and the sequencing of one upload attempt.
//!
//! Everything here is plain computation with a proved contract. Connections,
//! files and prompts belong to the program that drives this crate.

use vstd::prelude::*;

pub mod base64url;
pub mod chain;
pub mod flow;
pub mod hasher;
pub mod hex;
pub mod json;
pub mod jwt;
pub mod upload;

verus! {

/// Identifier of a storage agreement recorded on the ledger.
pub type AgreementId = u32;

/// Milliseconds since the Unix epoch, as the ledger reports them.
pub type Timestamp = u64;

} // verus!
