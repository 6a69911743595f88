//! A minimal bank ledger: accounts hold balances in minor currency units, and
//! transfers move money between two accounts while recording immutable entries
//! for each side of the movement. The heart of the crate is the transfer
//! engine, which commits one cross-account movement as a single atomic unit of
//! work with deterministic lock ordering and bounded conflict retry.

pub mod checker;
pub mod engine;
pub mod error;
pub mod laws;
pub mod ledger;
pub mod models;
pub mod util;
