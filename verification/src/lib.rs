//! A generic UTXO ledger engine: transactions consume outputs that earlier
//! transactions created and create new ones. Who may consume an output is
//! decided by that output's redeemer, whether a transaction as a whole is
//! acceptable by its verifier; both are supplied by the application.

pub mod application;
pub mod hashing;
pub mod laws;
pub mod ledger;
pub mod types;
pub mod validation;

pub use application::apply;
pub use hashing::transaction_hash;
pub use ledger::UtxoSet;
pub use types::{
    DispatchResult, ExtractionError, Input, Output, OutputRef, Transaction, TypedData, UtxoData,
    UtxoError,
};
pub use validation::{
    check_structure, validate, validate_hashed, Redeemer, ValidatedEffects, Verifier,
};
