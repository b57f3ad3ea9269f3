//! Core of a client-side engine for an open, log-structured table format:
//! typed scalar values and decimal handling, an expression and predicate
//! algebra with three-valued evaluation, deletion-vector handling, change-data
//! scan planning, and optimistic write transactions.
use vstd::prelude::*;

pub mod deletion_vectors;
pub mod display;
pub mod engine;
pub mod error;
pub mod expressions;
pub mod json;
pub mod kernel_predicates;
pub mod parse;
pub mod scalars;
pub mod scan;
pub mod schema;
pub mod snapshot;
pub mod strings;
pub mod table_changes;
pub mod transaction;

verus! {

/// A table version number.
pub type Version = u64;

} // verus!
