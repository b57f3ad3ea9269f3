//! The error type of the library.
use vstd::prelude::*;

verus! {

use crate::schema::DataType;

/// Everything that can go wrong inside the library, plus the distinguished
/// outcome a storage handler reports when a commit file already exists.
#[derive(Debug, Clone)]
pub enum Error {
    /// A type, nullability or shape violation.
    Schema(String),
    /// Invalid data handed to a struct value constructor.
    InvalidStructData(String),
    /// A decimal value that does not fit its declared type.
    InvalidDecimal(String),
    /// A raw string that does not parse as the target type.
    ParseError(String, DataType),
    /// A column that was expected but absent.
    MissingColumn(String),
    /// A transaction was committed without commit info.
    MissingCommitInfo,
    /// Commit info that does not have the expected shape.
    InvalidCommitInfo(String),
    /// The storage layer refused to create a file because it already exists.
    FileAlreadyExists(String),
    /// An internal invariant was broken; indicates a bug.
    InternalError(String),
    /// Any other error.
    Generic(String),
}

impl Error {
    pub fn generic(msg: &str) -> (r: Error)
        ensures
            r matches Error::Generic(m) && m@ == msg@,
    {
        Error::Generic(String::from_str(msg))
    }

    pub fn schema(msg: &str) -> (r: Error)
        ensures
            r matches Error::Schema(m) && m@ == msg@,
    {
        Error::Schema(String::from_str(msg))
    }

    pub fn invalid_struct_data(msg: &str) -> (r: Error)
        ensures
            r matches Error::InvalidStructData(m) && m@ == msg@,
    {
        Error::InvalidStructData(String::from_str(msg))
    }

    pub fn invalid_decimal(msg: &str) -> (r: Error)
        ensures
            r matches Error::InvalidDecimal(m) && m@ == msg@,
    {
        Error::InvalidDecimal(String::from_str(msg))
    }

    pub fn internal_error(msg: &str) -> (r: Error)
        ensures
            r matches Error::InternalError(m) && m@ == msg@,
    {
        Error::InternalError(String::from_str(msg))
    }

    pub fn missing_column(name: &str) -> (r: Error)
        ensures
            r matches Error::MissingColumn(m) && m@ == name@,
    {
        Error::MissingColumn(String::from_str(name))
    }
}

/// The result type of the library.
pub type DeltaResult<T> = Result<T, Error>;

} // verus!
