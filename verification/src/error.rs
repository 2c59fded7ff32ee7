//! What can go wrong in the storage layer and in the commands.
use vstd::prelude::*;

verus! {

/// A failure of the storage layer.
#[derive(Debug)]
pub enum StorageError {
    /// The store could not be set up.
    InitializationError(String),
    /// A write failed.
    WriteError(String),
    /// A query failed or was refused.
    QueryError(String),
    /// The configuration is not acceptable.
    ConfigError(String),
    /// The database reported a failure.
    DatabaseError(String),
}

/// A failure of a command.
#[derive(Debug)]
pub enum Error {
    /// The store refused a request, or a request could not be formed.
    ApiError(String),
}

} // verus!
