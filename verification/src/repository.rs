//! Tables of offices and of employees, kept in memory, and the ways in which
//! storage fails.

use vstd::prelude::*;

pub mod employee_repository;
pub mod office_repository;

verus! {

/// Why storage could not do what it was asked.
#[derive(Debug, PartialEq, Eq)]
pub enum StorageError {
    /// The row that was to be changed is not there.
    RowNotFound,
    /// The table has given out its last identity.
    IdentitiesExhausted,
    /// The answer does not fit the question that was asked.
    UnexpectedReply,
    /// The storage engine failed; the text is its own account of the cause.
    Engine(String),
}

} // verus!
