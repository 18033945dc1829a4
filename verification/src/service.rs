//! The coordination between callers and the tables: what is checked before a
//! change is committed, and the reasons for which one is refused.
//!
//! An operation is a session: it starts with a request, puts questions to
//! storage one at a time, and ends with a result. The session decides; whoever
//! drives it only carries questions and answers. `OfficeService` and
//! `EmployeeService` drive sessions over tables in memory, where an operation
//! has the tables to itself from its first question to its result. A driver
//! over storage that others write to at the same time must give a session the
//! same: all its questions answered within one unit of work, and the office
//! that it looked up kept from other writers until the result is there.

use crate::repository::StorageError;
use crate::utils::ValidationError;
use vstd::prelude::*;

pub mod employee_contention;
pub mod employee_service;
pub mod office_contention;
pub mod office_service;

verus! {

/// Why an operation was refused or could not be carried out.
#[derive(Debug, PartialEq, Eq)]
pub enum ServiceError {
    /// The entity breaks a rule of its own.
    ValidationFailed(ValidationError),
    /// Another office has the name already.
    DuplicateName,
    /// The office is full: the number of its employees, then its capacity.
    OfficeAtCapacity(i64, i32),
    /// The entity that was to be changed is not there.
    NotFound,
    /// The office that was referred to is not there.
    OfficeNotFound,
    /// Storage failed; its own error is passed on as it came.
    StorageUnavailable(StorageError),
}

/// The error of an answer that does not fit the question.
pub open spec fn unexpected() -> ServiceError {
    ServiceError::StorageUnavailable(StorageError::UnexpectedReply)
}

/// How far an operation has come in its dialogue with storage.
#[derive(Clone, Copy, Debug, PartialEq, Eq, Structural)]
pub enum Stage {
    /// The first question is out, and more may follow.
    Checking,
    /// A question about the employee as stored is out.
    Locating,
    /// The question for the number of employees in the office is out.
    Counting,
    /// The last question is out: the one that reads or writes what was
    /// asked for.
    Committing,
    /// The operation has its result; nothing more is asked.
    Closed,
}

impl Stage {
    /// How many questions can still follow, at most.
    pub open spec fn rank(self) -> nat {
        match self {
            Stage::Checking => 4,
            Stage::Locating => 3,
            Stage::Counting => 2,
            Stage::Committing => 1,
            Stage::Closed => 0,
        }
    }
}

} // verus!
