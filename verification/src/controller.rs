//! From the result of an operation to the answer that goes out over HTTP:
//! the status, and what the body holds.

use crate::service::ServiceError;
use vstd::prelude::*;

pub mod employee_controller;
pub mod office_controller;

verus! {

/// 200: the request was served, and the body holds what was asked for.
pub const OK: u16 = 200;

/// 201: the entity was created, and the body holds it.
pub const CREATED: u16 = 201;

/// 204: the entity was removed; the body is empty.
pub const NO_CONTENT: u16 = 204;

/// 400: the request was refused by a rule.
pub const BAD_REQUEST: u16 = 400;

/// 404: what the request refers to is not there.
pub const NOT_FOUND: u16 = 404;

/// 500: storage failed.
pub const INTERNAL_SERVER_ERROR: u16 = 500;

/// What the body of an answer holds.
#[derive(Debug, PartialEq, Eq)]
pub enum Body<T> {
    /// Nothing.
    Empty,
    /// What was asked for, to be sent as JSON.
    Json(T),
    /// A fixed sentence.
    Text(String),
    /// The reason for which the operation was refused or failed.
    Failure(ServiceError),
}

/// An answer: the status, and the body.
#[derive(Debug, PartialEq, Eq)]
pub struct HttpReply<T> {
    pub status: u16,
    pub body: Body<T>,
}

/// The status that goes with an error: 400 where a rule refused the
/// request, 404 where something is not there, 500 where storage failed.
pub open spec fn status_of(error: ServiceError) -> u16 {
    match error {
        ServiceError::ValidationFailed(_) => BAD_REQUEST,
        ServiceError::DuplicateName => BAD_REQUEST,
        ServiceError::OfficeAtCapacity(_, _) => BAD_REQUEST,
        ServiceError::NotFound => NOT_FOUND,
        ServiceError::OfficeNotFound => NOT_FOUND,
        ServiceError::StorageUnavailable(_) => INTERNAL_SERVER_ERROR,
    }
}

/// The answer to an operation that was refused or failed: the status of the
/// error, and the error itself as the body.
pub fn failure<T>(error: ServiceError) -> (reply: HttpReply<T>)
    ensures
        reply.status == status_of(error),
        reply.body == Body::<T>::Failure(error),
{
    let status = match &error {
        ServiceError::ValidationFailed(_) => BAD_REQUEST,
        ServiceError::DuplicateName => BAD_REQUEST,
        ServiceError::OfficeAtCapacity(_, _) => BAD_REQUEST,
        ServiceError::NotFound => NOT_FOUND,
        ServiceError::OfficeNotFound => NOT_FOUND,
        ServiceError::StorageUnavailable(_) => INTERNAL_SERVER_ERROR,
    };
    HttpReply { status, body: Body::Failure(error) }
}

} // verus!
