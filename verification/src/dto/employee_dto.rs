//! Employees as they travel.

use crate::utils::calendar::BirthDate;
use vstd::prelude::*;

verus! {

/// What a caller sends to create or to change an employee.
#[derive(Debug, PartialEq, Eq)]
pub struct CreateEmployeeRequest {
    pub first_name: String,
    pub last_name: String,
    pub birth_date: BirthDate,
    pub office_id: i32,
}

/// An employee as it is shown to a caller.
#[derive(Debug, PartialEq, Eq)]
pub struct EmployeeResponse {
    pub id: Option<i32>,
    pub first_name: String,
    pub last_name: String,
    pub birth_date: BirthDate,
    pub office_id: i32,
}

} // verus!
