//! The employee: two names, a date of birth, and the office worked in.

use crate::dto::employee_dto::{CreateEmployeeRequest, EmployeeResponse};
use crate::utils::calendar::BirthDate;
use crate::utils::text::{contains_whitespace, has_white_space, is_blank, trim, trimmed};
use crate::utils::{NameKind, Validate, ValidationError};
use vstd::prelude::*;

verus! {

/// The first year in which an employee can be born.
pub const EARLIEST_BIRTH_YEAR: i32 = 1919;

/// The last year in which an employee can be born.
pub const LATEST_BIRTH_YEAR: i32 = 2007;

/// An employee. The identity is absent until a table has stored the employee;
/// `office_id` is the identity of the office worked in.
#[derive(Debug, PartialEq, Eq)]
pub struct Employee {
    pub id: Option<i32>,
    pub first_name: String,
    pub last_name: String,
    pub birth_date: BirthDate,
    pub office_id: i32,
}

impl Clone for Employee {
    /// A second employee with the same fields.
    fn clone(&self) -> (r: Self)
        ensures
            r == *self,
    {
        Employee {
            id: self.id,
            first_name: self.first_name.clone(),
            last_name: self.last_name.clone(),
            birth_date: self.birth_date,
            office_id: self.office_id,
        }
    }
}

impl Employee {
    /// The employee that a request describes: no identity yet, both names
    /// without the white space around them, the rest as sent.
    pub fn from_create_request(req: CreateEmployeeRequest) -> (employee: Employee)
        ensures
            employee.id is None,
            employee.first_name@ == trimmed(req.first_name@),
            employee.last_name@ == trimmed(req.last_name@),
            employee.birth_date == req.birth_date,
            employee.office_id == req.office_id,
    {
        Employee {
            id: None,
            first_name: trim(req.first_name.as_str()),
            last_name: trim(req.last_name.as_str()),
            birth_date: req.birth_date,
            office_id: req.office_id,
        }
    }

    /// The employee as it is shown to a caller: field for field.
    pub fn to_response(&self) -> (response: EmployeeResponse)
        ensures
            response.id == self.id,
            response.first_name == self.first_name,
            response.last_name == self.last_name,
            response.birth_date == self.birth_date,
            response.office_id == self.office_id,
    {
        EmployeeResponse {
            id: self.id,
            first_name: self.first_name.clone(),
            last_name: self.last_name.clone(),
            birth_date: self.birth_date,
            office_id: self.office_id,
        }
    }
}

impl Validate for Employee {
    /// The first name is looked at first, then the last name, then the year
    /// of birth: too early before too late.
    open spec fn violation(&self) -> Option<ValidationError> {
        if trimmed(self.first_name@).len() == 0 {
            Some(ValidationError::EmptyName(NameKind::First))
        } else if trimmed(self.last_name@).len() == 0 {
            Some(ValidationError::EmptyName(NameKind::Last))
        } else if has_white_space(self.last_name@) {
            Some(ValidationError::NameContainsWhitespace)
        } else if self.birth_date.year() < EARLIEST_BIRTH_YEAR {
            Some(ValidationError::BirthDateTooEarly)
        } else if self.birth_date.year() > LATEST_BIRTH_YEAR {
            Some(ValidationError::BirthDateTooLate)
        } else {
            None
        }
    }

    fn validate(&self) -> (r: Result<(), ValidationError>) {
        if is_blank(self.first_name.as_str()) {
            return Err(ValidationError::EmptyName(NameKind::First));
        }
        if is_blank(self.last_name.as_str()) {
            return Err(ValidationError::EmptyName(NameKind::Last));
        }
        if contains_whitespace(self.last_name.as_str()) {
            return Err(ValidationError::NameContainsWhitespace);
        }
        if self.birth_date.year() < EARLIEST_BIRTH_YEAR {
            return Err(ValidationError::BirthDateTooEarly);
        }
        if self.birth_date.year() > LATEST_BIRTH_YEAR {
            return Err(ValidationError::BirthDateTooLate);
        }
        Ok(())
    }
}


/// An employee whose names are in order is accepted exactly where the year
/// of birth lies from `EARLIEST_BIRTH_YEAR` to `LATEST_BIRTH_YEAR`, both
/// included; an earlier year is too early, a later one too late.
pub proof fn law_birth_year_window(employee: Employee)
    requires
        trimmed(employee.first_name@).len() > 0,
        trimmed(employee.last_name@).len() > 0,
        !has_white_space(employee.last_name@),
    ensures
        employee.violation() is None <==> EARLIEST_BIRTH_YEAR <= employee.birth_date.year()
            <= LATEST_BIRTH_YEAR,
        employee.violation() == Some(ValidationError::BirthDateTooEarly)
            <==> employee.birth_date.year() < EARLIEST_BIRTH_YEAR,
        employee.violation() == Some(ValidationError::BirthDateTooLate)
            <==> employee.birth_date.year() > LATEST_BIRTH_YEAR,
{
}

} // verus!
