//! The answers of the endpoints for employees.

use crate::controller::{failure, status_of, Body, HttpReply, CREATED, NOT_FOUND, NO_CONTENT, OK};
use crate::dto::employee_dto::EmployeeResponse;
use crate::entity::employee::Employee;
use crate::service::ServiceError;
use vstd::prelude::*;

verus! {

/// `response` shows `employee`, field for field.
pub open spec fn shows(response: EmployeeResponse, employee: Employee) -> bool {
    &&& response.id == employee.id
    &&& response.first_name == employee.first_name
    &&& response.last_name == employee.last_name
    &&& response.birth_date == employee.birth_date
    &&& response.office_id == employee.office_id
}

/// `responses` shows `employees`, one for one and in the same order.
pub open spec fn shows_all(responses: Seq<EmployeeResponse>, employees: Seq<Employee>) -> bool {
    &&& responses.len() == employees.len()
    &&& forall|i: int| 0 <= i < employees.len() ==> shows(#[trigger] responses[i], employees[i])
}

/// The sentence for an employee that is not there.
pub open spec fn employee_not_found() -> Seq<char> {
    "Employee not found"@
}

/// The employees as they are shown, one for one and in the same order.
fn to_responses(employees: &Vec<Employee>) -> (responses: Vec<EmployeeResponse>)
    ensures
        shows_all(responses@, employees@),
{
    let mut responses: Vec<EmployeeResponse> = Vec::new();
    let mut i: usize = 0;
    while i < employees.len()
        invariant
            i <= employees.len(),
            responses.len() == i,
            forall|k: int| 0 <= k < i ==> shows(#[trigger] responses@[k], employees@[k]),
        decreases employees.len() - i,
    {
        responses.push(employees[i].to_response());
        i = i + 1;
    }
    responses
}

/// The answer to the creation of an employee: 201 with the employee, or the
/// status and the reason of the error.
pub fn create_employee(outcome: Result<Employee, ServiceError>) -> (reply: HttpReply<
    EmployeeResponse,
>)
    ensures
        match outcome {
            Ok(employee) => reply.status == CREATED && reply.body is Json && shows(reply.body->Json_0, employee),
            Err(error) => reply.status == status_of(error) && reply.body == Body::<
                EmployeeResponse,
            >::Failure(error),
        },
{
    match outcome {
        Ok(employee) => HttpReply { status: CREATED, body: Body::Json(employee.to_response()) },
        Err(error) => failure(error),
    }
}

/// The answer to a lookup of an employee: 200 with the employee, 404 with a
/// sentence where it is not there, or the status and the reason of the error.
pub fn get_employee_by_id(outcome: Result<Option<Employee>, ServiceError>) -> (reply: HttpReply<
    EmployeeResponse,
>)
    ensures
        match outcome {
            Ok(Some(employee)) => reply.status == OK && reply.body is Json && shows(reply.body->Json_0, employee),
            Ok(None) => reply.status == NOT_FOUND && reply.body is Text && reply.body->Text_0@ == employee_not_found(),
            Err(error) => reply.status == status_of(error) && reply.body == Body::<
                EmployeeResponse,
            >::Failure(error),
        },
{
    match outcome {
        Ok(Some(employee)) => HttpReply { status: OK, body: Body::Json(employee.to_response()) },
        Ok(None) => HttpReply {
            status: NOT_FOUND,
            body: Body::Text("Employee not found".to_owned()),
        },
        Err(error) => failure(error),
    }
}

/// The answer to a listing of the employees: 200 with all of them, in their
/// order, or the status and the reason of the error.
pub fn list_all_employees(outcome: Result<Vec<Employee>, ServiceError>) -> (reply: HttpReply<
    Vec<EmployeeResponse>,
>)
    ensures
        match outcome {
            Ok(employees) => reply.status == OK && reply.body is Json && shows_all(reply.body->Json_0@, employees@),
            Err(error) => reply.status == status_of(error) && reply.body == Body::<
                Vec<EmployeeResponse>,
            >::Failure(error),
        },
{
    match outcome {
        Ok(employees) => HttpReply { status: OK, body: Body::Json(to_responses(&employees)) },
        Err(error) => failure(error),
    }
}

/// The answer to a listing of the employees of one office: 200 with them,
/// in their order, or the status and the reason of the error, which is 404
/// where the office is not there.
pub fn list_employees_by_office_id(outcome: Result<Vec<Employee>, ServiceError>) -> (reply:
    HttpReply<Vec<EmployeeResponse>>)
    ensures
        match outcome {
            Ok(employees) => reply.status == OK && reply.body is Json && shows_all(reply.body->Json_0@, employees@),
            Err(error) => reply.status == status_of(error) && reply.body == Body::<
                Vec<EmployeeResponse>,
            >::Failure(error),
        },
{
    match outcome {
        Ok(employees) => HttpReply { status: OK, body: Body::Json(to_responses(&employees)) },
        Err(error) => failure(error),
    }
}

/// The answer to a change of an employee: 200 with the employee as it now
/// stands, or the status and the reason of the error.
pub fn update_employee(outcome: Result<Employee, ServiceError>) -> (reply: HttpReply<
    EmployeeResponse,
>)
    ensures
        match outcome {
            Ok(employee) => reply.status == OK && reply.body is Json && shows(reply.body->Json_0, employee),
            Err(error) => reply.status == status_of(error) && reply.body == Body::<
                EmployeeResponse,
            >::Failure(error),
        },
{
    match outcome {
        Ok(employee) => HttpReply { status: OK, body: Body::Json(employee.to_response()) },
        Err(error) => failure(error),
    }
}

/// The answer to the removal of an employee: 204 and nothing where it was
/// removed, 404 with a sentence where it was not there, or the status and the
/// reason of the error.
pub fn delete_employee(outcome: Result<bool, ServiceError>) -> (reply: HttpReply<EmployeeResponse>)
    ensures
        match outcome {
            Ok(true) => reply.status == NO_CONTENT && reply.body == Body::<EmployeeResponse>::Empty,
            Ok(false) => reply.status == NOT_FOUND && reply.body is Text && reply.body->Text_0@ == employee_not_found(),
            Err(error) => reply.status == status_of(error) && reply.body == Body::<
                EmployeeResponse,
            >::Failure(error),
        },
{
    match outcome {
        Ok(true) => HttpReply { status: NO_CONTENT, body: Body::Empty },
        Ok(false) => HttpReply {
            status: NOT_FOUND,
            body: Body::Text("Employee not found".to_owned()),
        },
        Err(error) => failure(error),
    }
}

} // verus!
