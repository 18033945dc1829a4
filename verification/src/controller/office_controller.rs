//! The answers of the endpoints for offices.

use crate::controller::{failure, status_of, Body, HttpReply, CREATED, NOT_FOUND, NO_CONTENT, OK};
use crate::dto::office_dto::OfficeResponse;
use crate::entity::office::Office;
use crate::service::ServiceError;
use vstd::prelude::*;

verus! {

/// `response` shows `office`, field for field.
pub open spec fn shows(response: OfficeResponse, office: Office) -> bool {
    &&& response.id == office.id
    &&& response.name == office.name
    &&& response.max_occupancy == office.max_occupancy
}

/// `responses` shows `offices`, one for one and in the same order.
pub open spec fn shows_all(responses: Seq<OfficeResponse>, offices: Seq<Office>) -> bool {
    &&& responses.len() == offices.len()
    &&& forall|i: int| 0 <= i < offices.len() ==> shows(#[trigger] responses[i], offices[i])
}

/// The sentence for an office that is not there.
pub open spec fn office_not_found() -> Seq<char> {
    "Office not found"@
}

/// The answer to the creation of an office: 201 with the office, or the
/// status and the reason of the error.
pub fn create_office(outcome: Result<Office, ServiceError>) -> (reply: HttpReply<OfficeResponse>)
    ensures
        match outcome {
            Ok(office) => reply.status == CREATED && reply.body is Json && shows(reply.body->Json_0, office),
            Err(error) => reply.status == status_of(error) && reply.body == Body::<
                OfficeResponse,
            >::Failure(error),
        },
{
    match outcome {
        Ok(office) => HttpReply { status: CREATED, body: Body::Json(office.to_response()) },
        Err(error) => failure(error),
    }
}

/// The answer to a lookup of an office: 200 with the office, 404 with a
/// sentence where it is not there, or the status and the reason of the error.
pub fn get_office_by_id(outcome: Result<Option<Office>, ServiceError>) -> (reply: HttpReply<
    OfficeResponse,
>)
    ensures
        match outcome {
            Ok(Some(office)) => reply.status == OK && reply.body is Json && shows(reply.body->Json_0, office),
            Ok(None) => reply.status == NOT_FOUND && reply.body is Text && reply.body->Text_0@ == office_not_found(),
            Err(error) => reply.status == status_of(error) && reply.body == Body::<
                OfficeResponse,
            >::Failure(error),
        },
{
    match outcome {
        Ok(Some(office)) => HttpReply { status: OK, body: Body::Json(office.to_response()) },
        Ok(None) => HttpReply { status: NOT_FOUND, body: Body::Text("Office not found".to_owned()) },
        Err(error) => failure(error),
    }
}

/// The answer to a listing of the offices: 200 with all of them, in their
/// order, or the status and the reason of the error.
pub fn list_all_offices(outcome: Result<Vec<Office>, ServiceError>) -> (reply: HttpReply<
    Vec<OfficeResponse>,
>)
    ensures
        match outcome {
            Ok(offices) => reply.status == OK && reply.body is Json && shows_all(reply.body->Json_0@, offices@),
            Err(error) => reply.status == status_of(error) && reply.body == Body::<
                Vec<OfficeResponse>,
            >::Failure(error),
        },
{
    match outcome {
        Ok(offices) => {
            let mut responses: Vec<OfficeResponse> = Vec::new();
            let mut i: usize = 0;
            while i < offices.len()
                invariant
                    i <= offices.len(),
                    responses.len() == i,
                    forall|k: int| 0 <= k < i ==> shows(#[trigger] responses@[k], offices@[k]),
                decreases offices.len() - i,
            {
                responses.push(offices[i].to_response());
                i = i + 1;
            }
            HttpReply { status: OK, body: Body::Json(responses) }
        },
        Err(error) => failure(error),
    }
}

/// The answer to a change of an office: 200 with the office as it now
/// stands, or the status and the reason of the error.
pub fn update_office(outcome: Result<Office, ServiceError>) -> (reply: HttpReply<OfficeResponse>)
    ensures
        match outcome {
            Ok(office) => reply.status == OK && reply.body is Json && shows(reply.body->Json_0, office),
            Err(error) => reply.status == status_of(error) && reply.body == Body::<
                OfficeResponse,
            >::Failure(error),
        },
{
    match outcome {
        Ok(office) => HttpReply { status: OK, body: Body::Json(office.to_response()) },
        Err(error) => failure(error),
    }
}

/// The answer to the removal of an office: 204 and nothing where it was
/// removed, 404 with a sentence where it was not there, or the status and the
/// reason of the error.
pub fn delete_office(outcome: Result<bool, ServiceError>) -> (reply: HttpReply<OfficeResponse>)
    ensures
        match outcome {
            Ok(true) => reply.status == NO_CONTENT && reply.body == Body::<OfficeResponse>::Empty,
            Ok(false) => reply.status == NOT_FOUND && reply.body is Text && reply.body->Text_0@ == office_not_found(),
            Err(error) => reply.status == status_of(error) && reply.body == Body::<
                OfficeResponse,
            >::Failure(error),
        },
{
    match outcome {
        Ok(true) => HttpReply { status: NO_CONTENT, body: Body::Empty },
        Ok(false) => HttpReply { status: NOT_FOUND, body: Body::Text("Office not found".to_owned()) },
        Err(error) => failure(error),
    }
}

} // verus!
