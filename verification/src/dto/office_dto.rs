//! Offices as they travel.

use vstd::prelude::*;

verus! {

/// What a caller sends to create or to change an office.
#[derive(Debug, PartialEq, Eq)]
pub struct CreateOfficeRequest {
    pub name: String,
    pub max_occupancy: i32,
}

/// An office as it is shown to a caller.
#[derive(Debug, PartialEq, Eq)]
pub struct OfficeResponse {
    pub id: Option<i32>,
    pub name: String,
    pub max_occupancy: i32,
}

} // verus!
