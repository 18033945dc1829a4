//! The office: a name that no other office has, and a capacity.

use crate::dto::office_dto::{CreateOfficeRequest, OfficeResponse};
use crate::utils::text::{is_blank, trim, trimmed};
use crate::utils::{NameKind, Validate, ValidationError};
use vstd::prelude::*;

verus! {

/// An office. Its identity is absent until a table has stored it.
#[derive(Debug, PartialEq, Eq)]
pub struct Office {
    pub id: Option<i32>,
    pub name: String,
    pub max_occupancy: i32,
}

impl Clone for Office {
    /// A second office with the same identity, name and capacity.
    fn clone(&self) -> (r: Self)
        ensures
            r == *self,
    {
        Office { id: self.id, name: self.name.clone(), max_occupancy: self.max_occupancy }
    }
}

impl Office {
    /// The office that a request describes: no identity yet, the name without
    /// the white space around it, the capacity as sent.
    pub fn from_create_request(req: CreateOfficeRequest) -> (office: Office)
        ensures
            office.id is None,
            office.name@ == trimmed(req.name@),
            office.max_occupancy == req.max_occupancy,
    {
        Office { id: None, name: trim(req.name.as_str()), max_occupancy: req.max_occupancy }
    }

    /// The office as it is shown to a caller: field for field.
    pub fn to_response(&self) -> (response: OfficeResponse)
        ensures
            response.id == self.id,
            response.name == self.name,
            response.max_occupancy == self.max_occupancy,
    {
        OfficeResponse { id: self.id, name: self.name.clone(), max_occupancy: self.max_occupancy }
    }
}

impl Validate for Office {
    /// The capacity is looked at first, then the name.
    open spec fn violation(&self) -> Option<ValidationError> {
        if self.max_occupancy <= 0 {
            Some(ValidationError::InvalidCapacity)
        } else if trimmed(self.name@).len() == 0 {
            Some(ValidationError::EmptyName(NameKind::Office))
        } else {
            None
        }
    }

    fn validate(&self) -> (r: Result<(), ValidationError>) {
        if self.max_occupancy <= 0 {
            return Err(ValidationError::InvalidCapacity);
        }
        if is_blank(self.name.as_str()) {
            return Err(ValidationError::EmptyName(NameKind::Office));
        }
        Ok(())
    }
}

} // verus!
