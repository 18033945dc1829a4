//! An office that is known to have room for somebody.

use crate::utils::ValidationError;
use vstd::prelude::*;

verus! {

/// An office with an identity. It has room for at least one employee.
#[derive(Debug, PartialEq, Eq)]
pub struct Office {
    id: u32,
    name: String,
    max_occupancy: u32,
}

impl Clone for Office {
    /// A second office with the same identity, name and capacity.
    fn clone(&self) -> (r: Self)
        ensures
            r == *self,
    {
        proof {
            use_type_invariant(self);
        }
        Office { id: self.id, name: self.name.clone(), max_occupancy: self.max_occupancy }
    }
}

impl Office {
    /// The capacity is never zero.
    #[verifier::type_invariant]
    spec fn has_room(self) -> bool {
        self.max_occupancy >= 1
    }

    /// The identity.
    pub closed spec fn spec_id(&self) -> u32 {
        self.id
    }

    /// The characters of the name.
    pub closed spec fn spec_name(&self) -> Seq<char> {
        self.name@
    }

    /// The capacity.
    pub closed spec fn spec_max_occupancy(&self) -> u32 {
        self.max_occupancy
    }

    /// An office of the given identity, name and capacity; a capacity of
    /// zero is refused as `InvalidCapacity`.
    pub fn new(id: u32, name: String, max_occupancy: u32) -> (r: Result<Office, ValidationError>)
        ensures
            max_occupancy == 0 ==> r == Err::<Office, ValidationError>(
                ValidationError::InvalidCapacity,
            ),
            max_occupancy >= 1 ==> r is Ok && r->Ok_0.spec_id() == id && r->Ok_0.spec_name()
                == name@ && r->Ok_0.spec_max_occupancy() == max_occupancy,
    {
        if max_occupancy == 0 {
            return Err(ValidationError::InvalidCapacity);
        }
        Ok(Office { id, name, max_occupancy })
    }

    /// The identity.
    #[verifier::when_used_as_spec(spec_id)]
    pub fn id(&self) -> (id: u32)
        ensures
            id == self.spec_id(),
    {
        self.id
    }

    /// The name.
    pub fn name(&self) -> (name: &str)
        ensures
            name@ == self.spec_name(),
    {
        self.name.as_str()
    }

    /// The capacity, at least one.
    #[verifier::when_used_as_spec(spec_max_occupancy)]
    pub fn max_occupancy(&self) -> (max: u32)
        ensures
            max == self.spec_max_occupancy(),
            max >= 1,
    {
        proof {
            use_type_invariant(self);
        }
        self.max_occupancy
    }
}

} // verus!
