//! An employee by name, with the office worked in.

use vstd::prelude::*;

verus! {

/// An employee with an identity, one name, and the identity of an office.
#[derive(Debug, PartialEq, Eq)]
pub struct Employee {
    pub id: u32,
    pub name: String,
    pub office_id: u32,
}

impl Clone for Employee {
    /// A second employee with the same fields.
    fn clone(&self) -> (r: Self)
        ensures
            r == *self,
    {
        Employee { id: self.id, name: self.name.clone(), office_id: self.office_id }
    }
}

impl Employee {
    /// The employee with these three fields.
    pub fn new(id: u32, name: String, office_id: u32) -> (employee: Employee)
        ensures
            employee == (Employee { id, name, office_id }),
    {
        Employee { id, name, office_id }
    }

    /// The identity.
    pub fn id(&self) -> (id: u32)
        ensures
            id == self.id,
    {
        self.id
    }

    /// The name.
    pub fn name(&self) -> (name: &str)
        ensures
            name@ == self.name@,
    {
        self.name.as_str()
    }

    /// The identity of the office worked in.
    pub fn office_id(&self) -> (office_id: u32)
        ensures
            office_id == self.office_id,
    {
        self.office_id
    }
}

} // verus!
