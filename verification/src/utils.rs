//! What the entities share: the reasons for which one is rejected, the
//! capability to be validated, and the text predicates the rules are stated in.

use vstd::prelude::*;

pub mod calendar;
pub mod text;

verus! {

/// The name that a rule found empty.
#[derive(Clone, Copy, Debug, PartialEq, Eq, Structural)]
pub enum NameKind {
    /// The name of an office.
    Office,
    /// The first name of an employee.
    First,
    /// The last name of an employee.
    Last,
}

/// The one reason for which an entity is rejected.
#[derive(Clone, Copy, Debug, PartialEq, Eq, Structural)]
pub enum ValidationError {
    /// The capacity of an office is zero or negative.
    InvalidCapacity,
    /// A name is empty once the white space around it is taken off.
    EmptyName(NameKind),
    /// The last name holds white space.
    NameContainsWhitespace,
    /// The year of birth lies before the window.
    BirthDateTooEarly,
    /// The year of birth lies after the window.
    BirthDateTooLate,
}

impl ValidationError {
    /// The sentence that goes with the reason.
    pub open spec fn text(self) -> Seq<char> {
        match self {
            ValidationError::InvalidCapacity => "Max occupancy must be greater than 0"@,
            ValidationError::EmptyName(NameKind::Office) => "Office name cannot be empty"@,
            ValidationError::EmptyName(NameKind::First) => "First name cannot be empty"@,
            ValidationError::EmptyName(NameKind::Last) => "Last name cannot be empty"@,
            ValidationError::NameContainsWhitespace => "Last name cannot contain whitespace"@,
            ValidationError::BirthDateTooEarly => "Born pre versaille treaty"@,
            ValidationError::BirthDateTooLate => "Born post rust"@,
        }
    }

    /// The reason as a sentence for the caller.
    pub fn message(&self) -> (s: String)
        ensures
            s@ == self.text(),
    {
        match self {
            ValidationError::InvalidCapacity => "Max occupancy must be greater than 0".to_owned(),
            ValidationError::EmptyName(NameKind::Office) => "Office name cannot be empty".to_owned(),
            ValidationError::EmptyName(NameKind::First) => "First name cannot be empty".to_owned(),
            ValidationError::EmptyName(NameKind::Last) => "Last name cannot be empty".to_owned(),
            ValidationError::NameContainsWhitespace => "Last name cannot contain whitespace".to_owned(),
            ValidationError::BirthDateTooEarly => "Born pre versaille treaty".to_owned(),
            ValidationError::BirthDateTooLate => "Born post rust".to_owned(),
        }
    }
}

/// An entity that can be checked before it is stored.
pub trait Validate {
    /// The first rule that the entity breaks, in the fixed order of its
    /// rules, or `None` where it breaks none.
    spec fn violation(&self) -> Option<ValidationError>;

    /// Checks the entity: `Ok` where it breaks no rule, else the first rule
    /// broken and no other.
    fn validate(&self) -> (r: Result<(), ValidationError>)
        ensures
            r == (match self.violation() {
                Some(reason) => Err::<(), ValidationError>(reason),
                None => Ok(()),
            }),
    ;
}

} // verus!
