//! What comes in with a request and what goes out with an answer.

pub mod employee_dto;
pub mod office_dto;
