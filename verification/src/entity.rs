//! The records that are stored: offices and employees, with their rules.

pub mod employee;
pub mod office;
