//! Offices and employees reduced to what identifies them.

pub mod employee;
pub mod office;
