//! Offices and the employees assigned to them: validation of both, tables that
//! hold them, and the coordination that keeps an office within its capacity
//! and its name unique.
//!
//! - `utils`: the reasons for which an entity is rejected, white space in
//!   names, days of the calendar
//! - `entity`, `dto`, `domain`: offices and employees as they are stored, as
//!   they travel, and reduced to what identifies them
//! - `repository`: the two tables, in memory
//! - `service`: the operations, each a session that puts questions to
//!   storage; what two sessions at once come to
//! - `controller`: from the result of an operation to status and body
//! - `config`: the address of the database

pub mod config;
pub mod controller;
pub mod domain;
pub mod dto;
pub mod entity;
pub mod repository;
pub mod service;
pub mod utils;
