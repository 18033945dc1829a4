//! How the service is set up.

pub mod db_settings;
