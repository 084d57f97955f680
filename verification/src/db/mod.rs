//! Rows the service reads from its database.
pub mod users;
