//! The data the service reads, stores and answers with.
pub mod recipe;
pub mod barcode_import;
pub mod user_cooking_profile;
