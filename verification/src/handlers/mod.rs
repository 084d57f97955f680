//! The decisions of the HTTP handlers: who may act, which input is
//! accepted, and what is answered.
pub mod auth;
pub mod cooking_profile;
pub mod recipes;
