//! What runs before the handlers of protected routes.
pub mod auth;
