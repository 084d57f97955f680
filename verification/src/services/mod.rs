//! Clients of outside services and the orchestration built on them.
pub mod rate_window;
pub mod groq;
pub mod jina;
pub mod serp;
pub mod recipe_orchestrator;
pub mod barcode_import_orchestrator;
pub mod auth;
pub mod prompts;
