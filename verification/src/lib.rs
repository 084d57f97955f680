//! The verified core of a recipe-assistant web service: its error model,
//! job bookkeeping, rate limiting, text processing and response shaping.
use vstd::prelude::*;

pub mod config;
pub mod db;
pub mod error;
pub mod handlers;
pub mod job_store;
pub mod middleware;
pub mod models;
pub mod services;
pub mod text;
