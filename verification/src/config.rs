//! How the service reads its settings: the fixed values, and how a setting
//! given as text becomes a number, with the fallback when it does not parse.
//!
//! The caller reads the environment and hands each value over as text.
use vstd::prelude::*;
use crate::error::prefixed;
use crate::text::{self, parse_i32, parse_u16, parse_u32, parse_u64};

verus! {

/// How long a page read may take, in seconds.
pub const JINA_REQUEST_TIMEOUT_SECS: u64 = 30;

/// How long connecting to the page reader may take, in seconds.
pub const JINA_CONNECT_TIMEOUT_SECS: u64 = 10;

/// How long a password initialisation link stays valid, in hours.
pub const PASSWORD_INIT_TOKEN_TTL_HOURS: i64 = 72;

/// A number of seconds given as text, as `str::parse::<u64>` reads it, or
/// `default_secs` when the text is not such a number.
pub fn parse_duration_secs(value: &str, default_secs: u64) -> (r: u64)
    ensures
        r as int == (match text::parse_unsigned(value@, u64::MAX as int) {
            Some(v) => v,
            None => default_secs as int,
        }),
{
    match parse_u64(value) {
        Some(v) => v,
        None => default_secs,
    }
}

/// An optional setting read as a `u32`, or `default` when it is absent or
/// does not parse.
pub fn parse_u32_or(value: Option<&str>, default: u32) -> (r: u32)
    ensures
        r as int == (match value {
            Some(v) => match text::parse_unsigned(v@, u32::MAX as int) {
                Some(n) => n,
                None => default as int,
            },
            None => default as int,
        }),
{
    match value {
        Some(v) => match parse_u32(v) {
            Some(n) => n,
            None => default,
        },
        None => default,
    }
}

/// An optional setting read as a `u16` (a port), or `default` when it is
/// absent or does not parse.
pub fn parse_u16_or(value: Option<&str>, default: u16) -> (r: u16)
    ensures
        r as int == (match value {
            Some(v) => match text::parse_unsigned(v@, u16::MAX as int) {
                Some(n) => n,
                None => default as int,
            },
            None => default as int,
        }),
{
    match value {
        Some(v) => match parse_u16(v) {
            Some(n) => n,
            None => default,
        },
        None => default,
    }
}

/// An optional setting read as an `i32` (a user id), or `default` when it is
/// absent or does not parse.
pub fn parse_i32_or(value: Option<&str>, default: i32) -> (r: i32)
    ensures
        r as int == (match value {
            Some(v) => match text::parse_signed(v@, i32::MIN as int, i32::MAX as int) {
                Some(n) => n,
                None => default as int,
            },
            None => default as int,
        }),
{
    match value {
        Some(v) => match parse_i32(v) {
            Some(n) => n,
            None => default,
        },
        None => default,
    }
}

/// An optional text setting, where an empty value counts as absent.
pub fn nonempty_setting(value: Option<String>) -> (r: Option<String>)
    ensures
        match value {
            Some(v) => if v@.len() > 0 {
                r == Some(v)
            } else {
                r is None
            },
            None => r is None,
        },
{
    match value {
        Some(v) => if !v.as_str().is_empty() {
            Some(v)
        } else {
            None
        },
        None => None,
    }
}

/// The message for a required setting that is missing.
pub fn missing_env_message(key: &str) -> (r: String)
    ensures
        r@ == "Missing required env var: "@ + key@,
{
    prefixed("Missing required env var: ", key)
}

} // verus!
