//! Users as stored: their id, login name and password hash.
use vstd::prelude::*;

verus! {

/// A user as stored.
pub struct UserRow {
    pub id: i32,
    pub name: String,
    /// The bcrypt hash of the password.
    pub password: String,
}

} // verus!
