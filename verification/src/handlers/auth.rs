//! The decisions of the authentication handlers: which request bodies are
//! accepted, whether credentials hold, who may create password links, what
//! such a link is, and when a password-link token may be used.
//!
//! The caller talks to the database, signs tokens and reads the clock.
use vstd::prelude::*;
use crate::db::users::UserRow;
use crate::error::{check_one_field, check_two_fields, field_error, field_errors, AppError};
use crate::middleware::auth::AuthenticatedUser;
use crate::services::auth::{bcrypt_verifies, verify_password};
use crate::text::{self, push_signed_decimal, push_str, string_from_chars};

verus! {

/// The body of a login request.
pub struct LoginRequest {
    pub login: String,
    pub password: String,
}

/// The body of a refresh request.
pub struct RefreshRequest {
    pub refresh_token: String,
}

/// The body of a logout request.
pub struct LogoutRequest {
    pub refresh_token: String,
}

/// The body of a request that sets a password with a link's token.
pub struct SetPasswordRequest {
    pub token: String,
    pub password: String,
}

/// The answer to a request for a password link.
pub struct PasswordInitLinkResponse {
    pub link: String,
    pub expires_at: String,
}

/// The answer with a fresh token pair.
pub struct TokenPairResponse {
    pub access_token: String,
    pub refresh_token: String,
}

impl LoginRequest {
    /// Login and password must not be empty.
    pub fn validate(&self) -> (r: Result<(), AppError>)
        ensures
            (self.login@.len() > 0 && self.password@.len() > 0) ==> r is Ok,
            !(self.login@.len() > 0 && self.password@.len() > 0) ==> (r matches Err(
                AppError::UnprocessableEntity(m),
            ) && m@ == field_errors(
                seq![
                    (self.login@.len() > 0, "login"@, "Login must not be empty"@),
                    (self.password@.len() > 0, "password"@, "Password must not be empty"@),
                ],
            )),
    {
        proof {
            reveal_strlit("login");
            reveal_strlit("password");
        }
        check_two_fields(
            !self.login.as_str().is_empty(),
            "login",
            "Login must not be empty",
            !self.password.as_str().is_empty(),
            "password",
            "Password must not be empty",
        )
    }
}

impl RefreshRequest {
    /// The refresh token must not be empty.
    pub fn validate(&self) -> (r: Result<(), AppError>)
        ensures
            self.refresh_token@.len() > 0 ==> r is Ok,
            self.refresh_token@.len() == 0 ==> (r matches Err(AppError::UnprocessableEntity(m))
                && m@ == field_error("refresh_token"@, "Refresh token must not be empty"@)),
    {
        proof {
            reveal_strlit("refresh_token");
        }
        check_one_field(
            !self.refresh_token.as_str().is_empty(),
            "refresh_token",
            "Refresh token must not be empty",
        )
    }
}

impl LogoutRequest {
    /// The refresh token must not be empty.
    pub fn validate(&self) -> (r: Result<(), AppError>)
        ensures
            self.refresh_token@.len() > 0 ==> r is Ok,
            self.refresh_token@.len() == 0 ==> (r matches Err(AppError::UnprocessableEntity(m))
                && m@ == field_error("refresh_token"@, "Refresh token must not be empty"@)),
    {
        proof {
            reveal_strlit("refresh_token");
        }
        check_one_field(
            !self.refresh_token.as_str().is_empty(),
            "refresh_token",
            "Refresh token must not be empty",
        )
    }
}

impl SetPasswordRequest {
    /// Token and password must not be empty.
    pub fn validate(&self) -> (r: Result<(), AppError>)
        ensures
            (self.token@.len() > 0 && self.password@.len() > 0) ==> r is Ok,
            !(self.token@.len() > 0 && self.password@.len() > 0) ==> (r matches Err(
                AppError::UnprocessableEntity(m),
            ) && m@ == field_errors(
                seq![
                    (self.token@.len() > 0, "token"@, "token must not be empty"@),
                    (self.password@.len() > 0, "password"@, "Password must be at least 1 characters"@),
                ],
            )),
    {
        proof {
            reveal_strlit("token");
            reveal_strlit("password");
        }
        check_two_fields(
            !self.token.as_str().is_empty(),
            "token",
            "token must not be empty",
            !self.password.as_str().is_empty(),
            "password",
            "Password must be at least 1 characters",
        )
    }
}

/// Whether `password` is the password of the stored user, as bcrypt decides.
pub open spec fn password_accepted(user: UserRow, password: Seq<char>) -> bool {
    bcrypt_verifies(password, user.password@) == Some(true)
}

/// The id of the user a login names, when the password is theirs. An unknown
/// login, a wrong password and an unreadable stored hash all get the same
/// answer, "Invalid login or password".
pub fn check_credentials(user: Option<UserRow>, password: &str) -> (r: Result<i32, AppError>)
    ensures
        (user matches Some(u) && password_accepted(u, password@)) ==> (r matches Ok(id) && id
            == user->0.id),
        !(user matches Some(u) && password_accepted(u, password@)) ==> (r matches Err(
            AppError::Unauthorized(m),
        ) && m@ == "Invalid login or password"@),
{
    let u = match user {
        Some(u) => u,
        None => {
            return Err(AppError::Unauthorized(String::from_str("Invalid login or password")));
        },
    };
    match verify_password(password, u.password.as_str()) {
        Ok(true) => Ok(u.id),
        _ => Err(AppError::Unauthorized(String::from_str("Invalid login or password"))),
    }
}

/// Only the administrator may create password links.
pub fn ensure_admin(caller: &AuthenticatedUser, admin_user_id: i32) -> (r: Result<(), AppError>)
    ensures
        caller.user_id == admin_user_id ==> r is Ok,
        caller.user_id != admin_user_id ==> (r matches Err(AppError::Forbidden(m)) && m@
            == "Admin access required"@),
{
    if caller.user_id != admin_user_id {
        Err(AppError::Forbidden(String::from_str("Admin access required")))
    } else {
        Ok(())
    }
}

/// The error for a user id that names no user.
pub fn user_not_found(user_id: i32) -> (r: AppError)
    ensures
        r matches AppError::NotFound(m) && m@ == "User "@ + text::signed_decimal(user_id as int)
            + " not found"@,
{
    let mut buf: Vec<char> = Vec::new();
    push_str(&mut buf, "User ");
    push_signed_decimal(&mut buf, user_id as i64);
    push_str(&mut buf, " not found");
    AppError::NotFound(string_from_chars(&buf))
}

/// The link that lets a user set a password with `token`.
pub fn password_init_link(app_base_url: &str, token: &str) -> (r: String)
    ensures
        r@ == app_base_url@ + "/set-password?token="@ + token@,
{
    let mut buf: Vec<char> = Vec::new();
    push_str(&mut buf, app_base_url);
    push_str(&mut buf, "/set-password?token=");
    push_str(&mut buf, token);
    string_from_chars(&buf)
}

/// What is stored of a password-link token: whose it is, whether it was
/// used, and when it expires (nanoseconds since the epoch).
pub struct PasswordInitTokenState {
    pub user_id: i32,
    pub used: bool,
    pub expires_at_nanos: i128,
}

/// The user whose password a token may set at `now_nanos`: an unknown token,
/// a used one and an expired one are refused, in that order of checking.
pub fn check_password_init_token(record: Option<PasswordInitTokenState>, now_nanos: i128) -> (r:
    Result<i32, AppError>)
    ensures
        match record {
            None => r matches Err(AppError::BadRequest(m)) && m@ == "Invalid or unknown token"@,
            Some(t) => if t.used {
                r matches Err(AppError::BadRequest(m)) && m@ == "Token has already been used"@
            } else if now_nanos > t.expires_at_nanos {
                r matches Err(AppError::BadRequest(m)) && m@ == "Token has expired"@
            } else {
                r matches Ok(id) && id == t.user_id
            },
        },
{
    match record {
        None => Err(AppError::BadRequest(String::from_str("Invalid or unknown token"))),
        Some(t) => {
            if t.used {
                Err(AppError::BadRequest(String::from_str("Token has already been used")))
            } else if now_nanos > t.expires_at_nanos {
                Err(AppError::BadRequest(String::from_str("Token has expired")))
            } else {
                Ok(t.user_id)
            }
        },
    }
}

} // verus!
