//! Passwords and tokens: checking and hashing passwords, signing access and
//! refresh tokens (HS256) and reading them back, and the random tokens of
//! password links. The clock is read by the caller, which hands in the
//! current time.
use vstd::prelude::*;
use jsonwebtoken::{Algorithm, DecodingKey, EncodingKey, Header, Validation};
use serde_json::Value;
use crate::error::AppError;
use crate::job_store::{is_v4, new_uuid, uuid_hyphenated, uuid_text};
use crate::text::{self, hex_digit_lower, is_lower_hex_char};

verus! {

/// The claims of an access token: whose it is, when it expires and when it
/// was issued (seconds since the epoch).
pub struct AccessClaims {
    pub sub: i32,
    pub exp: usize,
    pub iat: usize,
}

/// The claims of a refresh token; `jti` identifies it in the store of live
/// refresh tokens.
pub struct RefreshClaims {
    pub sub: i32,
    pub exp: usize,
    pub iat: usize,
    pub jti: String,
}

/// A signed access token and refresh token.
pub struct TokenPair {
    pub access_token: String,
    pub refresh_token: String,
}

// ---------------------------------------------------------------------------
// Passwords
// ---------------------------------------------------------------------------
/// What `bcrypt::verify` answers for a password and a stored hash: whether
/// they match, or nothing when the hash cannot be read.
pub uninterp spec fn bcrypt_verifies(plain: Seq<char>, hash: Seq<char>) -> Option<bool>;

/// Calls `bcrypt::verify(plain, hash)`. The answer depends on the two
/// arguments alone and is named by `bcrypt_verifies`; an error of the crate
/// becomes `None`.
#[verifier::external_body]
fn bcrypt_verify(plain: &str, hash: &str) -> (r: Option<bool>)
    ensures
        r == bcrypt_verifies(plain@, hash@),
{
    match bcrypt::verify(plain, hash) {
        Ok(b) => Some(b),
        Err(_) => None,
    }
}

/// The start of a bcrypt hash made at `cost`: `$2b$`, the cost in two
/// decimal digits, and `$`.
pub open spec fn bcrypt_prefix(cost: int) -> Seq<char> {
    "$2b$"@ + seq![text::digit_char(cost / 10), text::digit_char(cost % 10), '$']
}

/// Calls `bcrypt::hash(plain, cost)`, which salts with fresh random bytes,
/// so only the shape of the result is claimed, as the crate's source gives
/// it: 60 characters starting with `$2b$`, the cost in two digits and `$`
/// (`format_for_version(TwoB)`), and a hash that `bcrypt::verify` accepts
/// for the same password (it re-hashes with the stored salt and cost). The
/// crate fails only when the operating system gives no random bytes.
#[verifier::external_body]
fn bcrypt_hash(plain: &str, cost: u32) -> (r: Option<String>)
    requires
        4 <= cost <= 31,
    ensures
        r matches Some(h) ==> {
            &&& h@.len() == 60
            &&& h@.subrange(0, 7) == bcrypt_prefix(cost as int)
            &&& bcrypt_verifies(plain@, h@) == Some(true)
        },
{
    bcrypt::hash(plain, cost).ok()
}

/// Verifies a plain-text password against a bcrypt hash. A hash that
/// cannot be read is an internal error.
pub fn verify_password(plain: &str, hash: &str) -> (r: Result<bool, AppError>)
    ensures
        match bcrypt_verifies(plain@, hash@) {
            Some(b) => r matches Ok(v) && v == b,
            None => r matches Err(AppError::InternalServerError(m)) && m@
                == "Password verification failed"@,
        },
{
    match bcrypt_verify(plain, hash) {
        Some(b) => Ok(b),
        None => Err(AppError::InternalServerError(String::from_str("Password verification failed"))),
    }
}

/// The work factor passwords are hashed with.
pub const PASSWORD_HASH_COST: u32 = 12;

/// Hashes a plain-text password with bcrypt at cost 12. The hash is salted
/// at random, so it is known by its shape: 60 characters starting with
/// `$2b$12$`, which `verify_password` accepts for the same password. A
/// failure is an internal error.
pub fn hash_password(plain: &str) -> (r: Result<String, AppError>)
    ensures
        match r {
            Ok(h) => {
                &&& h@.len() == 60
                &&& h@.subrange(0, 7) == "$2b$12$"@
                &&& bcrypt_verifies(plain@, h@) == Some(true)
            },
            Err(e) => e matches AppError::InternalServerError(m) && m@ == "Password hashing failed"@,
        },
{
    match bcrypt_hash(plain, PASSWORD_HASH_COST) {
        Some(h) => {
            proof {
                reveal_strlit("$2b$12$");
                reveal_strlit("$2b$");
                assert(bcrypt_prefix(12) =~= "$2b$12$"@);
            }
            Ok(h)
        },
        None => Err(AppError::InternalServerError(String::from_str("Password hashing failed"))),
    }
}

// ---------------------------------------------------------------------------
// Random tokens
// ---------------------------------------------------------------------------
/// The lowercase hexadecimal text of `bytes`, two digits per byte, high
/// digit first.
pub open spec fn hex_lower(bytes: Seq<u8>) -> Seq<char>
    decreases bytes.len(),
{
    if bytes.len() == 0 {
        Seq::empty()
    } else {
        let b = bytes.last() as int;
        hex_lower(bytes.drop_last()) + seq![hex_digit_lower(b / 16), hex_digit_lower(b % 16)]
    }
}

/// The hexadecimal text has two characters per byte, each a lowercase
/// hexadecimal digit.
pub proof fn lemma_hex_lower_shape(bytes: Seq<u8>)
    ensures
        hex_lower(bytes).len() == 2 * bytes.len(),
        forall|i: int| 0 <= i < hex_lower(bytes).len() ==> is_lower_hex_char(#[trigger] hex_lower(bytes)[i]),
    decreases bytes.len(),
{
    if bytes.len() > 0 {
        lemma_hex_lower_shape(bytes.drop_last());
        let b = bytes.last() as int;
        let prev = hex_lower(bytes.drop_last());
        let tail = seq![hex_digit_lower(b / 16), hex_digit_lower(b % 16)];
        assert(hex_lower(bytes) == prev + tail);
        assert forall|i: int| 0 <= i < hex_lower(bytes).len() implies is_lower_hex_char(
            #[trigger] hex_lower(bytes)[i],
        ) by {
            if i < prev.len() {
                assert(hex_lower(bytes)[i] == prev[i]);
            } else {
                assert(hex_lower(bytes)[i] == tail[i - prev.len()]);
            }
        }
    }
}

/// Calls `rand::Rng::fill` with the thread-local generator on `len` zero
/// bytes: `len` random bytes, of which nothing more is claimed. (The crate
/// panics if the operating system's random source cannot seed it.)
#[verifier::external_body]
fn random_bytes(len: usize) -> (r: Vec<u8>)
    ensures
        r@.len() == len,
{
    let mut b = vec![0u8; len];
    rand::Rng::fill(&mut rand::thread_rng(), b.as_mut_slice());
    b
}

/// Calls `hex::encode`, documented to write each byte as two lowercase
/// hexadecimal digits.
#[verifier::external_body]
fn hex_encode(bytes: &[u8]) -> (r: String)
    ensures
        r@ == hex_lower(bytes@),
{
    hex::encode(bytes)
}

/// A fresh secret for a password link: 64 random bytes in lowercase
/// hexadecimal, so 128 characters from `0`-`9`, `a`-`f`.
pub fn generate_secure_token() -> (r: String)
    ensures
        exists|b: Seq<u8>| b.len() == 64 && r@ == hex_lower(b),
        r@.len() == 128,
        forall|i: int| 0 <= i < r@.len() ==> is_lower_hex_char(#[trigger] r@[i]),
{
    let bytes = random_bytes(64);
    let token = hex_encode(bytes.as_slice());
    proof {
        lemma_hex_lower_shape(bytes@);
    }
    token
}

// ---------------------------------------------------------------------------
// Claims
// ---------------------------------------------------------------------------
/// A fresh refresh-token id: a random version 4 UUID in its hyphenated
/// lowercase text.
pub fn new_jti() -> (r: String)
    ensures
        exists|id: u128| is_v4(id) && r@ == uuid_hyphenated(id),
{
    let id = new_uuid();
    uuid_text(id)
}

/// The claims of the token pair issued to `user_id` at `now_secs`: the
/// access token lives `access_secs`, the refresh token `refresh_secs` and is
/// known by `jti`.
pub fn token_claims(
    user_id: i32,
    now_secs: usize,
    access_secs: usize,
    refresh_secs: usize,
    jti: String,
) -> (r: (AccessClaims, RefreshClaims))
    requires
        now_secs + access_secs <= usize::MAX,
        now_secs + refresh_secs <= usize::MAX,
    ensures
        r.0.sub == user_id,
        r.0.iat == now_secs,
        r.0.exp == now_secs + access_secs,
        r.1.sub == user_id,
        r.1.iat == now_secs,
        r.1.exp == now_secs + refresh_secs,
        r.1.jti == jti,
{
    (
        AccessClaims { sub: user_id, exp: now_secs + access_secs, iat: now_secs },
        RefreshClaims { sub: user_id, exp: now_secs + refresh_secs, iat: now_secs, jti },
    )
}

/// A decoded refresh token is accepted only while its id is still stored;
/// otherwise it has been revoked.
pub fn ensure_not_revoked(claims: RefreshClaims, stored: bool) -> (r: Result<RefreshClaims, AppError>)
    ensures
        stored ==> r == Ok::<RefreshClaims, AppError>(claims),
        !stored ==> (r matches Err(AppError::Unauthorized(m)) && m@ == "Refresh token has been revoked"@),
{
    if stored {
        Ok(claims)
    } else {
        Err(AppError::Unauthorized(String::from_str("Refresh token has been revoked")))
    }
}


// ---------------------------------------------------------------------------
// Signed tokens
// ---------------------------------------------------------------------------
/// The claims found in a token's payload, each taken when its key holds a
/// value of the expected kind: `sub` an integer that fits an `i64`, `exp` and
/// `iat` integers that fit a `u64`, `jti` a string.
pub struct TokenFields {
    pub sub: Option<i64>,
    pub exp: Option<u64>,
    pub iat: Option<u64>,
    pub jti: Option<String>,
}

/// The claims of a payload as plain values: `sub`, `exp`, `iat`, `jti`.
pub type FieldsView = (Option<i64>, Option<u64>, Option<u64>, Option<Seq<char>>);

impl View for TokenFields {
    type V = FieldsView;

    open spec fn view(&self) -> FieldsView {
        (self.sub, self.exp, self.iat, opt_string(self.jti))
    }
}

/// The text of an optional string.
pub open spec fn opt_string(o: Option<String>) -> Option<Seq<char>> {
    match o {
        Some(s) => Some(s@),
        None => None,
    }
}

/// The text of an optional string slice.
pub open spec fn opt_str(o: Option<&str>) -> Option<Seq<char>> {
    match o {
        Some(s) => Some(s@),
        None => None,
    }
}

/// The token that `jsonwebtoken::encode` signs with HS256 and `secret` for
/// the JSON payload `{"sub":..,"exp":..,"iat":..}`, with `"jti":..` last
/// when there is one.
pub uninterp spec fn hs256_token(
    sub: i32,
    exp: usize,
    iat: usize,
    jti: Option<Seq<char>>,
    secret: Seq<u8>,
) -> Seq<char>;

/// What `jsonwebtoken::decode` reads from `token` with `secret`, HS256 and
/// the crate's validation apart from the expiry check (signature, an `exp`
/// claim present, no `aud` claim): the claims of the payload, or nothing
/// when the token is refused.
pub uninterp spec fn hs256_fields(token: Seq<char>, secret: Seq<u8>) -> Option<
    (Option<i64>, Option<u64>, Option<u64>, Option<Seq<char>>),
>;

/// Calls `jsonwebtoken::encode` with an HS256 header, the claims as a JSON
/// object in the order `sub`, `exp`, `iat`, `jti`, and the key made from
/// `secret`. The token is named by `hs256_token`. The crate's decoding of
/// it with the same secret, leaving out the expiry check (`hs256_fields`),
/// gives back these claims: the signature is the one it checks, `exp` is
/// present and there is no `aud`. By the crate's source the call does not
/// fail here: an HMAC key matches HS256, HMAC takes a key of any length, and
/// a JSON map of numbers and strings always serialises; the `Option` only
/// carries the crate's error type through.
#[verifier::external_body]
fn sign_hs256(sub: i32, exp: usize, iat: usize, jti: Option<&str>, secret: &[u8]) -> (r: Option<String>)
    ensures
        r is Some,
        r matches Some(t) ==> {
            &&& t@ == hs256_token(sub, exp, iat, opt_str(jti), secret@)
            &&& hs256_fields(t@, secret@) == Some((Some(sub as i64), Some(exp as u64), Some(iat as u64), opt_str(jti)))
        },
{
    let mut claims = serde_json::Map::new();
    claims.insert("sub".to_string(), Value::from(sub));
    claims.insert("exp".to_string(), Value::from(exp));
    claims.insert("iat".to_string(), Value::from(iat));
    if let Some(j) = jti {
        claims.insert("jti".to_string(), Value::from(j));
    }
    jsonwebtoken::encode(&Header::new(Algorithm::HS256), &claims, &EncodingKey::from_secret(secret)).ok()
}

/// Calls `jsonwebtoken::decode` with HS256, the key made from `secret`, and
/// the expiry check on or off (`check_exp`), and takes the claims out of the
/// JSON object it reads. Without the expiry check the result is
/// `hs256_fields`, a function of the token and secret. The expiry check
/// compares with the machine's clock, so with it only this is claimed: what
/// it accepts, it reads as `hs256_fields` does.
#[verifier::external_body]
fn decode_hs256(token: &str, secret: &[u8], check_exp: bool) -> (r: Option<TokenFields>)
    ensures
        !check_exp ==> match r {
            Some(f) => hs256_fields(token@, secret@) == Some(f@),
            None => hs256_fields(token@, secret@) is None,
        },
        r matches Some(f) ==> hs256_fields(token@, secret@) == Some(f@),
{
    let mut validation = Validation::new(Algorithm::HS256);
    validation.validate_exp = check_exp;
    let key = DecodingKey::from_secret(secret);
    let claims = jsonwebtoken::decode::<serde_json::Map<String, Value>>(token, &key, &validation).ok()?.claims;
    Some(TokenFields {
        sub: claims.get("sub").and_then(Value::as_i64),
        exp: claims.get("exp").and_then(Value::as_u64),
        iat: claims.get("iat").and_then(Value::as_u64),
        jti: claims.get("jti").and_then(Value::as_str).map(String::from),
    })
}

/// The payload holds access claims: `sub` fits an `i32`, `exp` and `iat`
/// fit a `usize`.
pub open spec fn access_readable(f: FieldsView) -> bool {
    &&& f.0 matches Some(s) && i32::MIN <= s <= i32::MAX
    &&& f.1 matches Some(e) && e <= usize::MAX
    &&& f.2 matches Some(i) && i <= usize::MAX
}

/// `c` is what the payload says.
pub open spec fn reads_access(c: AccessClaims, f: FieldsView) -> bool {
    f.0 == Some(c.sub as i64) && f.1 == Some(c.exp as u64) && f.2 == Some(c.iat as u64)
}

/// The payload holds refresh claims: access claims and a `jti`.
pub open spec fn refresh_readable(f: FieldsView) -> bool {
    access_readable(f) && f.3 is Some
}

/// `c` is what the payload says.
pub open spec fn reads_refresh(c: RefreshClaims, f: FieldsView) -> bool {
    f.0 == Some(c.sub as i64) && f.1 == Some(c.exp as u64) && f.2 == Some(c.iat as u64) && f.3
        == Some(c.jti@)
}

/// The access claims of a payload, when it holds them.
pub fn access_claims_from(f: &TokenFields) -> (r: Option<AccessClaims>)
    ensures
        r is Some <==> access_readable(f@),
        r matches Some(c) ==> reads_access(c, f@),
{
    match (f.sub, f.exp, f.iat) {
        (Some(sub), Some(exp), Some(iat)) => {
            if i32::MIN as i64 <= sub && sub <= i32::MAX as i64 && exp <= usize::MAX as u64 && iat
                <= usize::MAX as u64 {
                Some(AccessClaims { sub: sub as i32, exp: exp as usize, iat: iat as usize })
            } else {
                None
            }
        },
        _ => None,
    }
}

/// The refresh claims of a payload, when it holds them.
pub fn refresh_claims_from(f: TokenFields) -> (r: Option<RefreshClaims>)
    ensures
        r is Some <==> refresh_readable(f@),
        r matches Some(c) ==> reads_refresh(c, f@),
{
    match access_claims_from(&f) {
        Some(a) => match f.jti {
            Some(jti) => Some(RefreshClaims { sub: a.sub, exp: a.exp, iat: a.iat, jti }),
            None => None,
        },
        None => None,
    }
}

/// What a check of an access token answers for what decoding gave: the
/// claims when the token was accepted and holds them, else the token is
/// invalid or expired.
pub fn access_token_result(decoded: Option<TokenFields>) -> (r: Result<AccessClaims, AppError>)
    ensures
        match decoded {
            Some(f) => if access_readable(f@) {
                r matches Ok(c) && reads_access(c, f@)
            } else {
                r matches Err(AppError::Unauthorized(m)) && m@ == "Invalid or expired access token"@
            },
            None => r matches Err(AppError::Unauthorized(m)) && m@ == "Invalid or expired access token"@,
        },
{
    match decoded {
        Some(f) => match access_claims_from(&f) {
            Some(c) => Ok(c),
            None => Err(AppError::Unauthorized(String::from_str("Invalid or expired access token"))),
        },
        None => Err(AppError::Unauthorized(String::from_str("Invalid or expired access token"))),
    }
}

/// What a reading of a refresh token answers for what decoding gave: the
/// claims when the token was accepted and holds them, else `message` as an
/// unauthorized error.
pub fn refresh_token_result(decoded: Option<TokenFields>, message: &str) -> (r: Result<
    RefreshClaims,
    AppError,
>)
    ensures
        match decoded {
            Some(f) => if refresh_readable(f@) {
                r matches Ok(c) && reads_refresh(c, f@)
            } else {
                r matches Err(AppError::Unauthorized(m)) && m@ == message@
            },
            None => r matches Err(AppError::Unauthorized(m)) && m@ == message@,
        },
{
    match decoded {
        Some(f) => match refresh_claims_from(f) {
            Some(c) => Ok(c),
            None => Err(AppError::Unauthorized(String::from_str(message))),
        },
        None => Err(AppError::Unauthorized(String::from_str(message))),
    }
}

/// Checks an access token: its signature with `secret`, that it has not
/// expired by the clock, and that it holds access claims. What it accepts
/// are the claims the token carries; a token that decoding refuses, or
/// whose claims are not access claims, is refused whatever the time.
pub fn validate_access_token(token: &str, secret: &[u8]) -> (r: Result<AccessClaims, AppError>)
    ensures
        r matches Ok(c) ==> (hs256_fields(token@, secret@) matches Some(f) && reads_access(c, f)),
        r matches Err(e) ==> (e matches AppError::Unauthorized(m) && m@
            == "Invalid or expired access token"@),
        !(hs256_fields(token@, secret@) matches Some(f) && access_readable(f)) ==> r is Err,
{
    access_token_result(decode_hs256(token, secret, true))
}

/// Checks a refresh token as a JWT: its signature with `secret`, that it has
/// not expired by the clock, and that it holds refresh claims. Whether its
/// id is still stored is checked after (`ensure_not_revoked`).
pub fn check_refresh_token(token: &str, secret: &[u8]) -> (r: Result<RefreshClaims, AppError>)
    ensures
        r matches Ok(c) ==> (hs256_fields(token@, secret@) matches Some(f) && reads_refresh(c, f)),
        r matches Err(e) ==> (e matches AppError::Unauthorized(m) && m@
            == "Invalid or expired refresh token"@),
        !(hs256_fields(token@, secret@) matches Some(f) && refresh_readable(f)) ==> r is Err,
{
    refresh_token_result(decode_hs256(token, secret, true), "Invalid or expired refresh token")
}

/// Reads the claims of a refresh token whose signature `secret` verifies,
/// expired or not (as logging out does).
pub fn decode_refresh_token_claims(token: &str, secret: &[u8]) -> (r: Result<RefreshClaims, AppError>)
    ensures
        match hs256_fields(token@, secret@) {
            Some(f) => if refresh_readable(f) {
                r matches Ok(c) && reads_refresh(c, f)
            } else {
                r matches Err(AppError::Unauthorized(m)) && m@ == "Invalid refresh token"@
            },
            None => r matches Err(AppError::Unauthorized(m)) && m@ == "Invalid refresh token"@,
        },
{
    refresh_token_result(decode_hs256(token, secret, false), "Invalid refresh token")
}

/// The token pair issued to `user_id` at `now_secs` (seconds since the
/// epoch): an access token living `access_secs`, signed with
/// `access_secret`, and a refresh token living `refresh_secs`, signed with
/// `refresh_secret` and known by a fresh random id, which is returned beside
/// the pair to be stored. Each token reads back, with its secret, to the
/// claims it was issued with. A failure of the signing crate is an internal
/// error.
pub fn generate_token_pair(
    user_id: i32,
    now_secs: usize,
    access_secs: usize,
    refresh_secs: usize,
    access_secret: &[u8],
    refresh_secret: &[u8],
) -> (r: Result<(TokenPair, String), AppError>)
    requires
        now_secs + access_secs <= usize::MAX,
        now_secs + refresh_secs <= usize::MAX,
    ensures
        r is Ok,
        match r {
            Ok((pair, jti)) => {
                &&& exists|id: u128| is_v4(id) && jti@ == uuid_hyphenated(id)
                &&& pair.access_token@ == hs256_token(
                    user_id,
                    (now_secs + access_secs) as usize,
                    now_secs,
                    None,
                    access_secret@,
                )
                &&& pair.refresh_token@ == hs256_token(
                    user_id,
                    (now_secs + refresh_secs) as usize,
                    now_secs,
                    Some(jti@),
                    refresh_secret@,
                )
                &&& hs256_fields(pair.access_token@, access_secret@) matches Some(f) && access_readable(f)
                    && reads_access(
                    AccessClaims { sub: user_id, exp: (now_secs + access_secs) as usize, iat: now_secs },
                    f,
                )
                &&& hs256_fields(pair.refresh_token@, refresh_secret@) matches Some(f)
                    && refresh_readable(f) && f == (
                    Some(user_id as i64),
                    Some((now_secs + refresh_secs) as u64),
                    Some(now_secs as u64),
                    Some(jti@),
                )
            },
            Err(e) => e matches AppError::InternalServerError(m) && m@ == "Token generation failed"@,
        },
{
    let jti = new_jti();
    let (access, refresh) = token_claims(user_id, now_secs, access_secs, refresh_secs, jti);
    let access_token = match sign_hs256(access.sub, access.exp, access.iat, None, access_secret) {
        Some(t) => t,
        None => {
            return Err(AppError::InternalServerError(String::from_str("Token generation failed")));
        },
    };
    let refresh_token = match sign_hs256(
        refresh.sub,
        refresh.exp,
        refresh.iat,
        Some(refresh.jti.as_str()),
        refresh_secret,
    ) {
        Some(t) => t,
        None => {
            return Err(AppError::InternalServerError(String::from_str("Token generation failed")));
        },
    };
    Ok((TokenPair { access_token, refresh_token }, refresh.jti))
}

} // verus!
