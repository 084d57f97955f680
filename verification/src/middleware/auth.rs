//! Who is calling: the bearer token of a request and the user it names.
//!
//! The caller reads the `Authorization` header and checks the token's
//! signature; the decisions in between are made here.
use vstd::prelude::*;
use crate::error::AppError;
use crate::services::auth::AccessClaims;
use crate::text::string_from_chars;

verus! {

/// The user a request was authenticated as.
#[derive(Clone, Copy, Debug, PartialEq, Eq, Structural)]
pub struct AuthenticatedUser {
    pub user_id: i32,
}

/// Whether a header byte is visible ASCII (or a tab), the bytes a header
/// value may hold to be read as text.
pub open spec fn visible_ascii(b: u8) -> bool {
    (32 <= b && b < 127) || b == 9
}

/// The bytes of `Bearer ` (with its trailing space).
pub open spec fn bearer_prefix() -> Seq<u8> {
    seq![66u8, 101u8, 97u8, 114u8, 101u8, 114u8, 32u8]
}

/// The token of an `Authorization: Bearer <token>` header: the header must
/// be text (visible ASCII), start with `Bearer ` and have something after it.
pub open spec fn bearer_token_spec(header: Option<Seq<u8>>) -> Option<Seq<char>> {
    match header {
        None => None,
        Some(bytes) => if (forall|i: int| 0 <= i < bytes.len() ==> visible_ascii(#[trigger] bytes[i]))
            && bytes.len() > 7 && bytes.take(7) == bearer_prefix() {
            Some(bytes.skip(7).map_values(|b: u8| b as char))
        } else {
            None
        },
    }
}

/// A bearer token is never empty, and is visible ASCII text.
pub proof fn law_bearer_token_nonempty(header: Option<Seq<u8>>)
    ensures
        bearer_token_spec(header) matches Some(t) ==> t.len() > 0 && forall|i: int|
            0 <= i < t.len() ==> visible_ascii(#[trigger] t[i] as u8),
{
    if let Some(bytes) = header {
        if let Some(t) = bearer_token_spec(header) {
            assert forall|i: int| 0 <= i < t.len() implies visible_ascii(#[trigger] t[i] as u8) by {
                assert(t[i] == bytes.skip(7)[i] as char);
                assert(bytes.skip(7)[i] == bytes[i + 7]);
            }
        }
    }
}

/// The bytes of an optional header value.
pub open spec fn header_bytes(header_value: Option<&[u8]>) -> Option<Seq<u8>> {
    match header_value {
        Some(b) => Some(b@),
        None => None,
    }
}

/// Extracts the raw token string from `Authorization: Bearer <token>`,
/// given the header's bytes.
pub fn extract_bearer_token(header_value: Option<&[u8]>) -> (r: Option<String>)
    ensures
        match r {
            Some(t) => bearer_token_spec(header_bytes(header_value)) == Some(t@),
            None => bearer_token_spec(header_bytes(header_value)) is None,
        },
{
    let bytes = match header_value {
        Some(b) => b,
        None => return None,
    };
    let mut i: usize = 0;
    while i < bytes.len()
        invariant
            header_bytes(header_value) == Some(bytes@),
            0 <= i <= bytes@.len(),
            forall|k: int| 0 <= k < i ==> visible_ascii(#[trigger] bytes@[k]),
        decreases bytes@.len() - i,
    {
        let b = bytes[i];
        if !((32 <= b && b < 127) || b == 9) {
            assert(!visible_ascii(bytes@[i as int]));
            return None;
        }
        i = i + 1;
    }
    if bytes.len() <= 7 {
        return None;
    }
    let prefix: [u8; 7] = [66, 101, 97, 114, 101, 114, 32];
    let mut k: usize = 0;
    while k < 7
        invariant
            header_bytes(header_value) == Some(bytes@),
            forall|x: int| 0 <= x < bytes@.len() ==> visible_ascii(#[trigger] bytes@[x]),
            0 <= k <= 7,
            bytes@.len() > 7,
            prefix@ == bearer_prefix(),
            forall|j: int| 0 <= j < k ==> bytes@[j] == prefix@[j],
        decreases 7 - k,
    {
        if bytes[k] != prefix[k] {
            assert(bytes@.take(7)[k as int] != bearer_prefix()[k as int]);
            assert(bytes@.take(7) != bearer_prefix());
            return None;
        }
        k = k + 1;
    }
    assert(bytes@.take(7) == bearer_prefix());
    let mut token: Vec<char> = Vec::new();
    let mut j: usize = 7;
    while j < bytes.len()
        invariant
            header_bytes(header_value) == Some(bytes@),
            forall|x: int| 0 <= x < bytes@.len() ==> visible_ascii(#[trigger] bytes@[x]),
            bytes@.take(7) == bearer_prefix(),
            7 <= j <= bytes@.len(),
            token@ == bytes@.subrange(7, j as int).map_values(|b: u8| b as char),
        decreases bytes@.len() - j,
    {
        let c = bytes[j] as char;
        token.push(c);
        proof {
            assert(bytes@.subrange(7, j + 1).map_values(|b: u8| b as char) == bytes@.subrange(
                7,
                j as int,
            ).map_values(|b: u8| b as char).push(c));
        }
        j = j + 1;
    }
    assert(bytes@.subrange(7, bytes@.len() as int) == bytes@.skip(7));
    Some(string_from_chars(&token))
}

/// The answer of the authentication step for a request: without a bearer
/// token it is refused as "Missing Authorization header"; with a token that
/// failed validation as "Invalid or expired access token"; otherwise the
/// request is made by the user the token's claims name.
pub fn authenticate(token_present: bool, validated: Result<AccessClaims, AppError>) -> (r: Result<
    AuthenticatedUser,
    &'static str,
>)
    ensures
        !token_present ==> (r matches Err(m) && m@ == "Missing Authorization header"@),
        token_present ==> match validated {
            Ok(c) => r == Ok::<AuthenticatedUser, &'static str>(AuthenticatedUser { user_id: c.sub }),
            Err(_) => r matches Err(m) && m@ == "Invalid or expired access token"@,
        },
{
    if !token_present {
        return Err("Missing Authorization header");
    }
    match validated {
        Ok(c) => Ok(AuthenticatedUser { user_id: c.sub }),
        Err(_) => Err("Invalid or expired access token"),
    }
}

} // verus!
