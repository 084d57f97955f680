use backend::db::users::UserRow;
use backend::error::AppError;
use backend::handlers::auth::{
    check_credentials, check_password_init_token, ensure_admin, password_init_link, user_not_found,
    LoginRequest, LogoutRequest, PasswordInitTokenState, RefreshRequest, SetPasswordRequest,
};
use backend::middleware::auth::{authenticate, extract_bearer_token, AuthenticatedUser};
use backend::services::auth::{
    check_refresh_token, decode_refresh_token_claims, ensure_not_revoked, generate_secure_token,
    generate_token_pair, hash_password, new_jti, token_claims, validate_access_token, verify_password,
    AccessClaims, RefreshClaims,
};

fn h(b: &[u8]) -> Option<&[u8]> {
    Some(b)
}

fn unprocessable(r: Result<(), AppError>) -> String {
    match r {
        Err(AppError::UnprocessableEntity(m)) => m,
        _ => panic!("expected unprocessable entity"),
    }
}

#[test]
fn bearer_token_extraction() {
    assert_eq!(extract_bearer_token(h(b"Bearer abc.def")), Some("abc.def".to_string()));
    assert_eq!(extract_bearer_token(h(b"Bearer ")), None);
    assert_eq!(extract_bearer_token(h(b"bearer abc")), None);
    assert_eq!(extract_bearer_token(h(b"Basic abc")), None);
    assert_eq!(extract_bearer_token(h(b"Bearer a\tb")), Some("a\tb".to_string()));
    assert_eq!(extract_bearer_token(h(b"Bearer \xc3\xa9")), None);
    assert_eq!(extract_bearer_token(h(b"Bearer a\x7fb")), None);
    assert_eq!(extract_bearer_token(None), None);
}

#[test]
fn authentication_decisions() {
    assert_eq!(authenticate(false, Err(AppError::Unauthorized("x".into()))), Err("Missing Authorization header"));
    assert_eq!(
        authenticate(true, Err(AppError::Unauthorized("x".into()))),
        Err("Invalid or expired access token")
    );
    let claims = AccessClaims { sub: 12, exp: 100, iat: 1 };
    assert_eq!(authenticate(true, Ok(claims)), Ok(AuthenticatedUser { user_id: 12 }));
}

#[test]
fn passwords_hash_and_verify() {
    let h = hash_password("s3cret").unwrap();
    assert_eq!(h.len(), 60);
    assert!(h.starts_with("$2b$12$"));
    assert!(verify_password("s3cret", &h).unwrap());
    assert!(!verify_password("wrong", &h).unwrap());
    match verify_password("s3cret", "not a hash") {
        Err(AppError::InternalServerError(m)) => assert_eq!(m, "Password verification failed"),
        _ => panic!(),
    }
}

#[test]
fn credentials_are_checked_against_the_stored_hash() {
    let h = hash_password("pw").unwrap();
    let user = || Some(UserRow { id: 4, name: "ann".into(), password: h.clone() });
    assert_eq!(check_credentials(user(), "pw").unwrap(), 4);
    for r in [check_credentials(user(), "nope"), check_credentials(None, "pw")] {
        match r {
            Err(AppError::Unauthorized(m)) => assert_eq!(m, "Invalid login or password"),
            _ => panic!(),
        }
    }
    let broken = Some(UserRow { id: 4, name: "ann".into(), password: "garbage".into() });
    assert!(matches!(check_credentials(broken, "pw"), Err(AppError::Unauthorized(_))));
}

#[test]
fn secure_tokens_are_128_hex_digits() {
    let a = generate_secure_token();
    let b = generate_secure_token();
    assert_eq!(a.len(), 128);
    assert!(a.chars().all(|c| c.is_ascii_hexdigit() && !c.is_ascii_uppercase()));
    assert_ne!(a, b);
}

#[test]
fn refresh_ids_are_hyphenated_uuids() {
    let j = new_jti();
    assert_eq!(j.len(), 36);
    let dashes: Vec<usize> = j.char_indices().filter(|(_, c)| *c == '-').map(|(i, _)| i).collect();
    assert_eq!(dashes, vec![8, 13, 18, 23]);
    assert_eq!(&j[14..15], "4");
    assert!(matches!(&j[19..20], "8" | "9" | "a" | "b"));
}

#[test]
fn token_claims_carry_times() {
    let (a, r) = token_claims(9, 1_000, 900, 2_592_000, "jti-1".into());
    assert_eq!((a.sub, a.iat, a.exp), (9, 1_000, 1_900));
    assert_eq!((r.sub, r.iat, r.exp), (9, 1_000, 2_593_000));
    assert_eq!(r.jti, "jti-1");
}

#[test]
fn revoked_refresh_tokens_are_refused() {
    let claims = || RefreshClaims { sub: 1, exp: 2, iat: 1, jti: "j".into() };
    assert_eq!(ensure_not_revoked(claims(), true).unwrap().jti, "j");
    match ensure_not_revoked(claims(), false) {
        Err(AppError::Unauthorized(m)) => assert_eq!(m, "Refresh token has been revoked"),
        _ => panic!(),
    }
}

#[test]
fn request_bodies_are_validated() {
    assert!(LoginRequest { login: "a".into(), password: "b".into() }.validate().is_ok());
    assert_eq!(
        unprocessable(LoginRequest { login: "".into(), password: "b".into() }.validate()),
        "login: Login must not be empty"
    );
    assert_eq!(
        unprocessable(LoginRequest { login: "".into(), password: "".into() }.validate()),
        "login: Login must not be empty\npassword: Password must not be empty"
    );
    assert_eq!(
        unprocessable(RefreshRequest { refresh_token: "".into() }.validate()),
        "refresh_token: Refresh token must not be empty"
    );
    assert!(LogoutRequest { refresh_token: "t".into() }.validate().is_ok());
    assert_eq!(
        unprocessable(SetPasswordRequest { token: "t".into(), password: "".into() }.validate()),
        "password: Password must be at least 1 characters"
    );
    assert_eq!(
        unprocessable(SetPasswordRequest { token: "".into(), password: "p".into() }.validate()),
        "token: token must not be empty"
    );
}

#[test]
fn only_the_admin_creates_links() {
    assert!(ensure_admin(&AuthenticatedUser { user_id: 1 }, 1).is_ok());
    match ensure_admin(&AuthenticatedUser { user_id: 2 }, 1) {
        Err(AppError::Forbidden(m)) => assert_eq!(m, "Admin access required"),
        _ => panic!(),
    }
    assert!(matches!(user_not_found(42), AppError::NotFound(ref m) if m == "User 42 not found"));
    assert!(matches!(user_not_found(-3), AppError::NotFound(ref m) if m == "User -3 not found"));
    assert_eq!(
        password_init_link("http://localhost:8080", "abc123"),
        "http://localhost:8080/set-password?token=abc123"
    );
}

#[test]
fn password_link_tokens_are_checked_in_order() {
    let state = |used: bool, expires: i128| Some(PasswordInitTokenState { user_id: 8, used, expires_at_nanos: expires });
    assert_eq!(check_password_init_token(state(false, 100), 100).unwrap(), 8);
    let msg = |r: Result<i32, AppError>| match r {
        Err(AppError::BadRequest(m)) => m,
        _ => panic!(),
    };
    assert_eq!(msg(check_password_init_token(None, 0)), "Invalid or unknown token");
    assert_eq!(msg(check_password_init_token(state(true, 0), 100)), "Token has already been used");
    assert_eq!(msg(check_password_init_token(state(false, 99), 100)), "Token has expired");
}

fn now_secs() -> usize {
    std::time::SystemTime::now().duration_since(std::time::UNIX_EPOCH).unwrap().as_secs() as usize
}

fn unauthorized<T>(r: Result<T, AppError>) -> String {
    match r {
        Err(AppError::Unauthorized(m)) => m,
        _ => panic!("expected unauthorized"),
    }
}

#[test]
fn issued_tokens_read_back() {
    let now = now_secs();
    let (pair, jti) = generate_token_pair(7, now, 900, 86_400, b"access-key", b"refresh-key").ok().unwrap();
    assert_eq!(jti.len(), 36);
    let a = validate_access_token(&pair.access_token, b"access-key").ok().unwrap();
    assert_eq!((a.sub, a.exp, a.iat), (7, now + 900, now));
    let r = check_refresh_token(&pair.refresh_token, b"refresh-key").ok().unwrap();
    assert_eq!((r.sub, r.exp, r.iat), (7, now + 86_400, now));
    assert_eq!(r.jti, jti);
    let r = decode_refresh_token_claims(&pair.refresh_token, b"refresh-key").ok().unwrap();
    assert_eq!(r.jti, jti);
}

#[test]
fn token_payload_keeps_the_claim_order() {
    let (pair, _) = generate_token_pair(7, 1000, 1_999_999_000, 10, b"k", b"k").ok().unwrap();
    let payload = pair.access_token.split('.').nth(1).unwrap();
    // {"sub":7,"exp":2000000000,"iat":1000}
    assert_eq!(payload, "eyJzdWIiOjcsImV4cCI6MjAwMDAwMDAwMCwiaWF0IjoxMDAwfQ");
}

#[test]
fn foreign_or_damaged_tokens_are_refused() {
    let now = now_secs();
    let (pair, _) = generate_token_pair(7, now, 900, 900, b"access-key", b"refresh-key").ok().unwrap();
    assert_eq!(unauthorized(validate_access_token(&pair.access_token, b"other")), "Invalid or expired access token");
    assert_eq!(unauthorized(validate_access_token("a.b.c", b"access-key")), "Invalid or expired access token");
    let mut damaged = pair.access_token.clone();
    damaged.push('x');
    assert_eq!(unauthorized(validate_access_token(&damaged, b"access-key")), "Invalid or expired access token");
    assert_eq!(
        unauthorized(check_refresh_token(&pair.refresh_token, b"other")),
        "Invalid or expired refresh token"
    );
    assert_eq!(unauthorized(decode_refresh_token_claims("garbage", b"refresh-key")), "Invalid refresh token");
    // An access token has no jti, so it is not a refresh token.
    let (pair2, _) = generate_token_pair(7, now, 900, 900, b"same", b"same").ok().unwrap();
    assert_eq!(unauthorized(decode_refresh_token_claims(&pair2.access_token, b"same")), "Invalid refresh token");
}

#[test]
fn expired_tokens_fail_the_check_but_still_read_for_logout() {
    let (pair, jti) = generate_token_pair(3, 1000, 10, 10, b"a", b"r").ok().unwrap();
    assert_eq!(unauthorized(validate_access_token(&pair.access_token, b"a")), "Invalid or expired access token");
    assert_eq!(unauthorized(check_refresh_token(&pair.refresh_token, b"r")), "Invalid or expired refresh token");
    let c = decode_refresh_token_claims(&pair.refresh_token, b"r").ok().unwrap();
    assert_eq!((c.sub, c.exp, c.iat), (3, 1010, 1000));
    assert_eq!(c.jti, jti);
}
