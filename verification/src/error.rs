//! The error type shared by every part of the service, how each error is
//! answered over HTTP, and how failures of outside services become errors.
use vstd::prelude::*;
use crate::text::{self, chars_of, parse_u64, push_decimal, push_str, string_from_chars, trim_chars};

verus! {

/// Every error the service can answer with.
#[derive(Debug)]
pub enum AppError {
    Unauthorized(String),
    Forbidden(String),
    NotFound(String),
    BadRequest(String),
    UnprocessableEntity(String),
    InternalServerError(String),
    RateLimitError { message: String, retry_after_minutes: u32 },
}

/// The parts of the HTTP answer to an error: the status code, and the JSON
/// body `{ "error": .., "message": .., "retry_after_minutes": .. }` where the
/// last field is present only for rate-limit errors.
pub struct ErrorResponse {
    pub status: u16,
    pub error: String,
    pub message: String,
    pub retry_after_minutes: Option<u32>,
}

/// The classes of token failure that the service tells apart.
#[derive(PartialEq, Eq, Structural, Clone, Copy, Debug)]
pub enum TokenErrorKind {
    ExpiredSignature,
    InvalidToken,
    InvalidSignature,
    InvalidAlgorithmName,
    Other,
}

impl AppError {
    /// The HTTP status code of the answer.
    pub open spec fn spec_status(&self) -> u16 {
        match self {
            AppError::Unauthorized(_) => 401,
            AppError::Forbidden(_) => 403,
            AppError::NotFound(_) => 404,
            AppError::BadRequest(_) => 400,
            AppError::UnprocessableEntity(_) => 422,
            AppError::InternalServerError(_) => 500,
            AppError::RateLimitError { .. } => 429,
        }
    }

    /// The `error` field of the answer's body.
    pub open spec fn spec_code(&self) -> Seq<char> {
        match self {
            AppError::Unauthorized(_) => "unauthorized"@,
            AppError::Forbidden(_) => "forbidden"@,
            AppError::NotFound(_) => "not_found"@,
            AppError::BadRequest(_) => "bad_request"@,
            AppError::UnprocessableEntity(_) => "unprocessable_entity"@,
            AppError::InternalServerError(_) => "internal_server_error"@,
            AppError::RateLimitError { .. } => "rate_limit"@,
        }
    }

    /// The message the error carries.
    pub open spec fn spec_message(&self) -> Seq<char> {
        match self {
            AppError::Unauthorized(m) => m@,
            AppError::Forbidden(m) => m@,
            AppError::NotFound(m) => m@,
            AppError::BadRequest(m) => m@,
            AppError::UnprocessableEntity(m) => m@,
            AppError::InternalServerError(m) => m@,
            AppError::RateLimitError { message, .. } => message@,
        }
    }

    /// The text of the error as the service displays it.
    pub open spec fn spec_display(&self) -> Seq<char> {
        match self {
            AppError::Unauthorized(m) => "Unauthorized: "@ + m@,
            AppError::Forbidden(m) => "Forbidden: "@ + m@,
            AppError::NotFound(m) => "Not found: "@ + m@,
            AppError::BadRequest(m) => "Bad request: "@ + m@,
            AppError::UnprocessableEntity(m) => "Unprocessable entity: "@ + m@,
            AppError::InternalServerError(m) => "Internal server error: "@ + m@,
            AppError::RateLimitError { message, retry_after_minutes } => "Rate limit exceeded from "@
                + message@ + ", retry after "@ + text::decimal(*retry_after_minutes as nat)
                + " minutes"@,
        }
    }

    /// Whether this is a rate-limit error.
    pub fn is_rate_limit(&self) -> (r: bool)
        ensures
            r == (self is RateLimitError),
    {
        match self {
            AppError::RateLimitError { .. } => true,
            _ => false,
        }
    }

    /// A copy of this error.
    pub fn duplicate(&self) -> (r: AppError)
        ensures
            r.spec_status() == self.spec_status(),
            r.spec_message() == self.spec_message(),
            r.spec_display() == self.spec_display(),
            self is RateLimitError ==> r is RateLimitError && r->retry_after_minutes
                == self->retry_after_minutes,
    {
        match self {
            AppError::Unauthorized(m) => AppError::Unauthorized(m.clone()),
            AppError::Forbidden(m) => AppError::Forbidden(m.clone()),
            AppError::NotFound(m) => AppError::NotFound(m.clone()),
            AppError::BadRequest(m) => AppError::BadRequest(m.clone()),
            AppError::UnprocessableEntity(m) => AppError::UnprocessableEntity(m.clone()),
            AppError::InternalServerError(m) => AppError::InternalServerError(m.clone()),
            AppError::RateLimitError { message, retry_after_minutes } => AppError::RateLimitError {
                message: message.clone(),
                retry_after_minutes: *retry_after_minutes,
            },
        }
    }

    /// The HTTP answer to this error.
    pub fn error_response(&self) -> (r: ErrorResponse)
        ensures
            r.status == self.spec_status(),
            r.error@ == self.spec_code(),
            r.message@ == self.spec_message(),
            r.retry_after_minutes == (match self {
                AppError::RateLimitError { retry_after_minutes, .. } => Some(*retry_after_minutes),
                _ => None,
            }),
    {
        match self {
            AppError::Unauthorized(m) => ErrorResponse {
                status: 401,
                error: String::from_str("unauthorized"),
                message: m.clone(),
                retry_after_minutes: None,
            },
            AppError::Forbidden(m) => ErrorResponse {
                status: 403,
                error: String::from_str("forbidden"),
                message: m.clone(),
                retry_after_minutes: None,
            },
            AppError::NotFound(m) => ErrorResponse {
                status: 404,
                error: String::from_str("not_found"),
                message: m.clone(),
                retry_after_minutes: None,
            },
            AppError::BadRequest(m) => ErrorResponse {
                status: 400,
                error: String::from_str("bad_request"),
                message: m.clone(),
                retry_after_minutes: None,
            },
            AppError::UnprocessableEntity(m) => ErrorResponse {
                status: 422,
                error: String::from_str("unprocessable_entity"),
                message: m.clone(),
                retry_after_minutes: None,
            },
            AppError::InternalServerError(m) => ErrorResponse {
                status: 500,
                error: String::from_str("internal_server_error"),
                message: m.clone(),
                retry_after_minutes: None,
            },
            AppError::RateLimitError { message, retry_after_minutes } => ErrorResponse {
                status: 429,
                error: String::from_str("rate_limit"),
                message: message.clone(),
                retry_after_minutes: Some(*retry_after_minutes),
            },
        }
    }

    /// The error as the service displays it, e.g. `Not found: Record not found`.
    pub fn to_string(&self) -> (r: String)
        ensures
            r@ == self.spec_display(),
    {
        let mut buf: Vec<char> = Vec::new();
        match self {
            AppError::Unauthorized(m) => {
                push_str(&mut buf, "Unauthorized: ");
                push_str(&mut buf, m.as_str());
            },
            AppError::Forbidden(m) => {
                push_str(&mut buf, "Forbidden: ");
                push_str(&mut buf, m.as_str());
            },
            AppError::NotFound(m) => {
                push_str(&mut buf, "Not found: ");
                push_str(&mut buf, m.as_str());
            },
            AppError::BadRequest(m) => {
                push_str(&mut buf, "Bad request: ");
                push_str(&mut buf, m.as_str());
            },
            AppError::UnprocessableEntity(m) => {
                push_str(&mut buf, "Unprocessable entity: ");
                push_str(&mut buf, m.as_str());
            },
            AppError::InternalServerError(m) => {
                push_str(&mut buf, "Internal server error: ");
                push_str(&mut buf, m.as_str());
            },
            AppError::RateLimitError { message, retry_after_minutes } => {
                push_str(&mut buf, "Rate limit exceeded from ");
                push_str(&mut buf, message.as_str());
                push_str(&mut buf, ", retry after ");
                push_decimal(&mut buf, *retry_after_minutes as u64);
                push_str(&mut buf, " minutes");
            },
        }
        string_from_chars(&buf)
    }

    /// The error for a failed database operation: a missing row is
    /// `NotFound("Record not found")`, anything else an internal error that
    /// carries the database's own description `detail`.
    pub fn from_database_error(row_not_found: bool, detail: &str) -> (r: AppError)
        ensures
            row_not_found ==> r is NotFound && r.spec_message() == "Record not found"@,
            !row_not_found ==> r is InternalServerError && r.spec_message() == "Database error: "@
                + detail@,
    {
        if row_not_found {
            AppError::NotFound(String::from_str("Record not found"))
        } else {
            AppError::InternalServerError(prefixed("Database error: ", detail))
        }
    }

    /// The error for a request body that is not valid JSON.
    pub fn from_json_payload_error(detail: &str) -> (r: AppError)
        ensures
            r is BadRequest && r.spec_message() == "Invalid JSON payload: "@ + detail@,
    {
        AppError::BadRequest(prefixed("Invalid JSON payload: ", detail))
    }

    /// The error for a failed outgoing HTTP request.
    pub fn from_http_client_error(detail: &str) -> (r: AppError)
        ensures
            r is InternalServerError && r.spec_message() == "HTTP client error: "@ + detail@,
    {
        AppError::InternalServerError(prefixed("HTTP client error: ", detail))
    }

    /// The error for a failed JSON (de)serialization.
    pub fn from_json_error(detail: &str) -> (r: AppError)
        ensures
            r is InternalServerError && r.spec_message() == "JSON serialization error: "@
                + detail@,
    {
        AppError::InternalServerError(prefixed("JSON serialization error: ", detail))
    }

    /// The error for a failed password hash operation.
    pub fn from_bcrypt_error(detail: &str) -> (r: AppError)
        ensures
            r is InternalServerError && r.spec_message() == "Password hashing error: "@ + detail@,
    {
        AppError::InternalServerError(prefixed("Password hashing error: ", detail))
    }

    /// The error for a token that could not be used: always `Unauthorized`,
    /// with a message chosen by the kind of failure.
    pub fn from_token_error(kind: TokenErrorKind, detail: &str) -> (r: AppError)
        ensures
            r is Unauthorized,
            kind == TokenErrorKind::ExpiredSignature ==> r.spec_message() == "Token has expired"@,
            (kind == TokenErrorKind::InvalidToken || kind == TokenErrorKind::InvalidSignature
                || kind == TokenErrorKind::InvalidAlgorithmName) ==> r.spec_message()
                == "Invalid token"@,
            kind == TokenErrorKind::Other ==> r.spec_message() == "Token error: "@ + detail@,
    {
        match kind {
            TokenErrorKind::ExpiredSignature => AppError::Unauthorized(
                String::from_str("Token has expired"),
            ),
            TokenErrorKind::InvalidToken
            | TokenErrorKind::InvalidSignature
            | TokenErrorKind::InvalidAlgorithmName => AppError::Unauthorized(
                String::from_str("Invalid token"),
            ),
            TokenErrorKind::Other => AppError::Unauthorized(prefixed("Token error: ", detail)),
        }
    }
}

/// `prefix` followed by `rest`.
pub fn prefixed(prefix: &str, rest: &str) -> (r: String)
    ensures
        r@ == prefix@ + rest@,
{
    let mut buf: Vec<char> = Vec::new();
    push_str(&mut buf, prefix);
    push_str(&mut buf, rest);
    string_from_chars(&buf)
}

/// How a failed check of a request field is reported: the field's name,
/// `: ` and the message.
pub open spec fn field_error(field: Seq<char>, message: Seq<char>) -> Seq<char> {
    field + ": "@ + message
}

/// The messages of the failed field checks, one line each, in the order
/// of the fields; `checks` holds, per field, whether it passed, its name
/// and its message.
pub open spec fn field_errors(checks: Seq<(bool, Seq<char>, Seq<char>)>) -> Seq<char>
    decreases checks.len(),
{
    if checks.len() == 0 {
        Seq::empty()
    } else {
        let prev = field_errors(checks.drop_last());
        let c = checks.last();
        if c.0 {
            prev
        } else if prev.len() == 0 {
            field_error(c.1, c.2)
        } else {
            prev + "\n"@ + field_error(c.1, c.2)
        }
    }
}

/// The view of field checks.
pub open spec fn checks_view(checks: Seq<(bool, &str, &str)>) -> Seq<(bool, Seq<char>, Seq<char>)> {
    checks.map_values(|c: (bool, &str, &str)| (c.0, c.1@, c.2@))
}

/// The outcome of checking a request's fields: `Ok` when every check
/// passed, else an unprocessable-entity error listing the failed ones.
pub fn validation_result(checks: &Vec<(bool, &str, &str)>) -> (r: Result<(), AppError>)
    requires
        forall|i: int| 0 <= i < checks@.len() ==> (#[trigger] checks@[i]).1@.len() > 0,
    ensures
        (forall|i: int| 0 <= i < checks@.len() ==> (#[trigger] checks@[i]).0) ==> r is Ok,
        !(forall|i: int| 0 <= i < checks@.len() ==> (#[trigger] checks@[i]).0) ==> (r matches Err(
            AppError::UnprocessableEntity(m),
        ) && m@ == field_errors(checks_view(checks@))),
{
    let mut buf: Vec<char> = Vec::new();
    let mut all_ok = true;
    let mut i: usize = 0;
    while i < checks.len()
        invariant
            0 <= i <= checks@.len(),
            forall|k: int| 0 <= k < checks@.len() ==> (#[trigger] checks@[k]).1@.len() > 0,
            buf@ == field_errors(checks_view(checks@.take(i as int))),
            all_ok == (forall|k: int| 0 <= k < i ==> (#[trigger] checks@[k]).0),
            all_ok == (buf@.len() == 0),
        decreases checks@.len() - i,
    {
        let c = checks[i];
        proof {
            assert(checks_view(checks@.take(i + 1)).drop_last() == checks_view(checks@.take(i as int)));
            assert(checks_view(checks@.take(i + 1)).last() == (c.0, c.1@, c.2@));
        }
        if !c.0 {
            if !all_ok {
                push_str(&mut buf, "\n");
            }
            push_str(&mut buf, c.1);
            push_str(&mut buf, ": ");
            push_str(&mut buf, c.2);
            all_ok = false;
        }
        i = i + 1;
    }
    assert(checks@.take(checks@.len() as int) == checks@);
    if all_ok {
        Ok(())
    } else {
        Err(AppError::UnprocessableEntity(string_from_chars(&buf)))
    }
}

/// The outcome of checking a request with two fields, each of which passed
/// or failed with its message.
pub fn check_two_fields(ok1: bool, f1: &str, m1: &str, ok2: bool, f2: &str, m2: &str) -> (r:
    Result<(), AppError>)
    requires
        f1@.len() > 0,
        f2@.len() > 0,
    ensures
        (ok1 && ok2) ==> r is Ok,
        !(ok1 && ok2) ==> (r matches Err(AppError::UnprocessableEntity(m)) && m@ == field_errors(
            seq![(ok1, f1@, m1@), (ok2, f2@, m2@)],
        )),
{
    let checks: Vec<(bool, &str, &str)> = vec![(ok1, f1, m1), (ok2, f2, m2)];
    proof {
        assert(checks_view(checks@) =~= seq![(ok1, f1@, m1@), (ok2, f2@, m2@)]);
    }
    validation_result(&checks)
}

/// The outcome of checking a request with one field.
pub fn check_one_field(ok: bool, f: &str, m: &str) -> (r: Result<(), AppError>)
    requires
        f@.len() > 0,
    ensures
        ok ==> r is Ok,
        !ok ==> (r matches Err(AppError::UnprocessableEntity(msg)) && msg@ == field_error(f@, m@)),
{
    let checks: Vec<(bool, &str, &str)> = vec![(ok, f, m)];
    proof {
        let v = checks_view(checks@);
        assert(v =~= seq![(ok, f@, m@)]);
        assert(v.drop_last() =~= Seq::empty());
        assert(field_errors(v.drop_last()) == Seq::<char>::empty());
    }
    validation_result(&checks)
}

/// The number of whole minutes to wait, rounded up, for a `Retry-After`
/// value given in seconds.
pub open spec fn minutes_rounded_up(seconds: int) -> u32 {
    ((seconds + 59) / 60) as u32
}

/// Waiting the rounded-up minutes covers the seconds asked for, and by
/// less than one minute more (while the minutes fit in a `u32`).
pub proof fn law_retry_wait_covers(seconds: int)
    requires
        0 <= seconds,
        (seconds + 59) / 60 <= u32::MAX,
    ensures
        seconds <= minutes_rounded_up(seconds) * 60 < seconds + 60,
{
    assert(seconds <= ((seconds + 59) / 60) * 60 < seconds + 60) by (nonlinear_arith)
        requires
            0 <= seconds,
    ;
}

/// The seconds a `Retry-After` header gives, after trimming whitespace.
pub open spec fn retry_after_seconds(header: Option<Seq<char>>) -> Option<int> {
    match header {
        Some(h) => text::parse_unsigned(text::trim(h), u64::MAX as int),
        None => None,
    }
}

/// Parses a `Retry-After` header value (in seconds) into whole minutes,
/// rounded up. Falls back to `default_minutes` if the header is absent or
/// unparseable.
pub fn parse_retry_after_minutes(retry_after_header: Option<&str>, default_minutes: u32) -> (r: u32)
    requires
        retry_after_header matches Some(h) ==> (retry_after_seconds(Some(h@)) matches Some(s)
            ==> s + 59 <= u64::MAX),
    ensures
        r == (match retry_after_header {
            Some(h) => match retry_after_seconds(Some(h@)) {
                Some(s) => minutes_rounded_up(s),
                None => default_minutes,
            },
            None => default_minutes,
        }),
{
    match retry_after_header {
        None => default_minutes,
        Some(h) => {
            let v = chars_of(h);
            let t = trim_chars(&v);
            let ts = string_from_chars(&t);
            match parse_u64(ts.as_str()) {
                Some(seconds) => ((seconds + 59) / 60) as u32,
                None => default_minutes,
            }
        },
    }
}

} // verus!
