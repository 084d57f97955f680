//! The Jina Reader client's rules: its request window, how it reads the
//! reader's answers, and how it recognises pages that are not content.
//!
//! Times are nanoseconds on a monotonic clock, read by the caller.
use vstd::prelude::*;
use std::collections::VecDeque;
use crate::error::{self, AppError};
use crate::services::rate_window::{self, elapsed_exec, evict, Stamped, WINDOW_NS};
use crate::text::{
    self, chars_of, contains_str, find_char, next_line, parse_u64, push_str, starts_with_str,
    string_from_chars, to_lowercase, trim_chars,
};

verus! {

pub const JINA_READER_BASE_URL: &'static str = "https://r.jina.ai/";

/// Requests allowed in any 60-second window.
pub const JINA_RATE_LIMIT_PER_MINUTES: u32 = 500;

/// Minutes to wait after a 429 without a usable `Retry-After`.
pub const JINA_RATE_LIMIT_DEFAULT_WAIT_MINUTES: u32 = 5;

/// The margin added to every computed wait: one millisecond.
pub const WAIT_MARGIN_NS: u64 = 1_000_000;

impl Stamped for u64 {
    open spec fn stamp(&self) -> u64 {
        *self
    }

    open spec fn ident(&self) -> u64 {
        *self
    }

    fn get_stamp(&self) -> (r: u64) {
        *self
    }

    fn get_ident(&self) -> (r: u64) {
        *self
    }
}

/// The times of the most recent requests (oldest first).
pub struct JinaRequestWindow {
    times: VecDeque<u64>,
}

impl View for JinaRequestWindow {
    type V = Seq<u64>;

    closed spec fn view(&self) -> Seq<u64> {
        self.times@
    }
}

/// One request for a slot at `now` on the window `w`: the window after it,
/// and whether the slot was granted.
pub open spec fn acquire_outcome(w: Seq<u64>, limit: int, now: u64) -> (Seq<u64>, bool) {
    let ev = rate_window::evicted(w, now);
    if ev.len() < limit {
        (ev.push(now), true)
    } else {
        (ev, false)
    }
}

/// Requests for slots at the times `nows`, in order, from an empty window:
/// the window after them, and the times at which slots were granted.
pub open spec fn acquire_run(limit: int, nows: Seq<u64>) -> (Seq<u64>, Seq<u64>)
    decreases nows.len(),
{
    if nows.len() == 0 {
        (Seq::empty(), Seq::empty())
    } else {
        let prev = acquire_run(limit, nows.drop_last());
        let step = acquire_outcome(prev.0, limit, nows.last());
        (step.0, if step.1 { prev.1.push(nows.last()) } else { prev.1 })
    }
}

/// The times never go back.
pub open spec fn nondecreasing(nows: Seq<u64>) -> bool {
    forall|i: int, j: int| 0 <= i <= j < nows.len() ==> nows[i] <= nows[j]
}

impl JinaRequestWindow {
    pub fn new() -> (r: Self)
        ensures
            r@ == Seq::<u64>::empty(),
    {
        JinaRequestWindow { times: VecDeque::new() }
    }

    /// Takes a slot in the window if one is free at `now` (`None`), or tells
    /// how long to wait before asking again: until the oldest request leaves
    /// the window, plus one millisecond.
    pub fn try_acquire(&mut self, limit: usize, now: u64) -> (r: Option<u64>)
        requires
            limit > 0,
        ensures
            ({
                let ev = rate_window::evicted(old(self)@, now);
                if ev.len() < limit {
                    r is None && final(self)@ == ev.push(now)
                } else {
                    &&& final(self)@ == ev
                    &&& r == Some(
                        ((if rate_window::elapsed(ev[0], now) <= WINDOW_NS {
                            WINDOW_NS - rate_window::elapsed(ev[0], now)
                        } else {
                            0
                        }) + WAIT_MARGIN_NS) as u64,
                    )
                }
            }),
            (final(self)@, r is None) == acquire_outcome(old(self)@, limit as int, now),
            final(self)@.len() <= limit || final(self)@ == rate_window::evicted(old(self)@, now),
            old(self)@.len() <= limit ==> final(self)@.len() <= limit,
    {
        proof {
            rate_window::lemma_leading_expired_bound(self.times@, now);
        }
        evict(&mut self.times, now);
        if self.times.len() < limit {
            self.times.push_back(now);
            return None;
        }
        let oldest = self.times[0];
        let e = elapsed_exec(oldest, now);
        let rest = if e <= WINDOW_NS {
            WINDOW_NS - e
        } else {
            0
        };
        Some(rest + WAIT_MARGIN_NS)
    }
}

/// The window holds the grants not yet counted out: those before index `k`
/// have all left the window by the last request.
proof fn lemma_acquire_run(limit: int, nows: Seq<u64>) -> (k: int)
    requires
        limit > 0,
        nondecreasing(nows),
    ensures
        0 <= k <= acquire_run(limit, nows).1.len(),
        acquire_run(limit, nows).0 == acquire_run(limit, nows).1.skip(k),
        nows.len() > 0 ==> forall|i: int|
            0 <= i < k ==> rate_window::expired(#[trigger] acquire_run(limit, nows).1[i], nows.last()),
        forall|i: int|
            0 <= i && i + limit < acquire_run(limit, nows).1.len() ==> rate_window::elapsed(
                #[trigger] acquire_run(limit, nows).1[i],
                acquire_run(limit, nows).1[i + limit],
            ) >= WINDOW_NS,
    decreases nows.len(),
{
    if nows.len() == 0 {
        0
    } else {
        let prev_nows = nows.drop_last();
        assert(nondecreasing(prev_nows)) by {
            assert forall|i: int, j: int| 0 <= i <= j < prev_nows.len() implies prev_nows[i]
                <= prev_nows[j] by {
                assert(prev_nows[i] == nows[i] && prev_nows[j] == nows[j]);
            }
        }
        let k0 = lemma_acquire_run(limit, prev_nows);
        let w = acquire_run(limit, prev_nows).0;
        let g = acquire_run(limit, prev_nows).1;
        let now = nows.last();
        let m = rate_window::leading_expired(w, now) as int;
        rate_window::lemma_leading_expired_bound(w, now);
        rate_window::lemma_leading_all_expired(w, now);
        let k1 = k0 + m;
        assert forall|i: int| 0 <= i < k1 implies rate_window::expired(#[trigger] g[i], now) by {
            if i < k0 {
                assert(prev_nows.len() > 0);
                assert(prev_nows.last() == nows[nows.len() - 2]);
                assert(prev_nows.last() <= now);
            } else {
                assert(g[i] == w[i - k0]);
                assert(rate_window::expired(w[i - k0].stamp(), now));
            }
        }
        let ev = rate_window::evicted(w, now);
        assert(ev =~= g.skip(k1));
        if ev.len() < limit {
            let g2 = g.push(now);
            assert(acquire_run(limit, nows).1 == g2);
            assert(acquire_run(limit, nows).0 == ev.push(now));
            assert(ev.push(now) =~= g2.skip(k1));
            assert forall|i: int| 0 <= i < k1 implies rate_window::expired(#[trigger] g2[i], now) by {
                assert(g2[i] == g[i]);
            }
            assert forall|i: int| 0 <= i && i + limit < g2.len() implies rate_window::elapsed(
                #[trigger] g2[i],
                g2[i + limit],
            ) >= WINDOW_NS by {
                if i + limit < g.len() {
                    assert(g2[i] == g[i] && g2[i + limit] == g[i + limit]);
                } else {
                    assert(i < k1);
                    assert(g2[i] == g[i]);
                    assert(rate_window::expired(g[i], now));
                }
            }
        } else {
            assert(acquire_run(limit, nows).1 == g);
        }
        k1
    }
}

/// Over any run of requests at times that never go back, from an empty
/// window with room for `limit` (500 for the page reader), the
/// `limit + 1`-th slot granted after any granted slot comes at least a
/// minute after it: no 60-second span holds more than `limit` grants.
pub proof fn law_at_most_limit_per_minute(limit: int, nows: Seq<u64>)
    requires
        limit > 0,
        nondecreasing(nows),
    ensures
        forall|i: int|
            0 <= i && i + limit < acquire_run(limit, nows).1.len() ==> rate_window::elapsed(
                #[trigger] acquire_run(limit, nows).1[i],
                acquire_run(limit, nows).1[i + limit],
            ) >= WINDOW_NS,
{
    lemma_acquire_run(limit, nows);
}

/// Whole minutes in a `Retry-After` value of `seconds`, rounded up and at
/// least one.
pub open spec fn jina_wait_minutes(seconds: int) -> u32 {
    let m = (seconds + 59) / 60;
    (if m < 1 {
        1
    } else {
        m
    }) as u32
}

/// Minutes to wait after a 429 from the reader: from the `Retry-After`
/// header (seconds, surrounding whitespace ignored), rounded up and at least
/// one, or five when the header is missing or not a number.
pub fn parse_retry_after_minutes(retry_after_header: Option<&str>) -> (r: u32)
    requires
        retry_after_header matches Some(h) ==> (error::retry_after_seconds(Some(h@)) matches Some(
            s,
        ) ==> s + 59 <= u64::MAX),
    ensures
        r == (match retry_after_header {
            Some(h) => match error::retry_after_seconds(Some(h@)) {
                Some(s) => jina_wait_minutes(s),
                None => JINA_RATE_LIMIT_DEFAULT_WAIT_MINUTES,
            },
            None => JINA_RATE_LIMIT_DEFAULT_WAIT_MINUTES,
        }),
{
    match retry_after_header {
        None => JINA_RATE_LIMIT_DEFAULT_WAIT_MINUTES,
        Some(h) => {
            let v = chars_of(h);
            let t = trim_chars(&v);
            let ts = string_from_chars(&t);
            match parse_u64(ts.as_str()) {
                Some(seconds) => {
                    let m = (seconds + 59) / 60;
                    let m = if m < 1 {
                        1
                    } else {
                        m
                    };
                    m as u32
                },
                None => JINA_RATE_LIMIT_DEFAULT_WAIT_MINUTES,
            }
        },
    }
}

/// The reader's address for the page at `url`.
pub fn reader_url(url: &str) -> (r: String)
    ensures
        r@ == JINA_READER_BASE_URL@ + url@,
{
    error::prefixed(JINA_READER_BASE_URL, url)
}

/// Titles of anti-bot and error pages, lowercased.
pub open spec fn bad_title(lower: Seq<char>) -> bool {
    ||| text::contains_seq(lower, "title: just a moment..."@)
    ||| text::contains_seq(lower, "title: attention required!"@)
    ||| text::contains_seq(lower, "title: access denied"@)
    ||| text::contains_seq(lower, "title: 403 forbidden"@)
    ||| text::contains_seq(lower, "title: 404 not found"@)
    ||| text::contains_seq(lower, "title: are you a robot?"@)
    ||| text::contains_seq(lower, "title: robot check"@)
}

/// Phrases of anti-bot interstitials, lowercased.
pub open spec fn bot_signature(lower: Seq<char>) -> bool {
    ||| text::contains_seq(lower, "enable javascript and cookies to continue"@)
    ||| text::contains_seq(lower, "checking your browser before accessing"@)
    ||| text::contains_seq(lower, "please verify you are a human"@)
    ||| text::contains_seq(lower, "cf-browser-verification"@)
    ||| text::contains_seq(lower, "why have i been blocked?"@)
    ||| text::contains_seq(lower, "please enable js and disable any ad blocker"@)
}

/// A page is not content when its lowercased text has the title of an
/// anti-bot or error page, or, being shorter than 2500 bytes, an anti-bot
/// phrase.
pub open spec fn garbage(byte_len: nat, lower: Seq<char>) -> bool {
    bad_title(lower) || (byte_len < 2500 && bot_signature(lower))
}

/// Which pages are refused as not content: every page whose lowercased text
/// carries one of the seven titles of error and anti-bot pages, whatever its
/// length; every page under 2500 bytes that carries one of the six anti-bot
/// phrases; and no other page.
pub proof fn law_error_pages_are_garbage(byte_len: nat, lower: Seq<char>)
    ensures
        text::contains_seq(lower, "title: just a moment..."@) ==> garbage(byte_len, lower),
        text::contains_seq(lower, "title: attention required!"@) ==> garbage(byte_len, lower),
        text::contains_seq(lower, "title: access denied"@) ==> garbage(byte_len, lower),
        text::contains_seq(lower, "title: 403 forbidden"@) ==> garbage(byte_len, lower),
        text::contains_seq(lower, "title: 404 not found"@) ==> garbage(byte_len, lower),
        text::contains_seq(lower, "title: are you a robot?"@) ==> garbage(byte_len, lower),
        text::contains_seq(lower, "title: robot check"@) ==> garbage(byte_len, lower),
        byte_len < 2500 ==> {
            &&& text::contains_seq(lower, "enable javascript and cookies to continue"@) ==> garbage(byte_len, lower)
            &&& text::contains_seq(lower, "checking your browser before accessing"@) ==> garbage(byte_len, lower)
            &&& text::contains_seq(lower, "please verify you are a human"@) ==> garbage(byte_len, lower)
            &&& text::contains_seq(lower, "cf-browser-verification"@) ==> garbage(byte_len, lower)
            &&& text::contains_seq(lower, "why have i been blocked?"@) ==> garbage(byte_len, lower)
            &&& text::contains_seq(lower, "please enable js and disable any ad blocker"@) ==> garbage(byte_len, lower)
        },
        garbage(byte_len, lower) ==> {
            ||| text::contains_seq(lower, "title: just a moment..."@)
            ||| text::contains_seq(lower, "title: attention required!"@)
            ||| text::contains_seq(lower, "title: access denied"@)
            ||| text::contains_seq(lower, "title: 403 forbidden"@)
            ||| text::contains_seq(lower, "title: 404 not found"@)
            ||| text::contains_seq(lower, "title: are you a robot?"@)
            ||| text::contains_seq(lower, "title: robot check"@)
            ||| byte_len < 2500 && {
                ||| text::contains_seq(lower, "enable javascript and cookies to continue"@)
                ||| text::contains_seq(lower, "checking your browser before accessing"@)
                ||| text::contains_seq(lower, "please verify you are a human"@)
                ||| text::contains_seq(lower, "cf-browser-verification"@)
                ||| text::contains_seq(lower, "why have i been blocked?"@)
                ||| text::contains_seq(lower, "please enable js and disable any ad blocker"@)
            }
        },
{
}

/// Decides `garbage` for a page of `byte_len` bytes whose lowercased text is
/// `lower`.
pub fn is_garbage_lowered(byte_len: usize, lower: &str) -> (r: bool)
    ensures
        r == garbage(byte_len as nat, lower@),
{
    let v = chars_of(lower);
    let titled = contains_str(&v, "title: just a moment...") || contains_str(
        &v,
        "title: attention required!",
    ) || contains_str(&v, "title: access denied") || contains_str(&v, "title: 403 forbidden")
        || contains_str(&v, "title: 404 not found") || contains_str(&v, "title: are you a robot?")
        || contains_str(&v, "title: robot check");
    if titled {
        return true;
    }
    byte_len < 2500 && (contains_str(&v, "enable javascript and cookies to continue")
        || contains_str(&v, "checking your browser before accessing") || contains_str(
        &v,
        "please verify you are a human",
    ) || contains_str(&v, "cf-browser-verification") || contains_str(
        &v,
        "why have i been blocked?",
    ) || contains_str(&v, "please enable js and disable any ad blocker"))
}

/// Whether the reader returned an anti-bot or error page instead of content.
pub fn is_garbage_content(text: &str) -> (r: bool)
    requires
        text::utf8_len(text@) <= usize::MAX,
    ensures
        r == garbage(text::utf8_len(text@), text::lowercase(text@)),
{
    let lower = to_lowercase(text);
    is_garbage_lowered(text.len(), lower.as_str())
}

/// The address after the first `:` of a `URL Source:` line, trimmed, when it
/// begins with `http`.
pub open spec fn url_after_colon_spec(line: Seq<char>) -> Option<Seq<char>> {
    let p = text::find_char_from(line, ':', 0);
    if p < line.len() {
        let rest = text::trim(line.subrange(p + 1, line.len() as int));
        if text::has_prefix(rest, "http"@) {
            Some(rest)
        } else {
            None
        }
    } else {
        None
    }
}

/// The source address announced by the first of `ls` whose lowercased text
/// begins with `url source:`.
pub open spec fn url_source_in(ls: Seq<Seq<char>>) -> Option<Seq<char>>
    decreases ls.len(),
{
    if ls.len() == 0 {
        None
    } else if text::has_prefix(text::lowercase(ls[0]), "url source:"@) {
        url_after_colon_spec(ls[0])
    } else {
        url_source_in(ls.drop_first())
    }
}

/// Whether a lowercased line announces the source address.
pub fn is_url_source_line(lowered: &str) -> (r: bool)
    ensures
        r == text::has_prefix(lowered@, "url source:"@),
{
    let v = chars_of(lowered);
    starts_with_str(&v, "url source:")
}

/// The address that a `URL Source:` line announces.
pub fn url_after_colon(line: &[char]) -> (r: Option<String>)
    ensures
        match r {
            Some(s) => url_after_colon_spec(line@) == Some(s@),
            None => url_after_colon_spec(line@) is None,
        },
{
    let p = find_char(line, ':', 0);
    proof {
        text::lemma_find_char_from_bounds(line@, ':', 0);
    }
    if p < line.len() {
        let after = text::slice_chars(line, p + 1, line.len());
        let rest = trim_chars(&after);
        if starts_with_str(&rest, "http") {
            Some(string_from_chars(&rest))
        } else {
            None
        }
    } else {
        None
    }
}

/// The page's real address as the reader reports it in a `URL Source:`
/// line among the first ten lines.
pub fn extract_url_source(text: &str) -> (r: Option<String>)
    ensures
        match r {
            Some(s) => url_source_in(text::prefix_upto(text::lines(text@), 10)) == Some(s@),
            None => url_source_in(text::prefix_upto(text::lines(text@), 10)) is None,
        },
{
    let v = chars_of(text);
    let mut start: usize = 0;
    let mut count: usize = 0;
    while count < 10 && start < v.len()
        invariant
            start <= v@.len(),
            count <= 10,
            v@ == text@,
            url_source_in(text::prefix_upto(text::lines(v@), 10)) == url_source_in(
                text::prefix_upto(text::lines_from(v@, start as int), 10 - count),
            ),
        decreases v@.len() - start,
    {
        let ghost before = text::lines_from(v@, start as int);
        let (line, next) = next_line(&v, start);
        proof {
            let rest = text::lines_from(v@, next as int);
            let k = 10 - count;
            assert(text::prefix_upto(before, k) =~= seq![line@] + text::prefix_upto(rest, k - 1));
            assert((seq![line@] + text::prefix_upto(rest, k - 1)).drop_first() =~= text::prefix_upto(
                rest,
                k - 1,
            ));
        }
        let line_str = string_from_chars(&line);
        let lowered = to_lowercase(line_str.as_str());
        if is_url_source_line(lowered.as_str()) {
            return url_after_colon(&line);
        }
        start = next;
        count = count + 1;
    }
    proof {
        if count < 10 {
            assert(text::lines_from(v@, start as int) == Seq::<Seq<char>>::empty());
        }
        assert(text::prefix_upto(text::lines_from(v@, start as int), 10 - count)
            =~= Seq::<Seq<char>>::empty());
    }
    None
}

/// A status code in the 2xx range.
pub open spec fn is_success(status: u16) -> bool {
    200 <= status <= 299
}

/// The body as the reader sent it, or empty when it could not be read.
pub open spec fn body_or_empty(body: Result<String, String>) -> Seq<char> {
    match body {
        Ok(b) => b@,
        Err(_) => Seq::empty(),
    }
}

/// What a fetch through the reader gives for an answer with status
/// `status` (displayed as `status_text`), `Retry-After` header
/// `retry_after`, and body `body` (or the error met while reading it).
pub open spec fn fetch_outcome_spec(
    url: Seq<char>,
    status: u16,
    status_text: Seq<char>,
    retry_after: Option<Seq<char>>,
    body: Result<String, String>,
    result: Result<(String, String), AppError>,
) -> bool {
    if status == 429 {
        result matches Err(AppError::RateLimitError { message, retry_after_minutes })
            && message@ == "Jina"@ && retry_after_minutes == (match retry_after {
            Some(h) => match error::retry_after_seconds(Some(h)) {
                Some(s) => jina_wait_minutes(s),
                None => JINA_RATE_LIMIT_DEFAULT_WAIT_MINUTES,
            },
            None => JINA_RATE_LIMIT_DEFAULT_WAIT_MINUTES,
        })
    } else if status == 401 || status == 403 {
        result matches Err(AppError::InternalServerError(m)) && m@
            == "Jina Reader authentication/quota error: "@ + body_or_empty(body)
    } else if status == 400 || status == 404 {
        result matches Err(AppError::InternalServerError(m)) && m@
            == "Invalid target URL or page not found: "@ + body_or_empty(body)
    } else if status == 524 || status == 504 {
        result matches Err(AppError::InternalServerError(m)) && m@
            == "Target website took too long to respond"@
    } else if !is_success(status) {
        result matches Err(AppError::InternalServerError(m)) && m@ == "Jina Reader error "@
            + status_text + ": "@ + body_or_empty(body)
    } else {
        match body {
            Err(e) => result matches Err(AppError::InternalServerError(m)) && m@
                == "Failed to read response: "@ + e@,
            Ok(t) => if text::is_blank(t@) {
                result matches Err(AppError::InternalServerError(m)) && m@ == "Empty content"@
            } else if garbage(text::utf8_len(t@), text::lowercase(t@)) {
                result matches Err(AppError::InternalServerError(m)) && m@
                    == "Target website blocked the scraper (Captcha / Access Denied)"@
            } else {
                result matches Ok((page, real_url)) && page@ == t@ && real_url@ == (
                match url_source_in(text::prefix_upto(text::lines(t@), 10)) {
                    Some(u) => u,
                    None => url,
                })
            },
        }
    }
}

/// How a fetch through the reader ends, given what the reader answered.
pub fn fetch_page_outcome(
    url: &str,
    status: u16,
    status_text: &str,
    retry_after: Option<&str>,
    body: Result<String, String>,
) -> (r: Result<(String, String), AppError>)
    requires
        retry_after matches Some(h) ==> (error::retry_after_seconds(Some(h@)) matches Some(s) ==> s
            + 59 <= u64::MAX),
        body matches Ok(t) ==> text::utf8_len(t@) <= usize::MAX,
    ensures
        fetch_outcome_spec(
            url@,
            status,
            status_text@,
            match retry_after {
                Some(h) => Some(h@),
                None => None,
            },
            body,
            r,
        ),
{
    if status == 429 {
        return Err(
            AppError::RateLimitError {
                message: String::from_str("Jina"),
                retry_after_minutes: parse_retry_after_minutes(retry_after),
            },
        );
    }
    let body_text: String = match &body {
        Ok(b) => b.clone(),
        Err(_) => String::new(),
    };
    if status == 401 || status == 403 {
        return Err(
            AppError::InternalServerError(
                error::prefixed("Jina Reader authentication/quota error: ", body_text.as_str()),
            ),
        );
    }
    if status == 400 || status == 404 {
        return Err(
            AppError::InternalServerError(
                error::prefixed("Invalid target URL or page not found: ", body_text.as_str()),
            ),
        );
    }
    if status == 524 || status == 504 {
        return Err(
            AppError::InternalServerError(
                String::from_str("Target website took too long to respond"),
            ),
        );
    }
    if !(200 <= status && status <= 299) {
        let mut buf: Vec<char> = Vec::new();
        push_str(&mut buf, "Jina Reader error ");
        push_str(&mut buf, status_text);
        push_str(&mut buf, ": ");
        push_str(&mut buf, body_text.as_str());
        return Err(AppError::InternalServerError(string_from_chars(&buf)));
    }
    match body {
        Err(e) => Err(
            AppError::InternalServerError(error::prefixed("Failed to read response: ", e.as_str())),
        ),
        Ok(t) => {
            let v = chars_of(t.as_str());
            let trimmed = trim_chars(&v);
            if trimmed.len() == 0 {
                return Err(AppError::InternalServerError(String::from_str("Empty content")));
            }
            if is_garbage_content(t.as_str()) {
                return Err(
                    AppError::InternalServerError(
                        String::from_str(
                            "Target website blocked the scraper (Captcha / Access Denied)",
                        ),
                    ),
                );
            }
            let real_url = match extract_url_source(t.as_str()) {
                Some(u) => u,
                None => String::from_str(url),
            };
            Ok((t, real_url))
        },
    }
}

} // verus!
