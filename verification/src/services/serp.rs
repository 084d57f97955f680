//! The search client's rules: the queries it sends, how it reads the
//! search service's answers, and what it takes from them.
use vstd::prelude::*;
use crate::error::{self, AppError};
use crate::models::barcode_import::BarcodeSearchResult;
use crate::text::{
    self, chars_of, contains, contains_str, is_alphabetic, parse_u64, push_chars, push_str,
    slice_chars, string_from_chars, to_lowercase,
};

verus! {

/// Minutes to wait after a rate limit without a usable `Retry-After`.
pub const SERP_RATE_LIMIT_DEFAULT_WAIT_MINUTES: u32 = 5;

/// Requests per second the client allows itself.
pub const SERP_RATE_LIMIT_PER_SECOND: u32 = 100;

/// A result of an organic search.
#[derive(Debug)]
pub struct OrganicItem {
    pub title: Option<String>,
    pub link: Option<String>,
}

/// A result of an image search.
#[derive(Debug)]
pub struct ImageItem {
    pub image: Option<String>,
    pub original_image: Option<String>,
    pub link: Option<String>,
}

/// The body of a search answer.
#[derive(Debug)]
pub struct BrightResponse {
    pub organic: Vec<OrganicItem>,
    pub images: Vec<ImageItem>,
    pub error: Option<String>,
}

/// The sources found for a recipe query.
pub struct RecipeSourcesResult {
    pub sources: Vec<RecipeSource>,
}

/// A web page that may hold a recipe.
pub struct RecipeSource {
    pub title: String,
    pub link: String,
}

/// The address of an image result: the image, else the original image,
/// else the page it was found on.
pub open spec fn best_url_spec(item: ImageItem) -> Option<Seq<char>> {
    match item.image {
        Some(u) => Some(u@),
        None => match item.original_image {
            Some(u) => Some(u@),
            None => match item.link {
                Some(u) => Some(u@),
                None => None,
            },
        },
    }
}

impl ImageItem {
    /// The best address this image result offers.
    pub fn best_url(&self) -> (r: Option<&str>)
        ensures
            match r {
                Some(s) => best_url_spec(*self) == Some(s@),
                None => best_url_spec(*self) is None,
            },
    {
        match &self.image {
            Some(u) => Some(u.as_str()),
            None => match &self.original_image {
                Some(u) => Some(u.as_str()),
                None => match &self.link {
                    Some(u) => Some(u.as_str()),
                    None => None,
                },
            },
        }
    }
}

/// The `(title, link)` pairs of the organic results that have both.
pub open spec fn sources_of(items: Seq<OrganicItem>) -> Seq<(Seq<char>, Seq<char>)>
    decreases items.len(),
{
    if items.len() == 0 {
        Seq::empty()
    } else {
        let last = items.last();
        let rest = sources_of(items.drop_last());
        match (last.title, last.link) {
            (Some(t), Some(l)) => rest.push((t@, l@)),
            _ => rest,
        }
    }
}

/// The recipe sources among the organic results: those with both a title
/// and a link, in order.
pub fn recipe_sources_from(organic: &Vec<OrganicItem>) -> (r: RecipeSourcesResult)
    ensures
        r.sources@.map_values(|s: RecipeSource| (s.title@, s.link@)) == sources_of(organic@),
{
    let mut sources: Vec<RecipeSource> = Vec::new();
    let mut i: usize = 0;
    while i < organic.len()
        invariant
            0 <= i <= organic@.len(),
            sources@.map_values(|s: RecipeSource| (s.title@, s.link@)) == sources_of(
                organic@.take(i as int),
            ),
        decreases organic@.len() - i,
    {
        let item = &organic[i];
        let ghost before = sources@;
        proof {
            assert(organic@.take(i + 1).drop_last() == organic@.take(i as int));
            assert(organic@.take(i + 1).last() == organic@[i as int]);
        }
        match (&item.title, &item.link) {
            (Some(t), Some(l)) => {
                sources.push(RecipeSource { title: t.clone(), link: l.clone() });
                proof {
                    assert(sources@.map_values(|s: RecipeSource| (s.title@, s.link@)) =~= before.map_values(
                        |s: RecipeSource| (s.title@, s.link@),
                    ).push((t@, l@)));
                }
            },
            _ => {},
        }
        i = i + 1;
    }
    assert(organic@.take(organic@.len() as int) == organic@);
    RecipeSourcesResult { sources }
}

// ---------------------------------------------------------------------------
// Query addresses
// ---------------------------------------------------------------------------
/// The bytes left as they are by percent-encoding: ASCII letters and
/// digits, `-`, `.`, `_` and `~`.
pub open spec fn unreserved(b: u8) -> bool {
    (48 <= b <= 57) || (65 <= b <= 90) || (97 <= b <= 122) || b == 45 || b == 46 || b == 95
        || b == 126
}

pub open spec fn hex_upper_digit(d: u8) -> char {
    if d < 10 {
        ((d + 48) as u8) as char
    } else {
        ((d + 55) as u8) as char
    }
}

/// Percent-encoding of `bytes`: unreserved bytes as themselves, every other
/// byte as `%` and two upper-case hex digits.
pub open spec fn percent_encoded(bytes: Seq<u8>) -> Seq<char>
    decreases bytes.len(),
{
    if bytes.len() == 0 {
        Seq::empty()
    } else {
        let b = bytes[0];
        let head = if unreserved(b) {
            seq![b as char]
        } else {
            seq!['%', hex_upper_digit(b / 16), hex_upper_digit(b % 16)]
        };
        head + percent_encoded(bytes.drop_first())
    }
}

/// Calls `urlencoding::encode`, which percent-encodes the UTF-8 bytes of
/// `s`: every byte but ASCII letters, digits, `-`, `.`, `_` and `~` becomes
/// `%` followed by two upper-case hex digits.
#[verifier::external_body]
fn url_encode(s: &str) -> (r: String)
    ensures
        r@ == percent_encoded(vstd::utf8::encode_utf8(s@)),
{
    urlencoding::encode(s).into_owned()
}

/// The search address for recipe sources matching `query`.
pub fn recipe_search_url(query: &str) -> (r: String)
    ensures
        r@ == "https://www.google.com/search?q="@ + percent_encoded(vstd::utf8::encode_utf8(query@))
            + "&num=5&brd_json=1"@,
{
    let q = url_encode(query);
    let mut buf: Vec<char> = Vec::new();
    push_str(&mut buf, "https://www.google.com/search?q=");
    push_str(&mut buf, q.as_str());
    push_str(&mut buf, "&num=5&brd_json=1");
    string_from_chars(&buf)
}

/// The country searched in when the user has none: Sweden.
pub fn country_or_default(country_code: Option<&str>) -> (r: &str)
    ensures
        r@ == (match country_code {
            Some(c) => c@,
            None => "SE"@,
        }),
{
    match country_code {
        Some(c) => c,
        None => "SE",
    }
}

/// The search address for the product with this barcode.
pub fn barcode_search_url(barcode: &str, country: &str) -> (r: String)
    ensures
        r@ == "https://www.google.com/search?q="@ + percent_encoded(
            vstd::utf8::encode_utf8(barcode@ + " food"@),
        ) + "&gl="@ + country@ + "&num=3&brd_json=1"@,
{
    let term = error::prefixed(barcode, " food");
    let q = url_encode(term.as_str());
    let mut buf: Vec<char> = Vec::new();
    push_str(&mut buf, "https://www.google.com/search?q=");
    push_str(&mut buf, q.as_str());
    push_str(&mut buf, "&gl=");
    push_str(&mut buf, country);
    push_str(&mut buf, "&num=3&brd_json=1");
    string_from_chars(&buf)
}

/// The image search address for a product name.
pub fn image_search_url(product_name: &str, country: &str) -> (r: String)
    ensures
        r@ == "https://www.google.com/search?q="@ + percent_encoded(
            vstd::utf8::encode_utf8(product_name@ + " food"@),
        ) + "&gl="@ + country@ + "&num=3&brd_json=1&tbm=isch"@,
{
    let term = error::prefixed(product_name, " food");
    let q = url_encode(term.as_str());
    let mut buf: Vec<char> = Vec::new();
    push_str(&mut buf, "https://www.google.com/search?q=");
    push_str(&mut buf, q.as_str());
    push_str(&mut buf, "&gl=");
    push_str(&mut buf, country);
    push_str(&mut buf, "&num=3&brd_json=1&tbm=isch");
    string_from_chars(&buf)
}

// ---------------------------------------------------------------------------
// Reading answers
// ---------------------------------------------------------------------------
/// A lowercased message speaks of rate limits or quotas.
pub open spec fn speaks_of_limit(lower: Seq<char>) -> bool {
    text::contains_seq(lower, "rate"@) || text::contains_seq(lower, "quota"@)
        || text::contains_seq(lower, "limit"@)
}

/// Whether an already lowercased error message speaks of limits.
pub fn mentions_limit(lower: &str) -> (r: bool)
    ensures
        r == speaks_of_limit(lower@),
{
    let v = chars_of(lower);
    contains_str(&v, "rate") || contains_str(&v, "quota") || contains_str(&v, "limit")
}

/// Whether an error message of the search service speaks of limits, in any
/// letter case.
pub fn is_rate_limit_message(msg: &str) -> (r: bool)
    ensures
        r == speaks_of_limit(text::lowercase(msg@)),
{
    let lower = to_lowercase(msg);
    mentions_limit(lower.as_str())
}

/// Minutes to wait from a `Retry-After` value of whole seconds (not
/// trimmed), rounded up; `default_minutes` when absent or not a number.
pub fn parse_retry_after_minutes(retry_after: Option<&str>, default_minutes: u32) -> (r: u32)
    requires
        retry_after matches Some(h) ==> (text::parse_unsigned(h@, u64::MAX as int) matches Some(s)
            ==> s + 59 <= u64::MAX),
    ensures
        r == (match retry_after {
            Some(h) => match text::parse_unsigned(h@, u64::MAX as int) {
                Some(s) => error::minutes_rounded_up(s),
                None => default_minutes,
            },
            None => default_minutes,
        }),
{
    match retry_after {
        Some(h) => match parse_u64(h) {
            Some(secs) => ((secs + 59) / 60) as u32,
            None => default_minutes,
        },
        None => default_minutes,
    }
}

/// The minutes a rate-limited answer asks to wait.
pub open spec fn serp_wait(retry_after: Option<Seq<char>>) -> u32 {
    match retry_after {
        Some(h) => match text::parse_unsigned(h, u64::MAX as int) {
            Some(s) => error::minutes_rounded_up(s),
            None => SERP_RATE_LIMIT_DEFAULT_WAIT_MINUTES,
        },
        None => SERP_RATE_LIMIT_DEFAULT_WAIT_MINUTES,
    }
}

/// How a search request ends, given the answer's status (displayed as
/// `status_text`), its `Retry-After` header, and its body as parsed (or the
/// parse error).
pub fn interpret_response(
    status: u16,
    status_text: &str,
    retry_after: Option<&str>,
    body: Result<BrightResponse, String>,
) -> (r: Result<BrightResponse, AppError>)
    requires
        retry_after matches Some(h) ==> (text::parse_unsigned(h@, u64::MAX as int) matches Some(s)
            ==> s + 59 <= u64::MAX),
    ensures
        ({
            let ra = match retry_after {
                Some(h) => Some(h@),
                None => None,
            };
            if status == 429 {
                r matches Err(AppError::RateLimitError { message, retry_after_minutes }) && message@
                    == "BrightData"@ && retry_after_minutes == serp_wait(ra)
            } else {
                match body {
                    Err(e) => r matches Err(AppError::InternalServerError(m)) && m@ == e@,
                    Ok(b) => match b.error {
                        Some(msg) => if speaks_of_limit(text::lowercase(msg@)) {
                            r matches Err(AppError::RateLimitError { message, retry_after_minutes })
                                && message@ == "BrightData"@ && retry_after_minutes == serp_wait(ra)
                        } else {
                            r matches Err(AppError::InternalServerError(m)) && m@
                                == "BrightData error: "@ + msg@
                        },
                        None => if 200 <= status <= 299 {
                            r == Ok::<BrightResponse, AppError>(b)
                        } else {
                            r matches Err(AppError::InternalServerError(m)) && m@
                                == "BrightData returned status "@ + status_text@
                        },
                    },
                }
            }
        }),
{
    if status == 429 {
        return Err(
            AppError::RateLimitError {
                message: String::from_str("BrightData"),
                retry_after_minutes: parse_retry_after_minutes(
                    retry_after,
                    SERP_RATE_LIMIT_DEFAULT_WAIT_MINUTES,
                ),
            },
        );
    }
    match body {
        Err(e) => Err(AppError::InternalServerError(e)),
        Ok(b) => {
            if let Some(msg) = &b.error {
                if is_rate_limit_message(msg.as_str()) {
                    return Err(
                        AppError::RateLimitError {
                            message: String::from_str("BrightData"),
                            retry_after_minutes: parse_retry_after_minutes(
                                retry_after,
                                SERP_RATE_LIMIT_DEFAULT_WAIT_MINUTES,
                            ),
                        },
                    );
                }
                return Err(
                    AppError::InternalServerError(
                        error::prefixed("BrightData error: ", msg.as_str()),
                    ),
                );
            }
            if !(200 <= status && status <= 299) {
                return Err(
                    AppError::InternalServerError(
                        error::prefixed("BrightData returned status ", status_text),
                    ),
                );
            }
            Ok(b)
        },
    }
}

// ---------------------------------------------------------------------------
// Barcode lookups
// ---------------------------------------------------------------------------
/// The first position at or after `i` where `needle` occurs in `hay`, or
/// `hay.len()` when it does not.
pub open spec fn find_seq_from(hay: Seq<char>, needle: Seq<char>, i: int) -> int
    decreases hay.len() - i,
{
    if i < 0 || i >= hay.len() {
        hay.len() as int
    } else if text::occurs_at(hay, needle, i) {
        i
    } else {
        find_seq_from(hay, needle, i + 1)
    }
}

/// `s` without its trailing characters that are not alphabetic.
pub open spec fn trim_end_non_alphabetic(s: Seq<char>) -> Seq<char>
    decreases s.len(),
{
    if s.len() > 0 && !text::alphabetic(s.last()) {
        trim_end_non_alphabetic(s.drop_last())
    } else {
        s
    }
}

/// The product name a search result title gives: the text before
/// `Open Food Facts` with its trailing non-letters removed, or the whole
/// title when that phrase is absent.
pub open spec fn product_name_spec(title: Seq<char>) -> Seq<char> {
    let p = find_seq_from(title, "Open Food Facts"@, 0);
    if p < title.len() {
        trim_end_non_alphabetic(title.subrange(0, p))
    } else {
        title
    }
}

/// The product name a search result title gives.
pub fn product_name_from_title(title: &str) -> (r: String)
    ensures
        r@ == product_name_spec(title@),
{
    let t = chars_of(title);
    let needle = chars_of("Open Food Facts");
    let mut p: usize = 0;
    while p < t.len() && !text::occurs_at_exec(&t, &needle, p)
        invariant
            p <= t@.len(),
            t@ == title@,
            needle@ == "Open Food Facts"@,
            find_seq_from(t@, needle@, 0) == find_seq_from(t@, needle@, p as int),
        decreases t@.len() - p,
    {
        p = p + 1;
    }
    if p < t.len() {
        let mut end: usize = p;
        assert(t@.subrange(0, p as int).subrange(0, end as int) == t@.subrange(0, p as int));
        while end > 0 && !is_alphabetic(t[end - 1])
            invariant
                end <= p < t@.len(),
                trim_end_non_alphabetic(t@.subrange(0, p as int)) == trim_end_non_alphabetic(
                    t@.subrange(0, end as int),
                ),
            decreases end,
        {
            proof {
                let u = t@.subrange(0, end as int);
                assert(u.drop_last() == t@.subrange(0, end - 1));
                assert(u.last() == t@[end - 1]);
            }
            end = end - 1;
        }
        proof {
            if end > 0 {
                assert(t@.subrange(0, end as int).last() == t@[end - 1]);
            }
        }
        let name = slice_chars(&t, 0, end);
        string_from_chars(&name)
    } else {
        String::from_str(title)
    }
}

/// The title of the first organic result that has one.
pub open spec fn first_title(items: Seq<OrganicItem>) -> Option<Seq<char>>
    decreases items.len(),
{
    if items.len() == 0 {
        None
    } else {
        match items[0].title {
            Some(t) => Some(t@),
            None => first_title(items.drop_first()),
        }
    }
}

/// The product name the organic results give, from the first titled result.
pub fn product_name(organic: &Vec<OrganicItem>) -> (r: Option<String>)
    ensures
        match r {
            Some(n) => first_title(organic@) matches Some(t) && n@ == product_name_spec(t),
            None => first_title(organic@) is None,
        },
{
    let mut i: usize = 0;
    assert(organic@.skip(0) == organic@);
    while i < organic.len()
        invariant
            0 <= i <= organic@.len(),
            first_title(organic@) == first_title(organic@.skip(i as int)),
        decreases organic@.len() - i,
    {
        proof {
            assert(organic@.skip(i as int)[0] == organic@[i as int]);
            assert(organic@.skip(i as int).drop_first() == organic@.skip(i + 1));
        }
        if let Some(t) = &organic[i].title {
            return Some(product_name_from_title(t.as_str()));
        }
        i = i + 1;
    }
    assert(organic@.skip(i as int).len() == 0);
    None
}

/// The address of the first image result that offers one.
pub open spec fn first_image_url(items: Seq<ImageItem>) -> Option<Seq<char>>
    decreases items.len(),
{
    if items.len() == 0 {
        None
    } else {
        match best_url_spec(items[0]) {
            Some(u) => Some(u),
            None => first_image_url(items.drop_first()),
        }
    }
}

/// The photo address the image results give.
pub fn photo_link(images: &Vec<ImageItem>) -> (r: Option<String>)
    ensures
        match r {
            Some(u) => first_image_url(images@) == Some(u@),
            None => first_image_url(images@) is None,
        },
{
    let mut i: usize = 0;
    assert(images@.skip(0) == images@);
    while i < images.len()
        invariant
            0 <= i <= images@.len(),
            first_image_url(images@) == first_image_url(images@.skip(i as int)),
        decreases images@.len() - i,
    {
        proof {
            assert(images@.skip(i as int)[0] == images@[i as int]);
            assert(images@.skip(i as int).drop_first() == images@.skip(i + 1));
        }
        if let Some(u) = images[i].best_url() {
            return Some(String::from_str(u));
        }
        i = i + 1;
    }
    assert(images@.skip(i as int).len() == 0);
    None
}

/// The result of a barcode lookup from the organic answer and, when a name
/// was found, the image answer.
pub fn barcode_result(name: Option<String>, images: Option<&Vec<ImageItem>>) -> (r:
    BarcodeSearchResult)
    ensures
        r.name == name,
        match images {
            Some(imgs) => match r.photo_link {
                Some(u) => first_image_url(imgs@) == Some(u@),
                None => first_image_url(imgs@) is None,
            },
            None => r.photo_link is None,
        },
{
    let photo = match images {
        Some(imgs) => photo_link(imgs),
        None => None,
    };
    BarcodeSearchResult { name, photo_link: photo }
}

} // verus!
