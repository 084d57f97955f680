//! Character-level text utilities shared by the rest of the library.
//!
//! Text is handled as sequences of `char`, which is also how Verus views
//! `str` and `String`.
use vstd::prelude::*;

verus! {

// ---------------------------------------------------------------------------
// Specifications
// ---------------------------------------------------------------------------
/// `needle` occurs in `hay` starting at position `i`.
pub open spec fn occurs_at(hay: Seq<char>, needle: Seq<char>, i: int) -> bool {
    &&& 0 <= i
    &&& i + needle.len() <= hay.len()
    &&& hay.subrange(i, i + needle.len()) == needle
}

/// `needle` occurs somewhere in `hay` (the empty needle always occurs).
pub open spec fn contains_seq(hay: Seq<char>, needle: Seq<char>) -> bool {
    exists|i: int| occurs_at(hay, needle, i)
}

/// The number of bytes of the UTF-8 encoding of `s` (what `str::len` gives).
pub open spec fn utf8_len(s: Seq<char>) -> nat {
    vstd::utf8::encode_utf8(s).len()
}

/// `s` begins with `p`.
pub open spec fn has_prefix(s: Seq<char>, p: Seq<char>) -> bool {
    p.len() <= s.len() && s.subrange(0, p.len() as int) == p
}

/// The characters for which `char::is_whitespace` holds (Unicode `White_Space`).
pub open spec fn is_whitespace_char(c: char) -> bool {
    let u = c as u32;
    ||| 0x9 <= u <= 0xd
    ||| u == 0x20
    ||| u == 0x85
    ||| u == 0xa0
    ||| u == 0x1680
    ||| 0x2000 <= u <= 0x200a
    ||| u == 0x2028
    ||| u == 0x2029
    ||| u == 0x202f
    ||| u == 0x205f
    ||| u == 0x3000
}

/// `s` without its leading whitespace.
pub open spec fn trim_start(s: Seq<char>) -> Seq<char>
    decreases s.len(),
{
    if s.len() > 0 && is_whitespace_char(s[0]) {
        trim_start(s.drop_first())
    } else {
        s
    }
}

/// `s` without its trailing whitespace.
pub open spec fn trim_end(s: Seq<char>) -> Seq<char>
    decreases s.len(),
{
    if s.len() > 0 && is_whitespace_char(s.last()) {
        trim_end(s.drop_last())
    } else {
        s
    }
}

/// `s` without leading and trailing whitespace, as `str::trim` returns it.
pub open spec fn trim(s: Seq<char>) -> Seq<char> {
    trim_end(trim_start(s))
}

/// `s` is empty or all whitespace.
pub open spec fn is_blank(s: Seq<char>) -> bool {
    trim(s).len() == 0
}

pub open spec fn is_ascii_digit(c: char) -> bool {
    48 <= (c as u32) <= 57
}

pub open spec fn digit_value(c: char) -> int {
    (c as u32) - 48
}

pub open spec fn all_digits(s: Seq<char>) -> bool {
    forall|i: int| 0 <= i < s.len() ==> is_ascii_digit(#[trigger] s[i])
}

/// The number written by the decimal digits `s`, most significant first.
pub open spec fn digits_value(s: Seq<char>) -> int
    decreases s.len(),
{
    if s.len() == 0 {
        0
    } else {
        digits_value(s.drop_last()) * 10 + digit_value(s.last())
    }
}

/// What `str::parse` gives for an unsigned integer type whose largest value
/// is `max`: an optional `+`, then one or more ASCII digits, no larger than `max`.
pub open spec fn parse_unsigned(s: Seq<char>, max: int) -> Option<int> {
    let body = if s.len() > 0 && s[0] == '+' {
        s.drop_first()
    } else {
        s
    };
    if body.len() > 0 && all_digits(body) && digits_value(body) <= max {
        Some(digits_value(body))
    } else {
        None
    }
}

/// What `str::parse` gives for a signed integer type with range `[min, max]`:
/// an optional `+` or `-`, then one or more ASCII digits, within the range.
pub open spec fn parse_signed(s: Seq<char>, min: int, max: int) -> Option<int> {
    let neg = s.len() > 0 && s[0] == '-';
    let body = if s.len() > 0 && (s[0] == '+' || s[0] == '-') {
        s.drop_first()
    } else {
        s
    };
    let v = if neg {
        -digits_value(body)
    } else {
        digits_value(body)
    };
    if body.len() > 0 && all_digits(body) && min <= v <= max {
        Some(v)
    } else {
        None
    }
}

/// The lowercase hexadecimal digit for `d`, for `d` in `0..16`.
pub open spec fn hex_digit_lower(d: int) -> char {
    if d < 10 {
        (d + 48) as char
    } else {
        (d + 87) as char
    }
}

/// Whether `c` is one of `0`-`9`, `a`-`f`.
pub open spec fn is_lower_hex_char(c: char) -> bool {
    (48 <= (c as u32) <= 57) || (97 <= (c as u32) <= 102)
}

pub open spec fn digit_char(d: int) -> char {
    (d + 48) as char
}

/// The decimal representation of `n`, without sign or leading zeros.
pub open spec fn decimal(n: nat) -> Seq<char>
    decreases n,
{
    if n < 10 {
        seq![digit_char(n as int)]
    } else {
        decimal(n / 10).push(digit_char((n % 10) as int))
    }
}

/// The decimal representation of a signed number, with `-` when negative.
pub open spec fn signed_decimal(n: int) -> Seq<char> {
    if n < 0 {
        seq!['-'] + decimal((-n) as nat)
    } else {
        decimal(n as nat)
    }
}

// ---------------------------------------------------------------------------
// Outside functions
// ---------------------------------------------------------------------------
/// The result of `str::to_lowercase`: full Unicode lowercase mapping.
pub uninterp spec fn lowercase(s: Seq<char>) -> Seq<char>;

/// The result of `char::is_alphabetic`: the Unicode `Alphabetic` property.
pub uninterp spec fn alphabetic(c: char) -> bool;

/// Calls `str::to_lowercase`. Its result is named by `lowercase`, a function
/// of the input alone; nothing more is claimed of it.
#[verifier::external_body]
pub(crate) fn to_lowercase(s: &str) -> (r: String)
    ensures
        r@ == lowercase(s@),
{
    s.to_lowercase()
}

/// Calls `char::is_alphabetic`, whether the character has the Unicode
/// `Alphabetic` property. Its result is named by `alphabetic`; nothing more
/// is claimed of it.
#[verifier::external_body]
pub(crate) fn is_alphabetic(c: char) -> (r: bool)
    ensures
        r == alphabetic(c),
{
    c.is_alphabetic()
}

/// Calls `ToString::to_string` on a character: the one-character string.
#[verifier::external_body]
fn char_to_string(c: char) -> (r: String)
    ensures
        r@ == seq![c],
{
    c.to_string()
}

/// The string of the characters `v`, in order.
pub fn string_from_chars(v: &[char]) -> (r: String)
    ensures
        r@ == v@,
{
    let mut out = String::new();
    let mut i: usize = 0;
    while i < v.len()
        invariant
            0 <= i <= v@.len(),
            out@ == v@.take(i as int),
        decreases v@.len() - i,
    {
        let one = char_to_string(v[i]);
        out.append(one.as_str());
        i = i + 1;
        assert(v@.take(i as int) == v@.take(i - 1) + seq![v@[i - 1]]);
    }
    assert(v@.take(v@.len() as int) == v@);
    out
}

// ---------------------------------------------------------------------------
// Executable helpers
// ---------------------------------------------------------------------------
/// The characters of `s`, in order.
pub fn chars_of(s: &str) -> (v: Vec<char>)
    ensures
        v@ == s@,
{
    let mut v: Vec<char> = Vec::new();
    for c in it: s.chars()
        invariant
            v@ == it.seq().take(it.index() as int),
            it.seq() == s@,
    {
        v.push(c);
    }
    v
}

/// Appends the characters of `s` to `buf`.
pub fn push_str(buf: &mut Vec<char>, s: &str)
    ensures
        final(buf)@ == old(buf)@ + s@,
{
    let v = chars_of(s);
    push_chars(buf, &v);
}

/// Appends `v` to `buf`.
pub fn push_chars(buf: &mut Vec<char>, v: &[char])
    ensures
        final(buf)@ == old(buf)@ + v@,
{
    let ghost start = buf@;
    let mut i: usize = 0;
    while i < v.len()
        invariant
            i <= v.len(),
            buf@ == start + v@.take(i as int),
        decreases v.len() - i,
    {
        buf.push(v[i]);
        i = i + 1;
        assert(v@.take(i as int) == v@.take((i - 1) as int).push(v@[i - 1]));
    }
    assert(v@.take(v.len() as int) == v@);
}

/// Whether `c` is whitespace as `char::is_whitespace` decides it.
pub fn is_whitespace(c: char) -> (r: bool)
    ensures
        r == is_whitespace_char(c),
{
    let u = c as u32;
    (0x9 <= u && u <= 0xd) || u == 0x20 || u == 0x85 || u == 0xa0 || u == 0x1680 || (0x2000 <= u
        && u <= 0x200a) || u == 0x2028 || u == 0x2029 || u == 0x202f || u == 0x205f || u == 0x3000
}

proof fn lemma_trim_start_skip(s: Seq<char>, i: int)
    requires
        0 <= i < s.len(),
        is_whitespace_char(s[i]),
    ensures
        trim_start(s.subrange(i, s.len() as int)) == trim_start(s.subrange(i + 1, s.len() as int)),
{
    let t = s.subrange(i, s.len() as int);
    assert(t.drop_first() == s.subrange(i + 1, s.len() as int));
}

/// The bounds `(a, b)` of `trim(s)` within `s`.
#[verifier::spinoff_prover]
#[verifier::rlimit(30)]
pub fn trim_bounds(s: &[char]) -> (r: (usize, usize))
    ensures
        r.0 <= r.1 <= s@.len(),
        s@.subrange(r.0 as int, r.1 as int) == trim(s@),
{
    let n = s.len();
    let mut a: usize = 0;
    assert(s@.subrange(0, n as int) == s@);
    while a < n && is_whitespace(s[a])
        invariant
            a <= n,
            n == s@.len(),
            trim_start(s@) == trim_start(s@.subrange(a as int, n as int)),
        decreases n - a,
    {
        proof {
            lemma_trim_start_skip(s@, a as int);
        }
        a = a + 1;
    }
    let ghost ts = s@.subrange(a as int, n as int);
    assert(trim_start(s@) == ts) by {
        if a < n {
            assert(ts[0] == s@[a as int]);
        }
    }
    let mut b: usize = n;
    assert(ts.subrange(0, (n - a) as int) == ts);
    while b > a && is_whitespace(s[b - 1])
        invariant
            a <= b <= n,
            n == s@.len(),
            ts == s@.subrange(a as int, n as int),
            trim_end(ts) == trim_end(s@.subrange(a as int, b as int)),
        decreases b,
    {
        proof {
            let u = s@.subrange(a as int, b as int);
            assert(u.drop_last() == s@.subrange(a as int, b - 1));
            assert(u.last() == s@[b - 1]);
        }
        b = b - 1;
    }
    proof {
        let u = s@.subrange(a as int, b as int);
        if b > a {
            assert(u.last() == s@[b - 1]);
        }
    }
    (a, b)
}

/// `trim(s)` as a new vector.
pub fn trim_chars(s: &[char]) -> (r: Vec<char>)
    ensures
        r@ == trim(s@),
{
    let (a, b) = trim_bounds(s);
    slice_chars(s, a, b)
}

/// The characters `s[from..to]`.
pub fn slice_chars(s: &[char], from: usize, to: usize) -> (r: Vec<char>)
    requires
        from <= to <= s@.len(),
    ensures
        r@ == s@.subrange(from as int, to as int),
{
    let mut r: Vec<char> = Vec::new();
    let mut i = from;
    while i < to
        invariant
            from <= i <= to,
            to <= s@.len(),
            r@ == s@.subrange(from as int, i as int),
        decreases to - i,
    {
        r.push(s[i]);
        i = i + 1;
        assert(r@ == s@.subrange(from as int, i as int));
    }
    r
}

/// Whether `needle` occurs in `hay` at position `i`.
pub fn occurs_at_exec(hay: &[char], needle: &[char], i: usize) -> (r: bool)
    ensures
        r == occurs_at(hay@, needle@, i as int),
{
    if i > hay.len() || needle.len() > hay.len() - i {
        return false;
    }
    let end: usize = i + needle.len();
    let mut k: usize = 0;
    while k < needle.len()
        invariant
            k <= needle@.len(),
            end == i + needle@.len(),
            end <= hay@.len(),
            forall|j: int| 0 <= j < k ==> hay@[i + j] == needle@[j],
        decreases needle.len() - k,
    {
        if hay[i + k] != needle[k] {
            assert(hay@.subrange(i as int, i + needle@.len())[k as int] != needle@[k as int]);
            return false;
        }
        k = k + 1;
    }
    assert(hay@.subrange(i as int, i + needle@.len()) == needle@);
    true
}

/// Whether `needle` occurs anywhere in `hay`, as `str::contains` decides it.
pub fn contains(hay: &[char], needle: &[char]) -> (r: bool)
    ensures
        r == contains_seq(hay@, needle@),
{
    let mut i: usize = 0;
    loop
        invariant
            i <= hay@.len(),
            forall|j: int| 0 <= j < i ==> !occurs_at(hay@, needle@, j),
        ensures
            i == hay@.len(),
            forall|j: int| 0 <= j <= i ==> !occurs_at(hay@, needle@, j),
        decreases hay@.len() - i,
    {
        if occurs_at_exec(hay, needle, i) {
            return true;
        }
        if i == hay.len() {
            break;
        }
        i = i + 1;
    }
    assert forall|j: int| !occurs_at(hay@, needle@, j) by {
        if 0 <= j <= i {
        } else if j > i {
            assert(j + needle@.len() > hay@.len());
        }
    }
    false
}

/// Whether `needle` (given as a string) occurs in `hay`.
pub fn contains_str(hay: &[char], needle: &str) -> (r: bool)
    ensures
        r == contains_seq(hay@, needle@),
{
    let n = chars_of(needle);
    contains(hay, &n)
}

/// Whether two strings are the same text.
pub fn same_text(a: &str, b: &str) -> (r: bool)
    ensures
        r == (a@ == b@),
{
    let x = chars_of(a);
    let y = chars_of(b);
    if x.len() != y.len() {
        return false;
    }
    let mut i: usize = 0;
    while i < x.len()
        invariant
            x@ == a@,
            y@ == b@,
            x@.len() == y@.len(),
            0 <= i <= x@.len(),
            forall|k: int| 0 <= k < i ==> x@[k] == y@[k],
        decreases x@.len() - i,
    {
        if x[i] != y[i] {
            assert(x@[i as int] != y@[i as int]);
            return false;
        }
        i = i + 1;
    }
    assert(x@ =~= y@);
    true
}

/// Whether `s` begins with `p`.
pub fn starts_with(s: &[char], p: &[char]) -> (r: bool)
    ensures
        r == has_prefix(s@, p@),
{
    let r = occurs_at_exec(s, p, 0);
    r
}

/// Whether `s` begins with the string `p`.
pub fn starts_with_str(s: &[char], p: &str) -> (r: bool)
    ensures
        r == has_prefix(s@, p@),
{
    let v = chars_of(p);
    starts_with(s, &v)
}

pub proof fn lemma_digits_value_nonneg(s: Seq<char>)
    requires
        all_digits(s),
    ensures
        digits_value(s) >= 0,
    decreases s.len(),
{
    if s.len() > 0 {
        assert(all_digits(s.drop_last())) by {
            assert forall|i: int| 0 <= i < s.drop_last().len() implies is_ascii_digit(
                #[trigger] s.drop_last()[i],
            ) by {
                assert(s.drop_last()[i] == s[i]);
            }
        }
        lemma_digits_value_nonneg(s.drop_last());
        assert(is_ascii_digit(s[s.len() - 1]));
    }
}

/// A longer all-digit string is worth at least as much as its prefix.
pub proof fn lemma_digits_value_prefix(s: Seq<char>, k: int)
    requires
        all_digits(s),
        0 <= k <= s.len(),
    ensures
        digits_value(s.take(k)) <= digits_value(s),
    decreases s.len() - k,
{
    if k < s.len() {
        let t = s.take(k + 1);
        assert(t.drop_last() == s.take(k));
        assert(all_digits(s.take(k))) by {
            assert forall|i: int| 0 <= i < s.take(k).len() implies is_ascii_digit(
                #[trigger] s.take(k)[i],
            ) by {
                assert(s.take(k)[i] == s[i]);
            }
        }
        lemma_digits_value_nonneg(s.take(k));
        assert(is_ascii_digit(s[k]));
        assert(t.last() == s[k]);
        lemma_digits_value_prefix(s, k + 1);
    } else {
        assert(s.take(k) == s);
    }
}

/// Parses the decimal digits `d[from..]`, refusing values above `max`.
fn parse_digits(d: &[char], from: usize, max: u64) -> (r: Option<u64>)
    requires
        from <= d@.len(),
    ensures
        ({
            let body = d@.subrange(from as int, d@.len() as int);
            match r {
                Some(v) => body.len() > 0 && all_digits(body) && digits_value(body) <= max
                    && v as int == digits_value(body),
                None => !(body.len() > 0 && all_digits(body) && digits_value(body) <= max),
            }
        }),
{
    let ghost body = d@.subrange(from as int, d@.len() as int);
    if from == d.len() {
        return None;
    }
    let mut acc: u64 = 0;
    let mut i: usize = from;
    assert(body.take(0).len() == 0);
    while i < d.len()
        invariant
            from <= i <= d@.len(),
            body == d@.subrange(from as int, d@.len() as int),
            forall|j: int| 0 <= j < i - from ==> is_ascii_digit(#[trigger] body[j]),
            acc as int == digits_value(body.take(i - from)),
            acc <= max,
        decreases d.len() - i,
    {
        let c = d[i];
        let u = c as u32;
        if u < 48 || u > 57 {
            assert(body[i - from] == c);
            return None;
        }
        let next: u128 = (acc as u128) * 10 + ((u - 48) as u128);
        let ghost t = body.take(i - from + 1);
        assert(t.drop_last() == body.take(i - from));
        assert(t.last() == c);
        assert(body[i - from] == c);
        if next > max as u128 {
            proof {
                if all_digits(body) {
                    lemma_digits_value_prefix(body, i - from + 1);
                }
            }
            return None;
        }
        acc = next as u64;
        i = i + 1;
    }
    assert(body.take(i - from) == body);
    Some(acc)
}

/// `str::parse::<T>()` for an unsigned integer type `T` whose largest value is
/// `max` (given here as a `u64`).
pub fn parse_unsigned_exec(s: &str, max: u64) -> (r: Option<u64>)
    ensures
        match r {
            Some(v) => parse_unsigned(s@, max as int) == Some(v as int),
            None => parse_unsigned(s@, max as int) is None,
        },
{
    let d = chars_of(s);
    let from: usize = if d.len() > 0 && d[0] == '+' {
        1
    } else {
        0
    };
    proof {
        if d@.len() > 0 && d@[0] == '+' {
            assert(d@.subrange(1, d@.len() as int) == d@.drop_first());
        } else {
            assert(d@.subrange(0, d@.len() as int) == d@);
        }
    }
    parse_digits(&d, from, max)
}

/// `str::parse::<u64>()`.
pub fn parse_u64(s: &str) -> (r: Option<u64>)
    ensures
        match r {
            Some(v) => parse_unsigned(s@, u64::MAX as int) == Some(v as int),
            None => parse_unsigned(s@, u64::MAX as int) is None,
        },
{
    parse_unsigned_exec(s, u64::MAX)
}

/// `str::parse::<u32>()`.
pub fn parse_u32(s: &str) -> (r: Option<u32>)
    ensures
        match r {
            Some(v) => parse_unsigned(s@, u32::MAX as int) == Some(v as int),
            None => parse_unsigned(s@, u32::MAX as int) is None,
        },
{
    match parse_unsigned_exec(s, u32::MAX as u64) {
        Some(v) => Some(v as u32),
        None => None,
    }
}

/// `str::parse::<u16>()`.
pub fn parse_u16(s: &str) -> (r: Option<u16>)
    ensures
        match r {
            Some(v) => parse_unsigned(s@, u16::MAX as int) == Some(v as int),
            None => parse_unsigned(s@, u16::MAX as int) is None,
        },
{
    match parse_unsigned_exec(s, u16::MAX as u64) {
        Some(v) => Some(v as u16),
        None => None,
    }
}

/// `str::parse::<i32>()`.
pub fn parse_i32(s: &str) -> (r: Option<i32>)
    ensures
        match r {
            Some(v) => parse_signed(s@, i32::MIN as int, i32::MAX as int) == Some(v as int),
            None => parse_signed(s@, i32::MIN as int, i32::MAX as int) is None,
        },
{
    let d = chars_of(s);
    let neg = d.len() > 0 && d[0] == '-';
    let from: usize = if d.len() > 0 && (d[0] == '+' || d[0] == '-') {
        1
    } else {
        0
    };
    proof {
        if from == 1 {
            assert(d@.subrange(1, d@.len() as int) == d@.drop_first());
        } else {
            assert(d@.subrange(0, d@.len() as int) == d@);
        }
    }
    match parse_digits(&d, from, 2147483648u64) {
        None => {
            proof {
                let body = d@.subrange(from as int, d@.len() as int);
                if body.len() > 0 && all_digits(body) {
                    lemma_digits_value_nonneg(body);
                }
            }
            None
        },
        Some(m) => {
            if neg {
                let v: i64 = -(m as i64);
                Some(v as i32)
            } else if m <= 2147483647 {
                Some(m as i32)
            } else {
                None
            }
        },
    }
}

/// The ASCII digit for `d`.
pub fn digit_to_char(d: u8) -> (c: char)
    requires
        d < 10,
    ensures
        c == digit_char(d as int),
{
    match d {
        0 => '0',
        1 => '1',
        2 => '2',
        3 => '3',
        4 => '4',
        5 => '5',
        6 => '6',
        7 => '7',
        8 => '8',
        _ => '9',
    }
}

/// Appends the decimal representation of `n` to `buf`.
pub fn push_decimal(buf: &mut Vec<char>, n: u64)
    ensures
        final(buf)@ == old(buf)@ + decimal(n as nat),
    decreases n,
{
    if n >= 10 {
        push_decimal(buf, n / 10);
    }
    let c = digit_to_char((n % 10) as u8);
    buf.push(c);
}

/// Appends the decimal representation of the signed `n` to `buf`.
pub fn push_signed_decimal(buf: &mut Vec<char>, n: i64)
    ensures
        final(buf)@ == old(buf)@ + signed_decimal(n as int),
{
    if n < 0 {
        buf.push('-');
        let m: u64 = if n == i64::MIN {
            9223372036854775808u64
        } else {
            (-n) as u64
        };
        let ghost mid = buf@;
        push_decimal(buf, m);
        assert(buf@ == old(buf)@ + signed_decimal(n as int));
    } else {
        push_decimal(buf, n as u64);
    }
}

/// The decimal representation of `n` as a `String`.
pub fn u64_to_string(n: u64) -> (r: String)
    ensures
        r@ == decimal(n as nat),
{
    let mut buf: Vec<char> = Vec::new();
    push_decimal(&mut buf, n);
    assert(buf@ == decimal(n as nat));
    string_from_chars(&buf)
}

// ---------------------------------------------------------------------------
// Lines
// ---------------------------------------------------------------------------
/// The first index at or after `i` where `s` holds `c`, or `s.len()`.
pub open spec fn find_char_from(s: Seq<char>, c: char, i: int) -> int
    decreases s.len() - i,
{
    if i < 0 || i >= s.len() {
        s.len() as int
    } else if s[i] == c {
        i
    } else {
        find_char_from(s, c, i + 1)
    }
}

pub proof fn lemma_find_char_from_bounds(s: Seq<char>, c: char, i: int)
    requires
        0 <= i <= s.len(),
    ensures
        i <= find_char_from(s, c, i) <= s.len(),
        find_char_from(s, c, i) < s.len() ==> s[find_char_from(s, c, i)] == c,
        forall|k: int| i <= k < find_char_from(s, c, i) ==> s[k] != c,
    decreases s.len() - i,
{
    if i < s.len() && s[i] != c {
        lemma_find_char_from_bounds(s, c, i + 1);
    }
}

/// A line ended by `\n` loses a trailing `\r` as well.
pub open spec fn strip_cr(line: Seq<char>) -> Seq<char> {
    if line.len() > 0 && line.last() == '\r' {
        line.drop_last()
    } else {
        line
    }
}

/// The lines of `s[start..]` as `str::lines` yields them: split at `\n`,
/// a `\r` before the `\n` removed, no final empty line.
pub open spec fn lines_from(s: Seq<char>, start: int) -> Seq<Seq<char>>
    decreases s.len() - start,
{
    if start < 0 || start >= s.len() {
        Seq::empty()
    } else {
        let e = find_char_from(s, '\n', start);
        let raw = s.subrange(start, e);
        let line = if e < s.len() {
            strip_cr(raw)
        } else {
            raw
        };
        let next = if e < start || e >= s.len() {
            s.len() as int
        } else {
            e + 1
        };
        seq![line] + lines_from(s, next)
    }
}

/// The first `k` elements of `s`, or all of it when it is shorter.
pub open spec fn prefix_upto<A>(s: Seq<A>, k: int) -> Seq<A> {
    if 0 <= k < s.len() {
        s.take(k)
    } else if k < 0 {
        Seq::empty()
    } else {
        s
    }
}

/// `str::lines`.
pub open spec fn lines(s: Seq<char>) -> Seq<Seq<char>> {
    lines_from(s, 0)
}

/// The first index at or after `from` where `s` holds `c`, or `s.len()`.
pub fn find_char(s: &[char], c: char, from: usize) -> (r: usize)
    requires
        from <= s@.len(),
    ensures
        r == find_char_from(s@, c, from as int),
{
    let mut i = from;
    while i < s.len() && s[i] != c
        invariant
            from <= i <= s@.len(),
            find_char_from(s@, c, from as int) == find_char_from(s@, c, i as int),
        decreases s@.len() - i,
    {
        i = i + 1;
    }
    i
}

/// The line of `s` that starts at `start`, and where the next one starts.
pub fn next_line(s: &[char], start: usize) -> (r: (Vec<char>, usize))
    requires
        start < s@.len(),
    ensures
        lines_from(s@, start as int) == seq![r.0@] + lines_from(s@, r.1 as int),
        start < r.1 <= s@.len(),
{
    let e = find_char(s, '\n', start);
    proof {
        lemma_find_char_from_bounds(s@, '\n', start as int);
    }
    let raw = slice_chars(s, start, e);
    let line = if e < s.len() && raw.len() > 0 && raw[raw.len() - 1] == '\r' {
        slice_chars(&raw, 0, raw.len() - 1)
    } else {
        raw
    };
    proof {
        if e < s@.len() && raw@.len() > 0 && raw@[raw@.len() - 1] == '\r' {
            assert(line@ == raw@.drop_last());
        }
    }
    let next = if e < s.len() {
        e + 1
    } else {
        s.len()
    };
    proof {
        let raw_s = s@.subrange(start as int, e as int);
        assert(raw@ == raw_s);
        let l = if (e as int) < s@.len() {
            strip_cr(raw_s)
        } else {
            raw_s
        };
        assert(line@ == l);
        assert(lines_from(s@, start as int) == seq![l] + lines_from(s@, next as int));
    }
    (line, next)
}

// ---------------------------------------------------------------------------
// UTF-8 lengths
// ---------------------------------------------------------------------------
pub proof fn lemma_encode_utf8_concat(a: Seq<char>, b: Seq<char>)
    ensures
        vstd::utf8::encode_utf8(a + b) == vstd::utf8::encode_utf8(a) + vstd::utf8::encode_utf8(b),
    decreases a.len(),
{
    if a.len() == 0 {
        assert(a + b == b);
        assert(vstd::utf8::encode_utf8(a) == Seq::<u8>::empty());
        assert(Seq::<u8>::empty() + vstd::utf8::encode_utf8(b) == vstd::utf8::encode_utf8(b));
    } else {
        assert((a + b)[0] == a[0]);
        assert((a + b).drop_first() == a.drop_first() + b);
        lemma_encode_utf8_concat(a.drop_first(), b);
    }
}

/// The byte length of a prefix grows by the width of the next character.
pub proof fn lemma_utf8_len_step(s: Seq<char>, k: int)
    requires
        0 <= k < s.len(),
    ensures
        utf8_len(s.take(k + 1)) == utf8_len(s.take(k)) + vstd::utf8::encode_scalar(
            s[k] as u32,
        ).len(),
{
    assert(s.take(k + 1) == s.take(k) + seq![s[k]]);
    lemma_encode_utf8_concat(s.take(k), seq![s[k]]);
    assert(seq![s[k]].drop_first() == Seq::<char>::empty());
    assert(vstd::utf8::encode_utf8(seq![s[k]]) == vstd::utf8::encode_scalar(s[k] as u32)
        + vstd::utf8::encode_utf8(Seq::<char>::empty()));
}

/// A prefix is no longer in bytes than the whole.
pub proof fn lemma_utf8_len_prefix(s: Seq<char>, k: int)
    requires
        0 <= k <= s.len(),
    ensures
        utf8_len(s.take(k)) <= utf8_len(s),
{
    assert(s == s.take(k) + s.skip(k));
    lemma_encode_utf8_concat(s.take(k), s.skip(k));
}

/// The number of bytes `c` takes in UTF-8.
pub fn utf8_width(c: char) -> (w: usize)
    ensures
        w == vstd::utf8::encode_scalar(c as u32).len(),
        1 <= w <= 4,
{
    proof {
        vstd::utf8::char_is_scalar(c);
    }
    let u = c as u32;
    if u <= 0x7f {
        1
    } else if u <= 0x7ff {
        2
    } else if u <= 0xffff {
        3
    } else {
        4
    }
}

} // verus!
