//! Admission control for the Groq chat-completion API: a requests-per-minute
//! window, a tokens-per-minute window and a blackout after rate limiting, and
//! the interpretation of the API's answers.
//!
//! Times are nanoseconds on a monotonic clock, read by the caller.
use vstd::prelude::*;
use std::collections::VecDeque;
use crate::error::AppError;
use crate::models::recipe::ModelUsage;
use crate::services::rate_window::{
    self, elapsed_exec, evict, remove_by_ident, position_of_ident, Stamped, WINDOW_NS,
};
use crate::text::{self, chars_of, contains_str, to_lowercase};

verus! {

/// Minutes to wait when the API reports rate limiting in its body.
pub const GROQ_RATE_LIMIT_DEFAULT_WAIT_MINUTES: u32 = 1;

/// The two model tiers the service can call.
#[derive(PartialEq, Eq, Structural, Clone, Copy, Debug)]
pub enum ModelTier {
    Lite,
    Pro,
}

/// A request admitted to the per-minute request window.
#[derive(PartialEq, Eq, Structural, Clone, Copy, Debug)]
pub struct RequestStamp {
    pub at: u64,
    pub id: u64,
}

/// Tokens reserved in the per-minute token window.
#[derive(PartialEq, Eq, Structural, Clone, Copy, Debug)]
pub struct TokenReservation {
    pub at: u64,
    pub tokens: u32,
    pub id: u64,
}

impl Stamped for RequestStamp {
    open spec fn stamp(&self) -> u64 {
        self.at
    }

    open spec fn ident(&self) -> u64 {
        self.id
    }

    fn get_stamp(&self) -> (r: u64) {
        self.at
    }

    fn get_ident(&self) -> (r: u64) {
        self.id
    }
}

impl Stamped for TokenReservation {
    open spec fn stamp(&self) -> u64 {
        self.at
    }

    open spec fn ident(&self) -> u64 {
        self.id
    }

    fn get_stamp(&self) -> (r: u64) {
        self.at
    }

    fn get_ident(&self) -> (r: u64) {
        self.id
    }
}

// ---------------------------------------------------------------------------
// Requests per minute
// ---------------------------------------------------------------------------
/// A limit on the number of requests in any 60-second window.
pub struct SlidingWindowLimiter {
    window: VecDeque<RequestStamp>,
    limit: u32,
    default_wait_minutes: u32,
    next_id: u64,
}

/// The state of a `SlidingWindowLimiter`.
pub struct SlidingWindowView {
    pub window: Seq<RequestStamp>,
    pub limit: u32,
    pub default_wait_minutes: u32,
    pub next_id: u64,
}

impl View for SlidingWindowLimiter {
    type V = SlidingWindowView;

    closed spec fn view(&self) -> SlidingWindowView {
        SlidingWindowView {
            window: self.window@,
            limit: self.limit,
            default_wait_minutes: self.default_wait_minutes,
            next_id: self.next_id,
        }
    }
}

/// The outcome of `SlidingWindowLimiter::check` on the window `ev` left after
/// eviction: `Ok(None)` when there is room, `Ok(Some(d))` when the oldest
/// request leaves the window in `d`, and a rate-limit error when the limit
/// is zero.
pub open spec fn rpm_check_outcome(
    ev: Seq<RequestStamp>,
    limit: u32,
    now: u64,
) -> Option<Option<u64>> {
    if ev.len() < limit {
        Some(None)
    } else if ev.len() > 0 {
        Some(Some((WINDOW_NS - rate_window::elapsed(ev[0].at, now)) as u64))
    } else {
        None
    }
}

/// The limiter after committing a request at `now`: the request joins the
/// window under the next id, and the next id counts up by one.
pub open spec fn committed(v: SlidingWindowView, now: u64) -> SlidingWindowView {
    SlidingWindowView {
        window: v.window.push(RequestStamp { at: now, id: v.next_id }),
        limit: v.limit,
        default_wait_minutes: v.default_wait_minutes,
        next_id: (v.next_id + 1) as u64,
    }
}

/// The limiter after cancelling the request with id `id`: its first entry
/// with that id leaves the window; nothing else changes.
pub open spec fn cancelled(v: SlidingWindowView, id: u64) -> SlidingWindowView {
    SlidingWindowView {
        window: rate_window::remove_ident(v.window, id),
        limit: v.limit,
        default_wait_minutes: v.default_wait_minutes,
        next_id: v.next_id,
    }
}

/// The limiter after committing requests at the times `nows`, in order.
pub open spec fn committed_all(v: SlidingWindowView, nows: Seq<u64>) -> SlidingWindowView
    decreases nows.len(),
{
    if nows.len() == 0 {
        v
    } else {
        committed(committed_all(v, nows.drop_last()), nows.last())
    }
}

impl SlidingWindowLimiter {
    /// The ids of the requests in the window increase along it and lie below
    /// the next one to be given, so no id occurs twice.
    pub open spec fn wf(&self) -> bool {
        rate_window::window_ok(self@.window, self@.next_id)
    }

    pub fn new(limit: u32, default_wait_minutes: u32) -> (r: Self)
        ensures
            r@.window == Seq::<RequestStamp>::empty(),
            r@.limit == limit,
            r@.default_wait_minutes == default_wait_minutes,
            r@.next_id == 0,
            r.wf(),
    {
        SlidingWindowLimiter { window: VecDeque::new(), limit, default_wait_minutes, next_id: 0 }
    }

    /// The id the next committed request will get.
    pub fn next_reservation_id(&self) -> (r: u64)
        ensures
            r == self@.next_id,
    {
        self.next_id
    }

    /// Drops the requests that have left the window.
    pub fn evict(&mut self, now: u64)
        requires
            old(self).wf(),
        ensures
            final(self)@.window == rate_window::evicted(old(self)@.window, now),
            final(self)@.limit == old(self)@.limit,
            final(self)@.default_wait_minutes == old(self)@.default_wait_minutes,
            final(self)@.next_id == old(self)@.next_id,
            final(self).wf(),
    {
        proof {
            rate_window::lemma_window_ok_preserved(self.window@, self.next_id, now, 0);
        }
        evict(&mut self.window, now);
    }

    /// Checks, without committing, whether a request may go now: `Ok(None)`
    /// if so, `Ok(Some(wait))` with the time until the oldest request leaves
    /// the window otherwise.
    pub fn check(&mut self, source: &str, now: u64) -> (r: Result<Option<u64>, AppError>)
        requires
            old(self).wf(),
        ensures
            final(self)@.window == rate_window::evicted(old(self)@.window, now),
            final(self)@.limit == old(self)@.limit,
            final(self)@.default_wait_minutes == old(self)@.default_wait_minutes,
            final(self)@.next_id == old(self)@.next_id,
            final(self).wf(),
            match rpm_check_outcome(final(self)@.window, old(self)@.limit, now) {
                Some(o) => r == Ok::<Option<u64>, AppError>(o),
                None => r matches Err(AppError::RateLimitError { message, retry_after_minutes })
                    && message@ == source@ && retry_after_minutes == old(self)@.default_wait_minutes,
            },
            r matches Ok(Some(d)) ==> 0 < d <= WINDOW_NS,
    {
        let ghost before = self.window@;
        self.evict(now);
        proof {
            rate_window::lemma_evicted_front(before, now);
        }
        if (self.window.len() as u64) < (self.limit as u64) {
            return Ok(None);
        }
        if self.window.len() > 0 {
            let e = elapsed_exec(self.window[0].at, now);
            if e < WINDOW_NS {
                return Ok(Some(WINDOW_NS - e));
            }
        }
        Err(
            AppError::RateLimitError {
                message: String::from_str(source),
                retry_after_minutes: self.default_wait_minutes,
            },
        )
    }

    /// Records a request made now and returns its id.
    pub fn commit(&mut self, now: u64) -> (r: u64)
        requires
            old(self).wf(),
            old(self)@.next_id < u64::MAX,
        ensures
            r == old(self)@.next_id,
            final(self)@ == committed(old(self)@, now),
            final(self)@.window == old(self)@.window.push(RequestStamp { at: now, id: r }),
            final(self)@.next_id == old(self)@.next_id + 1,
            final(self)@.limit == old(self)@.limit,
            final(self)@.default_wait_minutes == old(self)@.default_wait_minutes,
            final(self).wf(),
    {
        let id = self.next_id;
        proof {
            rate_window::lemma_window_ok_push(self.window@, self.next_id, RequestStamp { at: now, id });
        }
        self.next_id = self.next_id + 1;
        self.window.push_back(RequestStamp { at: now, id });
        id
    }

    /// Gives back the slot of the request with id `id`.
    pub fn cancel(&mut self, id: u64)
        requires
            old(self).wf(),
        ensures
            final(self)@ == cancelled(old(self)@, id),
            final(self)@.window == rate_window::remove_ident(old(self)@.window, id),
            final(self)@.limit == old(self)@.limit,
            final(self)@.default_wait_minutes == old(self)@.default_wait_minutes,
            final(self)@.next_id == old(self)@.next_id,
            final(self).wf(),
    {
        proof {
            rate_window::lemma_window_ok_preserved(self.window@, self.next_id, 0, id);
        }
        remove_by_ident(&mut self.window, id);
    }
}

// ---------------------------------------------------------------------------
// Tokens per minute
// ---------------------------------------------------------------------------
/// The tokens reserved in `w`.
pub open spec fn total_tokens(w: Seq<TokenReservation>) -> nat
    decreases w.len(),
{
    if w.len() == 0 {
        0
    } else {
        total_tokens(w.drop_last()) + (w.last().tokens as nat)
    }
}

/// The wait before enough of `w`, counted from its oldest entry with
/// `freed` already counted, leaves the window to make room for `needed`
/// tokens: the time until the entry that completes `needed` leaves, or a
/// whole window when none does or that entry has already left.
pub open spec fn tpm_wait(w: Seq<TokenReservation>, needed: int, freed: int, now: u64) -> u64
    decreases w.len(),
{
    if w.len() == 0 {
        WINDOW_NS
    } else {
        let f = freed + w[0].tokens;
        if f >= needed {
            if rate_window::elapsed(w[0].at, now) < WINDOW_NS {
                (WINDOW_NS - rate_window::elapsed(w[0].at, now)) as u64
            } else {
                WINDOW_NS
            }
        } else {
            tpm_wait(w.drop_first(), needed, f, now)
        }
    }
}

/// `w` with the tokens of its first entry with id `id` replaced by `tokens`.
pub open spec fn retokened(w: Seq<TokenReservation>, id: u64, tokens: u32) -> Seq<
    TokenReservation,
>
    decreases w.len(),
{
    if w.len() == 0 {
        w
    } else if w[0].id == id {
        w.update(0, TokenReservation { at: w[0].at, tokens, id })
    } else {
        seq![w[0]] + retokened(w.drop_first(), id, tokens)
    }
}

pub proof fn lemma_total_split(w: Seq<TokenReservation>, k: int)
    requires
        0 <= k <= w.len(),
    ensures
        total_tokens(w) == total_tokens(w.take(k)) + total_tokens(w.skip(k)),
    decreases w.len(),
{
    if k == w.len() {
        assert(w.take(k) == w);
        assert(w.skip(k).len() == 0);
    } else {
        lemma_total_split(w.drop_last(), k);
        assert(w.drop_last().take(k) == w.take(k));
        assert(w.skip(k).drop_last() == w.drop_last().skip(k));
        assert(w.skip(k).last() == w.last());
    }
}

pub proof fn lemma_total_bound(w: Seq<TokenReservation>)
    ensures
        total_tokens(w) <= w.len() * (u32::MAX as nat),
    decreases w.len(),
{
    if w.len() > 0 {
        lemma_total_bound(w.drop_last());
        assert((w.len() - 1) * (u32::MAX as nat) + u32::MAX as nat == w.len() * (u32::MAX as nat))
            by (nonlinear_arith);
    }
}

/// Evicting never adds tokens.
pub proof fn lemma_total_evicted(w: Seq<TokenReservation>, now: u64)
    ensures
        total_tokens(rate_window::evicted(w, now)) <= total_tokens(w),
{
    rate_window::lemma_leading_expired_bound(w, now);
    lemma_total_split(w, rate_window::leading_expired(w, now) as int);
}

pub proof fn lemma_retokened_prefix(w: Seq<TokenReservation>, id: u64, t: u32, j: int)
    requires
        0 <= j <= w.len(),
        forall|k: int| 0 <= k < j ==> (#[trigger] w[k]).id != id,
    ensures
        retokened(w, id, t) == w.take(j) + retokened(w.skip(j), id, t),
    decreases j,
{
    if j > 0 {
        lemma_retokened_prefix(w.drop_first(), id, t, j - 1);
        assert(w.drop_first().take(j - 1) == w.take(j).drop_first());
        assert(w.drop_first().skip(j - 1) == w.skip(j));
        assert(w.take(j) == seq![w[0]] + w.take(j).drop_first());
    } else {
        assert(w.take(0) + w.skip(0) == w);
        assert(w.skip(0) == w);
    }
}

/// A limit on the number of tokens reserved in any 60-second window.
pub struct TpmLimiter {
    window: VecDeque<TokenReservation>,
    limit: u32,
    next_id: u64,
}

/// The state of a `TpmLimiter`.
pub struct TpmView {
    pub window: Seq<TokenReservation>,
    pub limit: u32,
    pub next_id: u64,
}

impl View for TpmLimiter {
    type V = TpmView;

    closed spec fn view(&self) -> TpmView {
        TpmView { window: self.window@, limit: self.limit, next_id: self.next_id }
    }
}

impl TpmLimiter {
    /// The ids of the reservations increase along the window and lie below
    /// the next one to be given, so no id occurs twice.
    pub open spec fn wf(&self) -> bool {
        rate_window::window_ok(self@.window, self@.next_id)
    }

    pub fn new(limit: u32) -> (r: Self)
        ensures
            r@.window == Seq::<TokenReservation>::empty(),
            r@.limit == limit,
            r@.next_id == 0,
            r.wf(),
    {
        TpmLimiter { window: VecDeque::new(), limit, next_id: 0 }
    }

    /// The id the next reservation will get.
    pub fn next_reservation_id(&self) -> (r: u64)
        ensures
            r == self@.next_id,
    {
        self.next_id
    }

    /// Gives back the reservation with id `id`.
    pub fn cancel_reservation(&mut self, id: u64)
        requires
            old(self).wf(),
        ensures
            final(self)@.window == rate_window::remove_ident(old(self)@.window, id),
            final(self)@.limit == old(self)@.limit,
            final(self)@.next_id == old(self)@.next_id,
            final(self).wf(),
    {
        proof {
            rate_window::lemma_window_ok_preserved(self.window@, self.next_id, 0, id);
        }
        remove_by_ident(&mut self.window, id);
    }

    /// Drops the reservations that have left the window.
    pub fn evict(&mut self, now: u64)
        requires
            old(self).wf(),
        ensures
            final(self)@.window == rate_window::evicted(old(self)@.window, now),
            final(self)@.limit == old(self)@.limit,
            final(self)@.next_id == old(self)@.next_id,
            final(self).wf(),
    {
        proof {
            rate_window::lemma_window_ok_preserved(self.window@, self.next_id, now, 0);
        }
        evict(&mut self.window, now);
    }

    /// The tokens reserved in the window, computed without overflow.
    pub fn total_tokens(&self) -> (r: u128)
        ensures
            r == total_tokens(self@.window),
    {
        proof {
            lemma_total_bound(self.window@);
        }
        let n = self.window.len();
        let mut acc: u128 = 0;
        let mut i: usize = 0;
        while i < n
            invariant
                n == self.window@.len(),
                0 <= i <= n,
                acc == total_tokens(self.window@.take(i as int)),
                total_tokens(self.window@) <= n * (u32::MAX as nat),
            decreases n - i,
        {
            proof {
                let w = self.window@;
                assert(w.take(i + 1).drop_last() == w.take(i as int));
                lemma_total_split(w, i + 1);
                assert(w.take(i as int).len() == i);
                lemma_total_bound(w.take(i as int));
                assert(i * (u32::MAX as nat) + u32::MAX as nat <= n * (u32::MAX as nat))
                    by (nonlinear_arith)
                    requires
                        i < n,
                ;
                assert(n * (u32::MAX as nat) <= usize::MAX as nat * (u32::MAX as nat))
                    by (nonlinear_arith)
                    requires
                        n <= usize::MAX,
                ;
            }
            acc = acc + self.window[i].tokens as u128;
            i = i + 1;
        }
        assert(self.window@.take(n as int) == self.window@);
        acc
    }

    /// The tokens reserved in the window.
    pub fn current_tokens(&self) -> (r: u32)
        requires
            total_tokens(self@.window) <= u32::MAX,
        ensures
            r == total_tokens(self@.window),
    {
        let t = self.total_tokens();
        t as u32
    }

    /// Tries to reserve `tokens_with_buffer` tokens now (the caller adds the
    /// safety margin). On success returns `(None, Some(id))`; on rejection
    /// `(Some(wait), None)`, where `wait` is the time until enough of the
    /// window has left it.
    pub fn try_reserve(&mut self, tokens_with_buffer: u32, now: u64) -> (r: (
        Option<u64>,
        Option<u64>,
    ))
        requires
            old(self).wf(),
            old(self)@.next_id < u64::MAX,
            total_tokens(old(self)@.window) + tokens_with_buffer <= u32::MAX,
        ensures
            final(self).wf(),
            final(self)@.limit == old(self)@.limit,
            ({
                let ev = rate_window::evicted(old(self)@.window, now);
                let cur = total_tokens(ev);
                if cur + tokens_with_buffer <= old(self)@.limit {
                    &&& r == (None::<u64>, Some(old(self)@.next_id))
                    &&& final(self)@.window == ev.push(
                        TokenReservation { at: now, tokens: tokens_with_buffer, id: old(self)@.next_id },
                    )
                    &&& final(self)@.next_id == old(self)@.next_id + 1
                    &&& total_tokens(final(self)@.window) <= final(self)@.limit
                } else {
                    &&& r == (Some(tpm_wait(ev, cur + tokens_with_buffer - old(self)@.limit, 0, now)), None::<u64>)
                    &&& final(self)@.window == ev
                    &&& final(self)@.next_id == old(self)@.next_id
                }
            }),
    {
        proof {
            lemma_total_evicted(self.window@, now);
        }
        self.evict(now);
        let current = self.current_tokens();
        if current + tokens_with_buffer <= self.limit {
            let id = self.next_id;
            proof {
                rate_window::lemma_window_ok_push(
                    self.window@,
                    self.next_id,
                    TokenReservation { at: now, tokens: tokens_with_buffer, id },
                );
            }
            self.next_id = self.next_id + 1;
            let ghost before = self.window@;
            self.window.push_back(TokenReservation { at: now, tokens: tokens_with_buffer, id });
            proof {
                assert(self.window@.drop_last() == before);
            }
            return (None, Some(id));
        }
        let mut freed: u32 = 0;
        let needed: u32 = (current + tokens_with_buffer) - self.limit;
        let n = self.window.len();
        let mut i: usize = 0;
        let ghost w = self.window@;
        assert(w.skip(0) == w);
        assert(w.take(0).len() == 0);
        while i < n
            invariant
                w == self.window@,
                w == rate_window::evicted(old(self)@.window, now),
                self.wf(),
                self@.limit == old(self)@.limit,
                self@.next_id == old(self)@.next_id,
                current + tokens_with_buffer > self@.limit,
                needed == current + tokens_with_buffer - self@.limit,
                n == w.len(),
                0 <= i <= n,
                freed == total_tokens(w.take(i as int)),
                freed < needed,
                total_tokens(w) == current,
                tpm_wait(w, needed as int, 0, now) == tpm_wait(w.skip(i as int), needed as int, freed as int, now),
            decreases n - i,
        {
            let entry = self.window[i];
            proof {
                assert(w.take(i + 1).drop_last() == w.take(i as int));
                lemma_total_split(w, i + 1);
                assert(w.skip(i as int)[0] == w[i as int]);
                assert(w.skip(i as int).drop_first() == w.skip(i + 1));
            }
            freed = freed + entry.tokens;
            if freed >= needed {
                let e = elapsed_exec(entry.at, now);
                if e < WINDOW_NS {
                    return (Some(WINDOW_NS - e), None);
                }
                return (Some(WINDOW_NS), None);
            }
            i = i + 1;
        }
        assert(w.skip(n as int).len() == 0);
        (Some(WINDOW_NS), None)
    }

    /// Replaces the tokens of the reservation with id `id` by the tokens
    /// actually used.
    pub fn adjust_reservation(&mut self, id: u64, actual: u32)
        requires
            old(self).wf(),
        ensures
            final(self)@.window == retokened(old(self)@.window, id, actual),
            final(self)@.limit == old(self)@.limit,
            final(self)@.next_id == old(self)@.next_id,
            final(self).wf(),
    {
        let ghost orig = self.window@;
        match position_of_ident(&self.window, id) {
            Some(j) => {
                let e = self.window[j];
                let _ = self.window.remove(j);
                self.window.insert(j, TokenReservation { at: e.at, tokens: actual, id: e.id });
                proof {
                    lemma_retokened_prefix(orig, id, actual, j as int);
                    let s = orig.skip(j as int);
                    assert(s[0] == orig[j as int]);
                    assert(retokened(s, id, actual) == s.update(0, TokenReservation { at: e.at, tokens: actual, id }));
                    assert(self.window@ == orig.update(j as int, TokenReservation { at: e.at, tokens: actual, id }));
                    assert(orig.take(j as int) + s.update(0, TokenReservation { at: e.at, tokens: actual, id })
                        == orig.update(j as int, TokenReservation { at: e.at, tokens: actual, id }));
                    let w = self.window@;
                    assert forall|i: int| 0 <= i < w.len() implies (#[trigger] w[i]).ident()
                        == orig[i].ident() by {
                        if i != j {
                            assert(w[i] == orig[i]);
                        }
                    }
                    assert forall|i: int| 0 <= i < w.len() implies (#[trigger] w[i]).ident()
                        < self.next_id by {
                        assert(w[i].ident() == orig[i].ident());
                    }
                    assert forall|a: int, b: int| 0 <= a < b < w.len() implies (#[trigger] w[a]).ident()
                        < (#[trigger] w[b]).ident() by {
                        assert(w[a].ident() == orig[a].ident() && w[b].ident() == orig[b].ident());
                    }
                }
            },
            None => {
                proof {
                    let n = orig.len();
                    lemma_retokened_prefix(orig, id, actual, n as int);
                    assert(orig.take(n as int) == orig);
                    assert(orig.skip(n as int).len() == 0);
                }
            },
        }
    }
}

// ---------------------------------------------------------------------------
// Laws of the two windows
// ---------------------------------------------------------------------------
/// Cancelling the request just committed gives back exactly its slot: the
/// window is as it was before the commit, and only the next id has moved on.
pub proof fn law_cancel_undoes_commit(v: SlidingWindowView, now: u64)
    requires
        rate_window::idents_below(v.window, v.next_id),
        v.next_id < u64::MAX,
    ensures
        cancelled(committed(v, now), v.next_id) == (SlidingWindowView {
            next_id: (v.next_id + 1) as u64,
            ..v
        }),
{
    rate_window::lemma_remove_pushed(v.window, RequestStamp { at: now, id: v.next_id });
}

/// In a well-kept window a cancelled id is gone: no request left in the
/// window has it, and the ids still increase.
pub proof fn law_cancelled_id_is_gone(v: SlidingWindowView, id: u64)
    requires
        rate_window::window_ok(v.window, v.next_id),
    ensures
        forall|k: int| 0 <= k < cancelled(v, id).window.len() ==> (#[trigger] cancelled(v, id).window[k]).id != id,
        rate_window::window_ok(cancelled(v, id).window, v.next_id),
{
    rate_window::lemma_removed_increasing(v.window, id);
    rate_window::lemma_window_ok_preserved(v.window, v.next_id, 0, id);
    let w = cancelled(v, id).window;
    assert forall|k: int| 0 <= k < w.len() implies (#[trigger] w[k]).id != id by {
        assert(w[k].ident() != id);
    }
}

/// Cancelling an id that is not in the window changes nothing.
pub proof fn law_cancel_unknown_id_is_harmless(v: SlidingWindowView, id: u64)
    requires
        forall|i: int| 0 <= i < v.window.len() ==> (#[trigger] v.window[i]).id != id,
    ensures
        cancelled(v, id) == v,
{
    assert forall|i: int| 0 <= i < v.window.len() implies (#[trigger] v.window[i]).ident() != id by {}
    rate_window::lemma_remove_absent(v.window, id);
}

/// From a new limiter, committed requests get the ids 0, 1, 2, … in order:
/// after `k` commits the window holds them with their times, and the next
/// id is `k`.
pub proof fn law_commit_ids_count_up(limit: u32, default_wait_minutes: u32, nows: Seq<u64>)
    requires
        nows.len() <= u64::MAX,
    ensures
        ({
            let v = committed_all(
                SlidingWindowView {
                    window: Seq::empty(),
                    limit,
                    default_wait_minutes,
                    next_id: 0,
                },
                nows,
            );
            &&& v.next_id == nows.len()
            &&& v.window.len() == nows.len()
            &&& forall|i: int| 0 <= i < nows.len() ==> v.window[i] == (RequestStamp { at: nows[i], id: i as u64 })
            &&& v.limit == limit && v.default_wait_minutes == default_wait_minutes
        }),
    decreases nows.len(),
{
    if nows.len() > 0 {
        law_commit_ids_count_up(limit, default_wait_minutes, nows.drop_last());
    }
}

/// One admission round on the request window at `now`: during a blackout
/// the window is left as it is; otherwise it drops the requests that have
/// left it, and the new request joins it when there is room and the token
/// window takes it too (`tokens_fit`). The flag says whether it joined.
pub open spec fn rpm_round(v: SlidingWindowView, now: u64, blackout: bool, tokens_fit: bool) -> (
    SlidingWindowView,
    bool,
) {
    if blackout {
        (v, false)
    } else {
        let e = SlidingWindowView {
            window: rate_window::evicted(v.window, now),
            limit: v.limit,
            default_wait_minutes: v.default_wait_minutes,
            next_id: v.next_id,
        };
        if e.window.len() < v.limit && tokens_fit {
            (committed(e, now), true)
        } else {
            (e, false)
        }
    }
}

/// Admission rounds `(now, blackout, tokens_fit)` in order from `v`: the
/// request window after them, and the entries of the requests admitted.
pub open spec fn rpm_run(v: SlidingWindowView, rounds: Seq<(u64, bool, bool)>) -> (
    SlidingWindowView,
    Seq<RequestStamp>,
)
    decreases rounds.len(),
{
    if rounds.len() == 0 {
        (v, Seq::empty())
    } else {
        let prev = rpm_run(v, rounds.drop_last());
        let r = rounds.last();
        let step = rpm_round(prev.0, r.0, r.1, r.2);
        (
            step.0,
            if step.1 {
                prev.1.push(RequestStamp { at: r.0, id: prev.0.next_id })
            } else {
                prev.1
            },
        )
    }
}

/// The times of the rounds never go back.
pub open spec fn rounds_in_time_order(rounds: Seq<(u64, bool, bool)>) -> bool {
    forall|i: int, j: int| 0 <= i <= j < rounds.len() ==> rounds[i].0 <= rounds[j].0
}

/// The window holds the admitted requests from index `k` on; those before
/// `k` have all left the window by the last round.
proof fn lemma_rpm_run(v: SlidingWindowView, rounds: Seq<(u64, bool, bool)>) -> (k: int)
    requires
        v.window.len() == 0,
        rounds_in_time_order(rounds),
    ensures
        0 <= k <= rpm_run(v, rounds).1.len(),
        rpm_run(v, rounds).0.window == rpm_run(v, rounds).1.skip(k),
        rpm_run(v, rounds).0.limit == v.limit,
        rounds.len() > 0 ==> forall|i: int|
            0 <= i < k ==> rate_window::expired(
                #[trigger] rpm_run(v, rounds).1[i].at,
                rounds.last().0,
            ),
        forall|i: int|
            0 <= i && i + v.limit < rpm_run(v, rounds).1.len() ==> rate_window::elapsed(
                #[trigger] rpm_run(v, rounds).1[i].at,
                rpm_run(v, rounds).1[i + v.limit].at,
            ) >= WINDOW_NS,
    decreases rounds.len(),
{
    if rounds.len() == 0 {
        assert(v.window == Seq::<RequestStamp>::empty().skip(0));
        0
    } else {
        let prev_rounds = rounds.drop_last();
        assert(rounds_in_time_order(prev_rounds)) by {
            assert forall|i: int, j: int| 0 <= i <= j < prev_rounds.len() implies prev_rounds[i].0
                <= prev_rounds[j].0 by {
                assert(prev_rounds[i] == rounds[i] && prev_rounds[j] == rounds[j]);
            }
        }
        let k0 = lemma_rpm_run(v, prev_rounds);
        let pv = rpm_run(v, prev_rounds).0;
        let g = rpm_run(v, prev_rounds).1;
        let now = rounds.last().0;
        assert forall|i: int| 0 <= i < k0 implies rate_window::expired(#[trigger] g[i].at, now) by {
            assert(prev_rounds.len() > 0);
            assert(prev_rounds.last() == rounds[rounds.len() - 2]);
            assert(prev_rounds.last().0 <= now);
        }
        if rounds.last().1 {
            assert(rpm_run(v, rounds).1 == g);
            k0
        } else {
            let w = pv.window;
            let m = rate_window::leading_expired(w, now) as int;
            rate_window::lemma_leading_expired_bound(w, now);
            rate_window::lemma_leading_all_expired(w, now);
            let k1 = k0 + m;
            assert forall|i: int| 0 <= i < k1 implies rate_window::expired(#[trigger] g[i].at, now) by {
                if i >= k0 {
                    assert(g[i] == w[i - k0]);
                    assert(rate_window::expired(w[i - k0].stamp(), now));
                }
            }
            let ev = rate_window::evicted(w, now);
            assert(ev =~= g.skip(k1));
            if ev.len() < v.limit && rounds.last().2 {
                let e = RequestStamp { at: now, id: pv.next_id };
                let g2 = g.push(e);
                assert(rpm_run(v, rounds).1 == g2);
                assert(ev.push(e) =~= g2.skip(k1));
                assert forall|i: int| 0 <= i < k1 implies rate_window::expired(#[trigger] g2[i].at, now) by {
                    assert(g2[i] == g[i]);
                }
                assert forall|i: int| 0 <= i && i + v.limit < g2.len() implies rate_window::elapsed(
                    #[trigger] g2[i].at,
                    g2[i + v.limit].at,
                ) >= WINDOW_NS by {
                    if i + v.limit < g.len() {
                        assert(g2[i] == g[i] && g2[i + v.limit] == g[i + v.limit]);
                    } else {
                        assert(g2[i] == g[i]);
                        assert(g2[i + v.limit] == e);
                    }
                }
            } else {
                assert(rpm_run(v, rounds).1 == g);
            }
            k1
        }
    }
}

/// Over any rounds of admission at times that never go back, from an empty
/// request window with room for `limit` requests a minute, and with no slot
/// given back in between (as after a rate-limit answer): the `limit + 1`-th
/// request admitted after any admitted request comes at least a minute
/// after it, so no 60-second span holds more than `limit` of them.
pub proof fn law_requests_per_minute_bounded(v: SlidingWindowView, rounds: Seq<(u64, bool, bool)>)
    requires
        v.window.len() == 0,
        rounds_in_time_order(rounds),
    ensures
        forall|i: int|
            0 <= i && i + v.limit < rpm_run(v, rounds).1.len() ==> rate_window::elapsed(
                #[trigger] rpm_run(v, rounds).1[i].at,
                rpm_run(v, rounds).1[i + v.limit].at,
            ) >= WINDOW_NS,
{
    lemma_rpm_run(v, rounds);
}

/// Cancelling the reservation just made gives back exactly its tokens: the
/// window is as it was before the reservation.
pub proof fn law_cancel_undoes_reservation(
    window: Seq<TokenReservation>,
    next_id: u64,
    now: u64,
    tokens: u32,
)
    requires
        rate_window::idents_below(window, next_id),
    ensures
        rate_window::remove_ident(
            window.push(TokenReservation { at: now, tokens, id: next_id }),
            next_id,
        ) == window,
        total_tokens(
            rate_window::remove_ident(
                window.push(TokenReservation { at: now, tokens, id: next_id }),
                next_id,
            ),
        ) == total_tokens(window),
{
    rate_window::lemma_remove_pushed(window, TokenReservation { at: now, tokens, id: next_id });
}

/// A rejected reservation never asks to wait longer than one window, nor
/// for no time at all.
pub proof fn law_tpm_wait_bounded(w: Seq<TokenReservation>, needed: int, freed: int, now: u64)
    ensures
        0 < tpm_wait(w, needed, freed, now) <= WINDOW_NS,
    decreases w.len(),
{
    if w.len() > 0 {
        let f = freed + w[0].tokens;
        if f < needed {
            law_tpm_wait_bounded(w.drop_first(), needed, f, now);
        }
    }
}

/// Eviction only drops entries: the window never grows by it.
pub proof fn law_eviction_never_grows<T: rate_window::Stamped>(w: Seq<T>, now: u64)
    ensures
        rate_window::evicted(w, now).len() <= w.len(),
{
    rate_window::lemma_leading_expired_bound(w, now);
}

/// A request admitted by the check keeps the window within the limit: after
/// it is committed, at most `limit` requests are in the last minute.
pub proof fn law_admitted_request_fits(window: Seq<RequestStamp>, limit: u32, now: u64, stamp: RequestStamp)
    requires
        rpm_check_outcome(rate_window::evicted(window, now), limit, now) == Some(None::<u64>),
    ensures
        rate_window::evicted(window, now).push(stamp).len() <= limit,
{
}

/// A declared blackout never ends earlier than the one already in force.
pub proof fn law_blackout_only_extends(until: Option<u128>, minutes: u32, now: u64)
    ensures
        until matches Some(u) ==> (extended_blackout(until, minutes, now) matches Some(v) && v >= u
            && v >= now + minutes * 60_000_000_000int),
        until is None && minutes > 0 ==> extended_blackout(until, minutes, now) == Some(
            (now + minutes * 60_000_000_000int) as u128,
        ),
        until is None && minutes == 0 ==> extended_blackout(until, minutes, now) is None,
{
}

// ---------------------------------------------------------------------------
// Per-model admission
// ---------------------------------------------------------------------------
/// The admission state of one model: its two windows and the end of the
/// current blackout, if any.
pub struct ModelState {
    pub limiter: SlidingWindowLimiter,
    pub tpm: TpmLimiter,
    pub blackout_until: Option<u128>,
}

/// What the admission check decided: go ahead with the two reservation ids,
/// or wait the given number of nanoseconds and ask again.
#[derive(PartialEq, Eq, Structural, Clone, Copy, Debug)]
pub enum Acquire {
    Granted { rpm_id: u64, tpm_id: u64 },
    Wait(u128),
}

/// The time left in a blackout ending at `until`, if it has not ended by `now`.
pub open spec fn blackout_remaining(until: Option<u128>, now: u64) -> Option<u128> {
    match until {
        Some(u) => if u > now {
            Some((u - now) as u128)
        } else {
            None
        },
        None => None,
    }
}

/// The end of the blackout after one of `minutes` is declared at `now`: the
/// later of the new deadline and the current end (an ended blackout counts
/// as ending now).
pub open spec fn extended_blackout(until: Option<u128>, minutes: u32, now: u64) -> Option<u128> {
    let deadline = now + minutes * 60_000_000_000int;
    let current = match until {
        Some(u) => u as int,
        None => now as int,
    };
    if deadline > current {
        Some(deadline as u128)
    } else {
        until
    }
}

impl ModelState {
    pub open spec fn wf(&self) -> bool {
        self.limiter.wf() && self.tpm.wf()
    }

    /// A model with empty windows and no blackout.
    pub fn new(rpm_limit: u32, default_wait_minutes: u32, tpm_limit: u32) -> (r: Self)
        ensures
            r.wf(),
            r.limiter@.window.len() == 0,
            r.limiter@.limit == rpm_limit,
            r.limiter@.default_wait_minutes == default_wait_minutes,
            r.tpm@.window.len() == 0,
            r.tpm@.limit == tpm_limit,
            r.blackout_until is None,
    {
        ModelState {
            limiter: SlidingWindowLimiter::new(rpm_limit, default_wait_minutes),
            tpm: TpmLimiter::new(tpm_limit),
            blackout_until: None,
        }
    }

    /// The time left in the current blackout, if one is in force.
    pub fn check_blackout(&self, now: u64) -> (r: Option<u128>)
        ensures
            r == blackout_remaining(self.blackout_until, now),
    {
        match self.blackout_until {
            Some(until) => if until > now as u128 {
                Some(until - now as u128)
            } else {
                None
            },
            None => None,
        }
    }

    /// Declares a blackout of `minutes` from now, unless one already in
    /// force lasts longer.
    pub fn set_blackout(&mut self, minutes: u32, now: u64)
        ensures
            final(self).blackout_until == extended_blackout(old(self).blackout_until, minutes, now),
            final(self).limiter == old(self).limiter,
            final(self).tpm == old(self).tpm,
    {
        let deadline: u128 = now as u128 + (minutes as u128) * 60_000_000_000u128;
        let current: u128 = match self.blackout_until {
            Some(u) => u,
            None => now as u128,
        };
        if deadline > current {
            self.blackout_until = Some(deadline);
        }
    }

    /// One round of admission for a request expected to use
    /// `tokens_with_buffer` tokens: blackout first, then the request window,
    /// then the token window. Only when both windows admit it are both
    /// reservations made.
    pub fn try_acquire(&mut self, source: &str, tokens_with_buffer: u32, now: u64) -> (r: Result<
        Acquire,
        AppError,
    >)
        requires
            old(self).wf(),
            old(self).limiter@.next_id < u64::MAX,
            old(self).tpm@.next_id < u64::MAX,
            total_tokens(old(self).tpm@.window) + tokens_with_buffer <= u32::MAX,
        ensures
            final(self).wf(),
            final(self).blackout_until == old(self).blackout_until,
            final(self).limiter@.limit == old(self).limiter@.limit,
            final(self).limiter@.default_wait_minutes == old(self).limiter@.default_wait_minutes,
            final(self).tpm@.limit == old(self).tpm@.limit,
            ({
                let round = rpm_round(
                    old(self).limiter@,
                    now,
                    blackout_remaining(old(self).blackout_until, now) is Some,
                    total_tokens(rate_window::evicted(old(self).tpm@.window, now)) + tokens_with_buffer
                        <= old(self).tpm@.limit,
                );
                final(self).limiter@ == round.0 && (r matches Ok(Acquire::Granted { .. })) == round.1
            }),
            r matches Ok(Acquire::Granted { .. }) ==> final(self).limiter@.window.len()
                <= final(self).limiter@.limit && total_tokens(final(self).tpm@.window)
                <= final(self).tpm@.limit,
            match blackout_remaining(old(self).blackout_until, now) {
                Some(d) => {
                    &&& r == Ok::<Acquire, AppError>(Acquire::Wait(d))
                    &&& final(self).limiter@ == old(self).limiter@
                    &&& final(self).tpm@ == old(self).tpm@
                },
                None => {
                    let ev = rate_window::evicted(old(self).limiter@.window, now);
                    match rpm_check_outcome(ev, old(self).limiter@.limit, now) {
                        None => {
                            &&& r matches Err(AppError::RateLimitError { message, retry_after_minutes })
                            &&& message@ == source@
                            &&& retry_after_minutes == old(self).limiter@.default_wait_minutes
                            &&& final(self).limiter@.window == ev
                            &&& final(self).limiter@.next_id == old(self).limiter@.next_id
                            &&& final(self).tpm@ == old(self).tpm@
                        },
                        Some(Some(d)) => {
                            &&& r == Ok::<Acquire, AppError>(Acquire::Wait(d as u128))
                            &&& final(self).limiter@.window == ev
                            &&& final(self).limiter@.next_id == old(self).limiter@.next_id
                            &&& final(self).tpm@ == old(self).tpm@
                        },
                        Some(None) => {
                            let tev = rate_window::evicted(old(self).tpm@.window, now);
                            let cur = total_tokens(tev);
                            if cur + tokens_with_buffer <= old(self).tpm@.limit {
                                &&& r == Ok::<Acquire, AppError>(
                                    Acquire::Granted {
                                        rpm_id: old(self).limiter@.next_id,
                                        tpm_id: old(self).tpm@.next_id,
                                    },
                                )
                                &&& final(self).limiter@.window == ev.push(
                                    RequestStamp { at: now, id: old(self).limiter@.next_id },
                                )
                                &&& final(self).limiter@.next_id == old(self).limiter@.next_id + 1
                                &&& final(self).tpm@.window == tev.push(
                                    TokenReservation {
                                        at: now,
                                        tokens: tokens_with_buffer,
                                        id: old(self).tpm@.next_id,
                                    },
                                )
                                &&& final(self).tpm@.next_id == old(self).tpm@.next_id + 1
                            } else {
                                &&& r == Ok::<Acquire, AppError>(
                                    Acquire::Wait(
                                        tpm_wait(
                                            tev,
                                            cur + tokens_with_buffer - old(self).tpm@.limit,
                                            0,
                                            now,
                                        ) as u128,
                                    ),
                                )
                                &&& final(self).limiter@.window == ev
                                &&& final(self).limiter@.next_id == old(self).limiter@.next_id
                                &&& final(self).tpm@.window == tev
                                &&& final(self).tpm@.next_id == old(self).tpm@.next_id
                            }
                        },
                    }
                },
            },
    {
        if let Some(wait) = self.check_blackout(now) {
            return Ok(Acquire::Wait(wait));
        }
        match self.limiter.check(source, now)? {
            Some(d) => Ok(Acquire::Wait(d as u128)),
            None => {
                match self.tpm.try_reserve(tokens_with_buffer, now) {
                    (None, Some(tpm_id)) => {
                        let rpm_id = self.limiter.commit(now);
                        Ok(Acquire::Granted { rpm_id, tpm_id })
                    },
                    (Some(wait), _) => Ok(Acquire::Wait(wait as u128)),
                    (None, None) => Ok(Acquire::Wait(WINDOW_NS as u128)),
                }
            },
        }
    }

    /// After the API answered with a rate limit: gives back both
    /// reservations and declares a blackout of `minutes`.
    pub fn release_after_rate_limit(&mut self, rpm_id: u64, tpm_id: u64, minutes: u32, now: u64)
        requires
            old(self).wf(),
        ensures
            final(self).wf(),
            final(self).limiter@.window == rate_window::remove_ident(
                old(self).limiter@.window,
                rpm_id,
            ),
            final(self).limiter@.next_id == old(self).limiter@.next_id,
            final(self).limiter@.limit == old(self).limiter@.limit,
            final(self).tpm@.window == rate_window::remove_ident(old(self).tpm@.window, tpm_id),
            final(self).tpm@.next_id == old(self).tpm@.next_id,
            final(self).tpm@.limit == old(self).tpm@.limit,
            final(self).blackout_until == extended_blackout(old(self).blackout_until, minutes, now),
    {
        self.limiter.cancel(rpm_id);
        self.tpm.cancel_reservation(tpm_id);
        self.set_blackout(minutes, now);
    }

    /// After a successful call: the token reservation is corrected to the
    /// tokens the API reports as used.
    pub fn record_usage(&mut self, tpm_id: u64, usage: ModelUsage)
        requires
            old(self).wf(),
            usage.input_tokens + usage.output_tokens <= u32::MAX,
        ensures
            final(self).wf(),
            final(self).limiter@ == old(self).limiter@,
            final(self).tpm@.window == retokened(
                old(self).tpm@.window,
                tpm_id,
                (usage.input_tokens + usage.output_tokens) as u32,
            ),
            final(self).tpm@.next_id == old(self).tpm@.next_id,
            final(self).tpm@.limit == old(self).tpm@.limit,
            final(self).blackout_until == old(self).blackout_until,
    {
        let actual_total = usage.input_tokens + usage.output_tokens;
        self.tpm.adjust_reservation(tpm_id, actual_total);
    }
}

/// The state of the model serving `tier`.
pub fn state_for<'a>(tier: ModelTier, lite: &'a ModelState, pro: &'a ModelState) -> (r:
    &'a ModelState)
    ensures
        tier == ModelTier::Lite ==> r == lite,
        tier == ModelTier::Pro ==> r == pro,
{
    match tier {
        ModelTier::Lite => lite,
        ModelTier::Pro => pro,
    }
}

// ---------------------------------------------------------------------------
// Interpreting the API's answers
// ---------------------------------------------------------------------------
/// A lowercased message speaks of rate limiting.
pub open spec fn speaks_of_rate_limit(lower: Seq<char>) -> bool {
    ||| text::contains_seq(lower, "rate limit"@)
    ||| text::contains_seq(lower, "quota"@)
    ||| text::contains_seq(lower, "too many requests"@)
    ||| text::contains_seq(lower, "resource exhausted"@)
}

/// A lowercased message speaks of rate limiting exactly when it contains
/// "rate limit", "quota", "too many requests" or "resource exhausted".
pub proof fn law_rate_limit_phrases(lower: Seq<char>)
    ensures
        text::contains_seq(lower, "rate limit"@) ==> speaks_of_rate_limit(lower),
        text::contains_seq(lower, "quota"@) ==> speaks_of_rate_limit(lower),
        text::contains_seq(lower, "too many requests"@) ==> speaks_of_rate_limit(lower),
        text::contains_seq(lower, "resource exhausted"@) ==> speaks_of_rate_limit(lower),
        speaks_of_rate_limit(lower) ==> {
            ||| text::contains_seq(lower, "rate limit"@)
            ||| text::contains_seq(lower, "quota"@)
            ||| text::contains_seq(lower, "too many requests"@)
            ||| text::contains_seq(lower, "resource exhausted"@)
        },
{
}

/// Whether an already lowercased message speaks of rate limiting.
pub fn mentions_rate_limit(lower: &str) -> (r: bool)
    ensures
        r == speaks_of_rate_limit(lower@),
{
    let v = chars_of(lower);
    contains_str(&v, "rate limit") || contains_str(&v, "quota") || contains_str(
        &v,
        "too many requests",
    ) || contains_str(&v, "resource exhausted")
}

/// Whether an API error message speaks of rate limiting, in any letter case.
pub fn is_rate_limit_message(message: &str) -> (r: bool)
    ensures
        r == speaks_of_rate_limit(text::lowercase(message@)),
{
    let lower = to_lowercase(message);
    mentions_rate_limit(lower.as_str())
}

/// The content of a choice's message.
pub struct ChoiceMessage {
    pub content: Option<String>,
}

/// One completion choice.
pub struct Choice {
    pub message: Option<ChoiceMessage>,
}

/// The token counts the API reports.
pub struct GroqUsage {
    pub prompt_tokens: Option<u32>,
    pub completion_tokens: Option<u32>,
}

/// An error the API reports in its body; `code` is the error code when the
/// API gives it as a string.
pub struct GroqApiError {
    pub message: Option<String>,
    pub code: Option<String>,
}

/// The body of a chat-completion answer.
pub struct GroqApiResponse {
    pub choices: Option<Vec<Choice>>,
    pub usage: Option<GroqUsage>,
    pub error: Option<GroqApiError>,
}

/// An error code speaks of rate limiting.
pub open spec fn code_speaks_of_rate_limit(code: Seq<char>) -> bool {
    text::contains_seq(code, "rate_limit"@) || text::contains_seq(code, "quota"@)
}

/// An error reported in the body is a rate limit.
pub open spec fn api_error_is_rate_limit(e: GroqApiError) -> bool {
    (e.code matches Some(c) && code_speaks_of_rate_limit(c@)) || (e.message matches Some(m)
        && speaks_of_rate_limit(text::lowercase(m@)))
}

/// The content of the first choice, when there is one.
pub open spec fn first_content(choices: Option<Vec<Choice>>) -> Option<Seq<char>> {
    match choices {
        Some(v) => if v@.len() > 0 {
            match v@[0].message {
                Some(m) => match m.content {
                    Some(c) => Some(c@),
                    None => None,
                },
                None => None,
            }
        } else {
            None
        },
        None => None,
    }
}

/// The usage the API reports, with missing counts taken as zero.
pub open spec fn reported_usage(u: Option<GroqUsage>) -> ModelUsage {
    match u {
        Some(u) => ModelUsage {
            input_tokens: match u.prompt_tokens {
                Some(t) => t,
                None => 0,
            },
            output_tokens: match u.completion_tokens {
                Some(t) => t,
                None => 0,
            },
        },
        None => ModelUsage { input_tokens: 0, output_tokens: 0 },
    }
}

/// Whether an error reported in the body is a rate limit.
pub fn is_api_error_rate_limit(e: &GroqApiError) -> (r: bool)
    ensures
        r == api_error_is_rate_limit(*e),
{
    let by_code = match &e.code {
        Some(c) => {
            let v = chars_of(c.as_str());
            contains_str(&v, "rate_limit") || contains_str(&v, "quota")
        },
        None => false,
    };
    by_code || match &e.message {
        Some(m) => is_rate_limit_message(m.as_str()),
        None => false,
    }
}

/// The text and usage of a successful completion, or the error the body
/// reports: a rate limit (one minute), the reported message, or the absence
/// of any content.
pub fn interpret_completion(resp: GroqApiResponse) -> (r: Result<(String, ModelUsage), AppError>)
    ensures
        match resp.error {
            Some(e) => if api_error_is_rate_limit(e) {
                r matches Err(AppError::RateLimitError { message, retry_after_minutes })
                    && message@ == "Groq"@ && retry_after_minutes
                    == GROQ_RATE_LIMIT_DEFAULT_WAIT_MINUTES
            } else {
                r matches Err(AppError::InternalServerError(m)) && m@ == (match e.message {
                    Some(msg) => msg@,
                    None => "Unknown Groq error"@,
                })
            },
            None => match first_content(resp.choices) {
                Some(c) => r matches Ok((t, u)) && t@ == c && u == reported_usage(resp.usage),
                None => r matches Err(AppError::InternalServerError(m)) && m@
                    == "Groq returned no content"@,
            },
        },
{
    if let Some(err) = &resp.error {
        if is_api_error_rate_limit(err) {
            return Err(
                AppError::RateLimitError {
                    message: String::from_str("Groq"),
                    retry_after_minutes: GROQ_RATE_LIMIT_DEFAULT_WAIT_MINUTES,
                },
            );
        }
        return Err(
            AppError::InternalServerError(
                match &err.message {
                    Some(m) => m.clone(),
                    None => String::from_str("Unknown Groq error"),
                },
            ),
        );
    }
    let mut content: Option<String> = None;
    if let Some(choices) = &resp.choices {
        if choices.len() > 0 {
            if let Some(m) = &choices[0].message {
                if let Some(c) = &m.content {
                    content = Some(c.clone());
                }
            }
        }
    }
    match content {
        None => Err(AppError::InternalServerError(String::from_str("Groq returned no content"))),
        Some(text) => {
            let usage = ModelUsage {
                input_tokens: match &resp.usage {
                    Some(u) => match u.prompt_tokens {
                        Some(t) => t,
                        None => 0,
                    },
                    None => 0,
                },
                output_tokens: match &resp.usage {
                    Some(u) => match u.completion_tokens {
                        Some(t) => t,
                        None => 0,
                    },
                    None => 0,
                },
            };
            Ok((text, usage))
        },
    }
}

} // verus!
