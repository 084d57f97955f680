//! Sliding 60-second windows of time-stamped entries, the common ground of
//! the request and token limiters.
//!
//! Times are nanoseconds on a monotonic clock; the caller reads the clock.
use vstd::prelude::*;
use std::collections::VecDeque;

verus! {

/// The length of every rate-limit window: 60 seconds, in nanoseconds.
pub const WINDOW_NS: u64 = 60_000_000_000;

/// The time from `stamp` to `now`, or zero when `stamp` lies after `now`
/// (as `Instant::duration_since` saturates).
pub open spec fn elapsed(stamp: u64, now: u64) -> u64 {
    if now >= stamp {
        (now - stamp) as u64
    } else {
        0
    }
}

/// An entry stamped at `stamp` has left the window at time `now`.
pub open spec fn expired(stamp: u64, now: u64) -> bool {
    elapsed(stamp, now) >= WINDOW_NS
}

/// An entry of a window: a time stamp and a reservation id.
pub trait Stamped: Sized {
    spec fn stamp(&self) -> u64;

    spec fn ident(&self) -> u64;

    fn get_stamp(&self) -> (r: u64)
        ensures
            r == self.stamp(),
    ;

    fn get_ident(&self) -> (r: u64)
        ensures
            r == self.ident(),
    ;
}

/// The number of entries at the front of `w` that have expired at `now`.
pub open spec fn leading_expired<T: Stamped>(w: Seq<T>, now: u64) -> nat
    decreases w.len(),
{
    if w.len() > 0 && expired(w[0].stamp(), now) {
        1 + leading_expired(w.drop_first(), now)
    } else {
        0
    }
}

/// `w` after dropping its expired front entries.
pub open spec fn evicted<T: Stamped>(w: Seq<T>, now: u64) -> Seq<T> {
    w.skip(leading_expired(w, now) as int)
}

/// `w` without its first entry with id `id`, if there is one.
pub open spec fn remove_ident<T: Stamped>(w: Seq<T>, id: u64) -> Seq<T>
    decreases w.len(),
{
    if w.len() == 0 {
        w
    } else if w[0].ident() == id {
        w.drop_first()
    } else {
        seq![w[0]] + remove_ident(w.drop_first(), id)
    }
}

/// Every entry of `w` has an id below `bound`.
pub open spec fn idents_below<T: Stamped>(w: Seq<T>, bound: u64) -> bool {
    forall|i: int| 0 <= i < w.len() ==> (#[trigger] w[i]).ident() < bound
}

pub proof fn lemma_leading_expired_bound<T: Stamped>(w: Seq<T>, now: u64)
    ensures
        leading_expired(w, now) <= w.len(),
    decreases w.len(),
{
    if w.len() > 0 && expired(w[0].stamp(), now) {
        lemma_leading_expired_bound(w.drop_first(), now);
    }
}

/// Removing the expired front entries keeps every remaining entry, and the
/// first one left (if any) has not expired.
pub proof fn lemma_evicted_front<T: Stamped>(w: Seq<T>, now: u64)
    ensures
        evicted(w, now).len() > 0 ==> !expired(evicted(w, now)[0].stamp(), now),
        forall|i: int|
            0 <= i < evicted(w, now).len() ==> #[trigger] evicted(w, now)[i] == w[i
                + leading_expired(w, now)],
    decreases w.len(),
{
    lemma_leading_expired_bound(w, now);
    if w.len() > 0 && expired(w[0].stamp(), now) {
        lemma_evicted_front(w.drop_first(), now);
        assert(w.skip(leading_expired(w, now) as int) == w.drop_first().skip(
            leading_expired(w.drop_first(), now) as int,
        ));
    }
}

/// Every entry counted as leading and expired has expired.
pub proof fn lemma_leading_all_expired<T: Stamped>(w: Seq<T>, now: u64)
    ensures
        forall|j: int| 0 <= j < leading_expired(w, now) ==> expired(#[trigger] w[j].stamp(), now),
    decreases w.len(),
{
    lemma_leading_expired_bound(w, now);
    if w.len() > 0 && expired(w[0].stamp(), now) {
        lemma_leading_all_expired(w.drop_first(), now);
        assert forall|j: int| 0 <= j < leading_expired(w, now) implies expired(
            #[trigger] w[j].stamp(),
            now,
        ) by {
            if j > 0 {
                assert(w[j] == w.drop_first()[j - 1]);
            }
        }
    }
}

/// Removes the expired entries from the front of `w`.
pub fn evict<T: Stamped>(w: &mut VecDeque<T>, now: u64)
    ensures
        final(w)@ == evicted(old(w)@, now),
{
    let ghost orig = w@;
    let ghost mut k: int = 0;
    proof {
        lemma_leading_expired_bound(orig, now);
    }
    while w.len() > 0 && elapsed_exec(w[0].get_stamp(), now) >= WINDOW_NS
        invariant
            0 <= k <= orig.len(),
            w@ == orig.skip(k),
            leading_expired(orig, now) == k + leading_expired(w@, now),
        decreases w@.len(),
    {
        let ghost before = w@;
        let _ = w.pop_front();
        proof {
            assert(w@ == before.drop_first());
            k = k + 1;
            assert(w@ == orig.skip(k));
        }
    }
}

/// `elapsed` as a computation.
pub fn elapsed_exec(stamp: u64, now: u64) -> (r: u64)
    ensures
        r == elapsed(stamp, now),
{
    if now >= stamp {
        now - stamp
    } else {
        0
    }
}

/// Removing an entry whose id differs from `id` can be postponed past it.
pub proof fn lemma_remove_ident_prefix<T: Stamped>(w: Seq<T>, id: u64, j: int)
    requires
        0 <= j <= w.len(),
        forall|k: int| 0 <= k < j ==> (#[trigger] w[k]).ident() != id,
    ensures
        remove_ident(w, id) == w.take(j) + remove_ident(w.skip(j), id),
    decreases j,
{
    if j > 0 {
        lemma_remove_ident_prefix(w.drop_first(), id, j - 1);
        assert(w.drop_first().take(j - 1) == w.take(j).drop_first());
        assert(w.drop_first().skip(j - 1) == w.skip(j));
        assert(w.take(j) == seq![w[0]] + w.take(j).drop_first());
    } else {
        assert(w.take(0) + w.skip(0) == w);
        assert(w.skip(0) == w);
    }
}

/// The position of the first entry of `w` with id `id`, if any.
pub fn position_of_ident<T: Stamped>(w: &VecDeque<T>, id: u64) -> (r: Option<usize>)
    ensures
        match r {
            Some(j) => j < w@.len() && w@[j as int].ident() == id && forall|k: int|
                0 <= k < j ==> (#[trigger] w@[k]).ident() != id,
            None => forall|k: int| 0 <= k < w@.len() ==> (#[trigger] w@[k]).ident() != id,
        },
{
    let n = w.len();
    let mut j: usize = 0;
    while j < n
        invariant
            n == w@.len(),
            0 <= j <= n,
            forall|k: int| 0 <= k < j ==> (#[trigger] w@[k]).ident() != id,
        decreases n - j,
    {
        if w[j].get_ident() == id {
            return Some(j);
        }
        j = j + 1;
    }
    None
}

/// Removes the first entry of `w` with id `id`, if there is one.
pub fn remove_by_ident<T: Stamped>(w: &mut VecDeque<T>, id: u64)
    ensures
        final(w)@ == remove_ident(old(w)@, id),
{
    let ghost orig = w@;
    match position_of_ident(w, id) {
        Some(j) => {
            proof {
                lemma_remove_ident_prefix(orig, id, j as int);
                assert(orig.skip(j as int)[0] == orig[j as int]);
                assert(orig.skip(j as int).drop_first() == orig.skip(j + 1));
                assert(remove_ident(orig.skip(j as int), id) == orig.skip(j as int).drop_first());
                assert(orig.take(j as int) + orig.skip(j + 1) == orig.remove(j as int));
            }
            let _ = w.remove(j);
        },
        None => {
            proof {
                let n = orig.len();
                lemma_remove_ident_prefix(orig, id, n as int);
                assert(orig.take(n as int) == orig);
                assert(orig.skip(n as int).len() == 0);
            }
        },
    }
}

/// Removing the entry just appended, whose id no earlier entry carries,
/// restores the window as it was.
pub proof fn lemma_remove_pushed<T: Stamped>(w: Seq<T>, e: T)
    requires
        forall|i: int| 0 <= i < w.len() ==> (#[trigger] w[i]).ident() != e.ident(),
    ensures
        remove_ident(w.push(e), e.ident()) == w,
{
    let p = w.push(e);
    assert forall|k: int| 0 <= k < w.len() implies (#[trigger] p[k]).ident() != e.ident() by {
        assert(p[k] == w[k]);
    }
    lemma_remove_ident_prefix(p, e.ident(), w.len() as int);
    assert(p.take(w.len() as int) == w);
    assert(p.skip(w.len() as int) == seq![e]);
    assert(seq![e].drop_first() == Seq::<T>::empty());
    assert(w + Seq::<T>::empty() == w);
}

/// The ids of `w` increase from the front to the back, so no id occurs twice.
pub open spec fn idents_increasing<T: Stamped>(w: Seq<T>) -> bool {
    forall|i: int, j: int|
        0 <= i < j < w.len() ==> (#[trigger] w[i]).ident() < (#[trigger] w[j]).ident()
}

/// A well-kept window: ids increase along it and all lie below `bound`, the
/// next id to be given.
pub open spec fn window_ok<T: Stamped>(w: Seq<T>, bound: u64) -> bool {
    idents_below(w, bound) && idents_increasing(w)
}

/// Every id left after a removal is above `b` when every id before it was.
pub proof fn lemma_removed_above<T: Stamped>(w: Seq<T>, id: u64, b: int)
    requires
        forall|i: int| 0 <= i < w.len() ==> (#[trigger] w[i]).ident() > b,
    ensures
        forall|k: int|
            0 <= k < remove_ident(w, id).len() ==> (#[trigger] remove_ident(w, id)[k]).ident() > b,
    decreases w.len(),
{
    if w.len() > 0 {
        let t = w.drop_first();
        assert forall|i: int| 0 <= i < t.len() implies (#[trigger] t[i]).ident() > b by {
            assert(t[i] == w[i + 1]);
        }
        lemma_removed_above(t, id, b);
        if w[0].ident() != id {
            let r = remove_ident(w, id);
            let rt = remove_ident(t, id);
            assert(r == seq![w[0]] + rt);
            assert forall|k: int| 0 <= k < r.len() implies (#[trigger] r[k]).ident() > b by {
                if k > 0 {
                    assert(r[k] == rt[k - 1]);
                }
            }
        }
    }
}

/// Removing an entry from a window whose ids increase keeps them
/// increasing, and leaves no entry with the removed id.
pub proof fn lemma_removed_increasing<T: Stamped>(w: Seq<T>, id: u64)
    requires
        idents_increasing(w),
    ensures
        idents_increasing(remove_ident(w, id)),
        forall|k: int| 0 <= k < remove_ident(w, id).len() ==> (#[trigger] remove_ident(w, id)[k]).ident() != id,
    decreases w.len(),
{
    if w.len() > 0 {
        let t = w.drop_first();
        assert(idents_increasing(t)) by {
            assert forall|i: int, j: int| 0 <= i < j < t.len() implies (#[trigger] t[i]).ident() < (
            #[trigger] t[j]).ident() by {
                assert(t[i] == w[i + 1] && t[j] == w[j + 1]);
            }
        }
        assert forall|i: int| 0 <= i < t.len() implies (#[trigger] t[i]).ident() > w[0].ident() by {
            assert(t[i] == w[i + 1]);
        }
        lemma_removed_increasing(t, id);
        lemma_removed_above(t, id, w[0].ident() as int);
        if w[0].ident() != id {
            let r = remove_ident(w, id);
            let rt = remove_ident(t, id);
            assert(r == seq![w[0]] + rt);
            assert forall|i: int, j: int| 0 <= i < j < r.len() implies (#[trigger] r[i]).ident() < (
            #[trigger] r[j]).ident() by {
                assert(r[j] == rt[j - 1]);
                if i > 0 {
                    assert(r[i] == rt[i - 1]);
                }
            }
            assert forall|k: int| 0 <= k < r.len() implies (#[trigger] r[k]).ident() != id by {
                if k > 0 {
                    assert(r[k] == rt[k - 1]);
                }
            }
        } else {
            assert forall|k: int| 0 <= k < t.len() implies (#[trigger] t[k]).ident() != id by {
                assert(t[k] == w[k + 1]);
            }
        }
    }
}

/// Eviction and removal keep a window well kept.
pub proof fn lemma_window_ok_preserved<T: Stamped>(w: Seq<T>, bound: u64, now: u64, id: u64)
    requires
        window_ok(w, bound),
    ensures
        window_ok(evicted(w, now), bound),
        window_ok(remove_ident(w, id), bound),
{
    lemma_idents_below_preserved(w, bound, now, id);
    lemma_removed_increasing(w, id);
    lemma_evicted_front(w, now);
    lemma_leading_expired_bound(w, now);
    let ev = evicted(w, now);
    let m = leading_expired(w, now) as int;
    assert forall|i: int, j: int| 0 <= i < j < ev.len() implies (#[trigger] ev[i]).ident() < (
    #[trigger] ev[j]).ident() by {
        assert(ev[i] == w[i + m] && ev[j] == w[j + m]);
    }
}

/// Adding an entry with the next id keeps a window well kept, with the next
/// id one further.
pub proof fn lemma_window_ok_push<T: Stamped>(w: Seq<T>, bound: u64, e: T)
    requires
        window_ok(w, bound),
        e.ident() == bound,
        bound < u64::MAX,
    ensures
        window_ok(w.push(e), (bound + 1) as u64),
{
    let p = w.push(e);
    assert forall|i: int| 0 <= i < p.len() implies (#[trigger] p[i]).ident() < bound + 1 by {
        if i < w.len() {
            assert(p[i] == w[i]);
        }
    }
    assert forall|i: int, j: int| 0 <= i < j < p.len() implies (#[trigger] p[i]).ident() < (
    #[trigger] p[j]).ident() by {
        assert(p[i] == w[i]);
        if j < w.len() {
            assert(p[j] == w[j]);
        }
    }
}

/// Removing an id that no entry has leaves the window as it is.
pub proof fn lemma_remove_absent<T: Stamped>(w: Seq<T>, id: u64)
    requires
        forall|i: int| 0 <= i < w.len() ==> (#[trigger] w[i]).ident() != id,
    ensures
        remove_ident(w, id) == w,
    decreases w.len(),
{
    if w.len() > 0 {
        let t = w.drop_first();
        assert forall|i: int| 0 <= i < t.len() implies (#[trigger] t[i]).ident() != id by {
            assert(t[i] == w[i + 1]);
        }
        lemma_remove_absent(t, id);
        assert(seq![w[0]] + t =~= w);
    }
}

/// Dropping expired entries or removing one keeps ids below the bound.
pub proof fn lemma_idents_below_preserved<T: Stamped>(w: Seq<T>, bound: u64, now: u64, id: u64)
    requires
        idents_below(w, bound),
    ensures
        idents_below(evicted(w, now), bound),
        idents_below(remove_ident(w, id), bound),
    decreases w.len(),
{
    lemma_evicted_front(w, now);
    lemma_leading_expired_bound(w, now);
    let ev = evicted(w, now);
    assert forall|i: int| 0 <= i < ev.len() implies (#[trigger] ev[i]).ident() < bound by {
        assert(ev[i] == w[i + leading_expired(w, now)]);
    }
    if w.len() > 0 {
        assert(idents_below(w.drop_first(), bound)) by {
            assert forall|i: int| 0 <= i < w.drop_first().len() implies (#[trigger] w.drop_first()[
                i]).ident() < bound by {
                assert(w.drop_first()[i] == w[i + 1]);
            }
        }
        lemma_idents_below_preserved(w.drop_first(), bound, now, id);
        if w[0].ident() != id {
            let r = seq![w[0]] + remove_ident(w.drop_first(), id);
            assert forall|i: int| 0 <= i < r.len() implies (#[trigger] r[i]).ident() < bound by {
                if i > 0 {
                    assert(r[i] == remove_ident(w.drop_first(), id)[i - 1]);
                }
            }
        }
    }
}

} // verus!
