//! A rate limit for warnings that a guest can provoke: at most one per window
//! and call site.

use vstd::prelude::*;

verus! {

/// One emission per call site per this window, in milliseconds.
pub const WINDOW_MS: u64 = 5_000;

/// The stamp of an emission at `now`: 0 is kept for "never".
pub open spec fn stamp(now_ms: u64) -> u64 {
    if now_ms == 0 {
        1
    } else {
        now_ms
    }
}

/// A warning may be emitted at `now`, when the last stamp is `last`.
pub open spec fn due(last: u64, now_ms: u64) -> bool {
    last == 0 || stamp(now_ms) - last >= WINDOW_MS
}

/// Whether to emit at `now_ms`. `last` holds the stamp of the previous emission,
/// 0 for none, and moves on when this one is emitted.
pub fn should_emit(last: &mut u64, now_ms: u64) -> (emit: bool)
    ensures
        emit == due(*old(last), now_ms),
        *final(last) == if emit {
            stamp(now_ms)
        } else {
            *old(last)
        },
{
    let now: u64 = if now_ms == 0 {
        1
    } else {
        now_ms
    };
    if *last == 0 || now.saturating_sub(*last) >= WINDOW_MS {
        *last = now;
        true
    } else {
        false
    }
}

/// The stamp that is left, and when warnings were emitted, after a call site was
/// reached at these times.
pub open spec fn emissions(times: Seq<u64>) -> (u64, Seq<u64>)
    decreases times.len(),
{
    if times.len() == 0 {
        (0, Seq::empty())
    } else {
        let (last, emitted) = emissions(times.drop_last());
        let now = times.last();
        if due(last, now) {
            (stamp(now), emitted.push(now))
        } else {
            (last, emitted)
        }
    }
}

/// However often a call site is reached, two of its warnings are at least a
/// window apart.
pub proof fn law_one_warning_per_window(times: Seq<u64>, i: int, j: int)
    requires
        0 <= i < j < emissions(times).1.len(),
    ensures
        emissions(times).1[i] + WINDOW_MS <= emissions(times).1[j],
    decreases times.len(),
{
    let (last, emitted) = emissions(times.drop_last());
    lemma_stamp(times.drop_last());
    if j < emitted.len() {
        law_one_warning_per_window(times.drop_last(), i, j);
    } else if i < emitted.len() - 1 {
        law_one_warning_per_window(times.drop_last(), i, emitted.len() - 1);
    }
}

proof fn lemma_stamp(times: Seq<u64>)
    ensures
        ({
            let (last, emitted) = emissions(times);
            if emitted.len() == 0 {
                last == 0
            } else {
                last == stamp(emitted.last())
            }
        }),
    decreases times.len(),
{
    if times.len() > 0 {
        lemma_stamp(times.drop_last());
    }
}

/// The first warning is never held back.
pub proof fn law_first_warning_is_emitted(times: Seq<u64>)
    requires
        times.len() > 0,
    ensures
        emissions(times).1.len() > 0,
        emissions(times).1[0] == times[0],
    decreases times.len(),
{
    if times.len() > 1 {
        law_first_warning_is_emitted(times.drop_last());
        assert(times.drop_last()[0] == times[0]);
    } else {
        reveal_with_fuel(emissions, 2);
        assert(times.drop_last().len() == 0);
    }
}

/// Of two calls in a row, the first of which is emitted, the second is emitted exactly
/// if at least 5000 milliseconds lie between them; the very first millisecond counts as
/// the second.
pub proof fn law_second_warning_waits_for_the_window(
    last: &mut u64,
    a: u64,
    x: bool,
    next: &mut u64,
    b: u64,
    y: bool,
)
    requires
        call_ensures(should_emit, (last, a), x),
        x,
        *next == *final(last),
        call_ensures(should_emit, (next, b), y),
    ensures
        a > 0 ==> (y <==> b >= a + 5000),
        a == 0 ==> (y <==> b >= 5001),
        !y ==> *final(next) == *old(next),
{
}

/// A call site that has not warned yet does so at once, and one that is held back
/// stays as it was.
pub proof fn law_held_back_warning_changes_nothing(last: &mut u64, now_ms: u64, x: bool)
    requires
        call_ensures(should_emit, (last, now_ms), x),
    ensures
        *old(last) == 0 ==> x,
        !x ==> *final(last) == *old(last) && now_ms < *old(last) + 5000,
        x ==> *final(last) > 0 && *final(last) >= now_ms,
{
}

} // verus!
