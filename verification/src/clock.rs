//! Reading the clock.

use std::time::{Duration, Instant};
use vstd::prelude::*;

verus! {

#[verifier::external_type_specification]
#[verifier::external_body]
pub struct ExInstant(std::time::Instant);

/// The length of a duration, in nanoseconds.
pub uninterp spec fn duration_nanos(d: std::time::Duration) -> nat;

/// `Instant::now` reads the clock. Nothing is claimed of what it reads.
pub assume_specification[ std::time::Instant::now ]() -> (t: std::time::Instant)
;

/// `Instant::elapsed` gives the time since `t`. Nothing is claimed of it.
pub assume_specification[ std::time::Instant::elapsed ](t: &std::time::Instant) -> (d: std::time::Duration)
;

/// `Duration::as_millis` gives the whole milliseconds in `d`.
pub assume_specification[ std::time::Duration::as_millis ](d: &std::time::Duration) -> (n: u128)
    ensures
        n == duration_nanos(*d) / 1_000_000,
;

/// `Duration::as_micros` gives the whole microseconds in `d`.
pub assume_specification[ std::time::Duration::as_micros ](d: &std::time::Duration) -> (n: u128)
    ensures
        n == duration_nanos(*d) / 1_000,
;

/// The low 64 bits of `n`.
pub fn low64(n: u128) -> (r: u64)
    ensures
        r == n % 0x1_0000_0000_0000_0000,
{
    let r: u64 = #[verifier::truncate] (n as u64);
    assert(r == n % 0x1_0000_0000_0000_0000) by (bit_vector)
        requires
            r == n as u64,
    ;
    r
}

/// `t` is a moment that was read from the clock.
pub open spec fn was_now(t: Instant) -> bool {
    call_ensures(std::time::Instant::now, (), t)
}

/// `d` is a time that was measured from `t` on.
pub open spec fn measured(t: Instant, d: Duration) -> bool {
    call_ensures(std::time::Instant::elapsed, (&t,), d)
}

/// `ms` is the whole milliseconds of a time that was measured from `t` on, modulo
/// 2^64.
pub open spec fn millis_from(t: Instant, ms: u64) -> bool {
    exists|d: Duration|
        #[trigger] measured(t, d) && ms == duration_nanos(d) / 1_000_000
            % 0x1_0000_0000_0000_0000
}

/// `us` is the whole microseconds of a time that was measured from `t` on, modulo
/// 2^64.
pub open spec fn micros_from(t: Instant, us: u64) -> bool {
    exists|d: Duration|
        #[trigger] measured(t, d) && us == duration_nanos(d) / 1_000 % 0x1_0000_0000_0000_0000
}

/// This moment.
pub fn moment() -> (t: Instant)
    ensures
        was_now(t),
{
    Instant::now()
}

/// The whole milliseconds since `t`.
pub fn millis_since(t: &Instant) -> (ms: u64)
    ensures
        millis_from(*t, ms),
{
    let d: Duration = t.elapsed();
    assert(measured(*t, d));
    low64(d.as_millis())
}

/// The whole microseconds since `t`.
pub fn micros_since(t: &Instant) -> (us: u64)
    ensures
        micros_from(*t, us),
{
    let d: Duration = t.elapsed();
    assert(measured(*t, d));
    low64(d.as_micros())
}

/// The low 64 bits of a number are what is left of it modulo 2^64: it is that, and a
/// multiple of 2^64.
pub proof fn law_low_bits_leave_a_multiple(n: u128, r: u64)
    requires
        call_ensures(low64, (n,), r),
    ensures
        n < 0x1_0000_0000_0000_0000 ==> r == n,
        (n - r) % 0x1_0000_0000_0000_0000 == 0,
{
}

/// A time is given in whole milliseconds, of a million nanoseconds each, or in whole
/// microseconds, of a thousand, of what was measured from the moment on.
pub proof fn law_times_are_measured_in_whole_units(t: &Instant, ms: u64, us: u64)
    requires
        call_ensures(millis_since, (t,), ms),
        call_ensures(micros_since, (t,), us),
    ensures
        exists|d: Duration| #[trigger] measured(*t, d) && ms == duration_nanos(d) / 1_000_000
            % 0x1_0000_0000_0000_0000,
        exists|d: Duration| #[trigger] measured(*t, d) && us == duration_nanos(d) / 1_000
            % 0x1_0000_0000_0000_0000,
{
}

} // verus!
