//! The points an answer is worth: a thousand for an immediate answer,
//! falling linearly to nothing at the end of the answer window.

use vstd::prelude::*;

verus! {

/// The most a single answer can earn.
pub const MAX_POINTS: u64 = 1000;

pub const NANOS_PER_SECOND: u64 = 1_000_000_000;

/// The points for an answer given `elapsed_nanos` nanoseconds into a window
/// of `seconds` seconds: `1000 - (1000 / seconds) * elapsed`, never below
/// zero, rounded to the nearest whole number (a half rounds up). A window
/// of no length earns nothing.
pub open spec fn earned_points(elapsed_nanos: nat, seconds: nat) -> nat {
    let window: int = (seconds * 1_000_000_000) as int;
    if elapsed_nanos >= window {
        0
    } else {
        ((2000 * (window - elapsed_nanos) + window) / (2 * window)) as nat
    }
}

/// The time from `start` to `now` on a clock that never runs backwards;
/// zero if `now` lies before `start`.
pub open spec fn elapsed_between(start: u64, now: u64) -> nat {
    if now >= start {
        (now - start) as nat
    } else {
        0
    }
}

/// Computes the points for an answer given `elapsed_nanos` nanoseconds after
/// the start of an answer window of `max_seconds` seconds.
pub fn time_to_points(elapsed_nanos: u64, max_seconds: u64) -> (points: u64)
    ensures
        points == earned_points(elapsed_nanos as nat, max_seconds as nat),
        points <= MAX_POINTS,
{
    assert(max_seconds * NANOS_PER_SECOND <= 0xFFFF_FFFF_FFFF_FFFF * 1_000_000_000) by (nonlinear_arith)
        requires
            max_seconds <= 0xFFFF_FFFF_FFFF_FFFF,
            NANOS_PER_SECOND == 1_000_000_000,
    ;
    let window: u128 = (max_seconds as u128) * (NANOS_PER_SECOND as u128);
    let elapsed: u128 = elapsed_nanos as u128;
    if elapsed >= window {
        return 0;
    }
    let left: u128 = window - elapsed;
    assert(2000 * left + window <= 2001 * window);
    let doubled: u128 = 2000 * left + window;
    let points: u128 = doubled / (2 * window);
    proof {
        lemma_earned_at_most_max(elapsed_nanos as nat, max_seconds as nat);
    }
    points as u64
}

/// No answer earns more than a thousand points.
pub proof fn lemma_earned_at_most_max(elapsed_nanos: nat, seconds: nat)
    ensures
        earned_points(elapsed_nanos, seconds) <= 1000,
{
    let window: int = (seconds * 1_000_000_000) as int;
    if elapsed_nanos < window {
        let num = 2000 * (window - elapsed_nanos) + window;
        assert(num / (2 * window) <= 1000) by (nonlinear_arith)
            requires
                0 < window,
                0 <= num <= 2001 * window,
        ;
    }
}

/// An answer given when the window has run out, or later, earns nothing.
pub proof fn lemma_late_answer_earns_nothing(elapsed_nanos: nat, seconds: nat)
    requires
        elapsed_nanos >= seconds * 1_000_000_000,
    ensures
        earned_points(elapsed_nanos, seconds) == 0,
{
}

/// An answer given at the very start of a window that has any length earns
/// the full thousand points.
pub proof fn lemma_immediate_answer_earns_all(seconds: nat)
    requires
        seconds > 0,
    ensures
        earned_points(0, seconds) == 1000,
{
    let window: int = (seconds * 1_000_000_000) as int;
    assert((2000 * window + window) / (2 * window) == 1000) by (nonlinear_arith)
        requires
            window > 0,
    ;
}

/// Answering later never earns more.
pub proof fn lemma_earned_decreases_with_time(earlier: nat, later: nat, seconds: nat)
    requires
        earlier <= later,
    ensures
        earned_points(later, seconds) <= earned_points(earlier, seconds),
{
    let window: int = (seconds * 1_000_000_000) as int;
    if later < window {
        let a = 2000 * (window - later) + window;
        let b = 2000 * (window - earlier) + window;
        assert(a / (2 * window) <= b / (2 * window)) by (nonlinear_arith)
            requires
                0 < window,
                0 <= a <= b,
        ;
    }
}

} // verus!
