//! Instants and spans of the node's free-running microsecond timer.
//!
//! An instant is the timer's 64-bit tick count. The arithmetic on instants is
//! that of the `fugit` crate, which the timer's own interface speaks: sums wrap
//! round, and an instant counts as reached when it lies at most half the
//! counter's range behind.

use vstd::prelude::*;

verus! {

/// Timer ticks per millisecond: the timer counts microseconds.
pub const TICKS_PER_MILLI: u64 = 1000;

/// The instant `span` ticks after `at`, on a counter that wraps round.
pub open spec fn instant_after(at: u64, span: u64) -> u64 {
    if at + span > u64::MAX {
        (at + span - 0x1_0000_0000_0000_0000) as u64
    } else {
        (at + span) as u64
    }
}

/// How many ticks `now` lies after `deadline`, on a counter that wraps round.
pub open spec fn ticks_since(now: u64, deadline: u64) -> u64 {
    if now >= deadline {
        (now - deadline) as u64
    } else {
        (now - deadline + 0x1_0000_0000_0000_0000) as u64
    }
}

/// Whether `deadline` has been reached at `now`: `now` lies at most half the
/// counter's range after it.
pub open spec fn reached(now: u64, deadline: u64) -> bool {
    ticks_since(now, deadline) <= u64::MAX / 2
}

/// `fugit`'s `ExtU64::millis` for a microsecond time base, taken as ticks. The
/// crate multiplies the count by 1000 without a check, so the product has to
/// fit; the result is that product.
#[verifier::external_body]
pub(crate) fn millis_as_ticks(millis: u64) -> (ticks: u64)
    requires
        millis * 1000 <= u64::MAX,
    ensures
        ticks == millis * 1000,
{
    let span: fugit::Duration<u64, 1, 1_000_000> = fugit::ExtU64::millis(millis);
    span.ticks()
}

/// `fugit`'s `Instant + Duration` on one time base, in ticks. For equal time
/// bases the crate adds the tick counts with `wrapping_add` and never fails.
#[verifier::external_body]
pub(crate) fn instant_plus(at: u64, span: u64) -> (later: u64)
    ensures
        later == instant_after(at, span),
{
    let at = fugit::Instant::<u64, 1, 1_000_000>::from_ticks(at);
    let span = fugit::Duration::<u64, 1, 1_000_000>::from_ticks(span);
    (at + span).ticks()
}

/// `fugit`'s `>=` on two instants of one time base, given as ticks. The crate
/// takes the wrapping difference of the tick counts and calls the left
/// instant smaller exactly when that difference is above half the range.
#[verifier::external_body]
pub(crate) fn instant_reached(now: u64, deadline: u64) -> (due: bool)
    ensures
        due == reached(now, deadline),
{
    let now = fugit::Instant::<u64, 1, 1_000_000>::from_ticks(now);
    let deadline = fugit::Instant::<u64, 1, 1_000_000>::from_ticks(deadline);
    now >= deadline
}

/// A span of `millis` milliseconds in timer ticks, or `None` when the span
/// does not fit the counter.
pub fn span_of_millis(millis: u64) -> (span: Option<u64>)
    ensures
        span == if millis * 1000 <= u64::MAX {
            Some((millis * 1000) as u64)
        } else {
            None
        },
{
    if millis <= u64::MAX / TICKS_PER_MILLI {
        Some(millis_as_ticks(millis))
    } else {
        None
    }
}

/// Where the counter does not wrap, the instant after a span is the plain sum.
pub proof fn lemma_instant_after_is_sum(at: u64, span: u64)
    requires
        at + span <= u64::MAX,
    ensures
        instant_after(at, span) == at + span,
{
}

/// For two instants less than half the counter's range apart, "reached" is
/// the plain order of the tick counts.
pub proof fn lemma_reached_is_order(now: u64, deadline: u64)
    requires
        -0x8000_0000_0000_0000 <= now - deadline < 0x8000_0000_0000_0000,
    ensures
        reached(now, deadline) <==> now >= deadline,
{
}

/// A deadline set a span of at most half the counter's range ahead is reached
/// exactly when that span has gone by, as long as no more than half the range
/// has gone by.
pub proof fn lemma_deadline_after_span(start: u64, span: u64, elapsed: u64)
    requires
        span <= u64::MAX / 2,
        elapsed <= u64::MAX / 2,
    ensures
        reached(instant_after(start, elapsed), instant_after(start, span)) <==> elapsed >= span,
{
}

} // verus!
