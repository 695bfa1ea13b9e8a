//! Lengths of time in whole nanoseconds, and the clock they are measured with.

use std::time::{Duration, Instant};
use vstd::prelude::*;

verus! {

/// Nanoseconds in one second.
pub const NANOS_PER_SEC: u128 = 1_000_000_000;

/// A length of time, held as a count of nanoseconds.
#[derive(Clone, Copy, Debug, PartialEq, Eq)]
pub struct Span {
    nanos: u128,
}

impl View for Span {
    type V = nat;

    closed spec fn view(&self) -> nat {
        self.nanos as nat
    }
}

/// Whether a session with the given time limit is over once `elapsed` has gone by.
/// A limit of zero is reached at once.
pub open spec fn deadline_reached(timeout: nat, elapsed: nat) -> bool {
    elapsed >= timeout
}

/// The time still left of `timeout` after `elapsed` has gone by: the difference
/// while the limit is ahead, zero from the limit on.
pub open spec fn time_left(timeout: nat, elapsed: nat) -> nat {
    if elapsed >= timeout {
        0
    } else {
        (timeout - elapsed) as nat
    }
}

impl Span {
    /// The span of no time at all.
    pub fn zero() -> (span: Span)
        ensures
            span@ == 0,
    {
        Span { nanos: 0 }
    }

    /// The span of `nanos` nanoseconds.
    pub fn from_nanos(nanos: u128) -> (span: Span)
        ensures
            span@ == nanos,
    {
        Span { nanos }
    }

    /// The span of `secs` whole seconds.
    pub fn from_secs(secs: u64) -> (span: Span)
        ensures
            span@ == secs * NANOS_PER_SEC,
    {
        assert(secs * NANOS_PER_SEC <= u64::MAX * NANOS_PER_SEC) by (nonlinear_arith)
            requires
                secs <= u64::MAX,
        ;
        Span { nanos: secs as u128 * NANOS_PER_SEC }
    }

    /// The whole span in nanoseconds.
    pub fn as_nanos(&self) -> (nanos: u128)
        ensures
            nanos == self@,
    {
        self.nanos
    }

    /// The whole seconds in the span; what is left of a started second is dropped.
    pub fn as_secs(&self) -> (secs: u128)
        ensures
            secs == self@ / (NANOS_PER_SEC as nat),
    {
        self.nanos / NANOS_PER_SEC
    }

    /// Whether this span is at least as long as `other`.
    pub fn covers(&self, other: &Span) -> (yes: bool)
        ensures
            yes == (self@ >= other@),
    {
        self.nanos >= other.nanos
    }

    /// `self - other`, or `None` where `other` is the longer of the two.
    pub fn checked_sub(&self, other: &Span) -> (left: Option<Span>)
        ensures
            match left {
                Some(span) => other@ <= self@ && span@ == self@ - other@,
                None => other@ > self@,
            },
    {
        if other.nanos <= self.nanos {
            Some(Span { nanos: self.nanos - other.nanos })
        } else {
            None
        }
    }
}

/// Whether `timeout` is used up after `elapsed`.
pub fn is_past(timeout: &Span, elapsed: &Span) -> (over: bool)
    ensures
        over == deadline_reached(timeout@, elapsed@),
{
    elapsed.covers(timeout)
}

/// What is left of `timeout` after `elapsed`, never less than nothing.
pub fn remaining(timeout: &Span, elapsed: &Span) -> (left: Span)
    ensures
        left@ == time_left(timeout@, elapsed@),
{
    match timeout.checked_sub(elapsed) {
        Some(span) => span,
        None => Span::zero(),
    }
}

/// The time left is the whole limit at the start, shrinks by what has elapsed,
/// and stays at zero from the moment the limit is reached.
pub proof fn lemma_time_left_bounds(timeout: nat, elapsed: nat)
    ensures
        0 <= time_left(timeout, elapsed) <= timeout,
        time_left(timeout, 0) == timeout,
        elapsed >= timeout ==> time_left(timeout, elapsed) == 0,
        elapsed < timeout ==> time_left(timeout, elapsed) + elapsed == timeout,
        deadline_reached(timeout, elapsed) <==> time_left(timeout, elapsed) == 0,
{
}

/// `std::time::Instant`, a moment on the monotonic clock: a value to keep and
/// to measure from, of which nothing is known.
#[verifier::external_type_specification]
#[verifier::external_body]
pub struct ExInstant(Instant);

/// `std::time::Instant::now`: the present moment on the monotonic clock. Which
/// moment that is depends on when the call is made, so nothing is claimed of it.
#[verifier::external_body]
pub(crate) fn now() -> Instant {
    Instant::now()
}

/// `std::time::Instant::elapsed`: the time gone by since `start`. The reading
/// depends on the moment of the call, so nothing is claimed of it.
#[verifier::external_body]
pub(crate) fn elapsed_since(start: &Instant) -> Duration {
    start.elapsed()
}

/// `std::time::Duration::as_nanos`: the length of `length` in nanoseconds. A
/// `Duration` is opaque here, so the contract has nothing to measure the
/// number against.
#[verifier::external_body]
pub(crate) fn nanos_of(length: &Duration) -> u128 {
    length.as_nanos()
}

} // verus!
