//! Lengths of time and readings of a monotonic clock, to the nanosecond.
use vstd::prelude::*;

verus! {

/// Nanoseconds in a second.
pub const NANOS_PER_SEC: u128 = 1_000_000_000;

/// The longest length of time a `Span` can hold: one nanosecond short of
/// 2^64 seconds.
pub const MAX_NANOS: u128 = 18_446_744_073_709_551_615_999_999_999;

/// A length of time. Its view is the number of nanoseconds.
#[derive(Clone, Copy, Debug, PartialEq, Eq, Structural)]
pub struct Span {
    nanos: u128,
}

impl View for Span {
    type V = nat;

    closed spec fn view(&self) -> nat {
        self.nanos as nat
    }
}

impl Span {
    #[verifier::type_invariant]
    spec fn fits(self) -> bool {
        self.nanos <= MAX_NANOS
    }

    /// The length in whole seconds, rounded down.
    pub open spec fn secs(self) -> nat {
        self@ / NANOS_PER_SEC as nat
    }

    /// A whole number of seconds.
    pub fn from_secs(secs: u64) -> (span: Span)
        ensures
            span@ == secs * NANOS_PER_SEC,
    {
        Span { nanos: secs as u128 * NANOS_PER_SEC }
    }

    /// Whole seconds and the nanoseconds beyond them. `None` when the
    /// nanoseconds make up a second or more.
    pub fn new(secs: u64, nanos: u32) -> (span: Option<Span>)
        ensures
            span is Some <==> nanos < NANOS_PER_SEC,
            span matches Some(s) ==> s@ == secs * NANOS_PER_SEC + nanos,
    {
        if nanos < 1_000_000_000 {
            Some(Span { nanos: secs as u128 * NANOS_PER_SEC + nanos as u128 })
        } else {
            None
        }
    }

    pub fn as_secs(self) -> (secs: u64)
        ensures
            secs == self.secs(),
    {
        proof {
            use_type_invariant(&self);
        }
        (self.nanos / NANOS_PER_SEC) as u64
    }

    pub fn as_nanos(self) -> (nanos: u128)
        ensures
            nanos == self@,
            nanos <= MAX_NANOS,
    {
        proof {
            use_type_invariant(&self);
        }
        self.nanos
    }

    /// The sum, where it can be held.
    pub fn checked_add(self, other: Span) -> (sum: Option<Span>)
        ensures
            sum is Some <==> self@ + other@ <= MAX_NANOS,
            sum matches Some(s) ==> s@ == self@ + other@,
    {
        proof {
            use_type_invariant(&self);
            use_type_invariant(&other);
        }
        let total: u128 = self.nanos + other.nanos;
        if total <= MAX_NANOS {
            Some(Span { nanos: total })
        } else {
            None
        }
    }
}

/// Two spans of the same length are the same.
pub proof fn span_is_its_length(a: Span, b: Span)
    requires
        a@ == b@,
    ensures
        a == b,
{
}

/// A reading of a monotonic clock. Its view is the number of nanoseconds since
/// the clock's origin.
#[derive(Clone, Copy, Debug, PartialEq, Eq, Structural)]
pub struct Moment {
    since_origin: Span,
}

impl View for Moment {
    type V = nat;

    closed spec fn view(&self) -> nat {
        self.since_origin@
    }
}

/// How long after `at` the clock shows `now`; nothing when it shows an earlier
/// time.
pub open spec fn elapsed(at: nat, now: nat) -> nat {
    if now >= at {
        (now - at) as nat
    } else {
        0
    }
}

impl Moment {
    /// The reading that long after the clock's origin.
    pub fn after_origin(since_origin: Span) -> (at: Moment)
        ensures
            at@ == since_origin@,
    {
        Moment { since_origin }
    }

    pub fn since_origin(self) -> (span: Span)
        ensures
            span@ == self@,
    {
        self.since_origin
    }

    /// How long after this reading `now` was taken.
    pub fn elapsed(self, now: Moment) -> (span: Span)
        ensures
            span@ == elapsed(self@, now@),
    {
        let a: u128 = self.since_origin.as_nanos();
        let b: u128 = now.since_origin.as_nanos();
        Span { nanos: if b >= a { b - a } else { 0 } }
    }

    /// The reading that long before this one, where the clock has one.
    pub fn checked_sub(self, ago: Span) -> (at: Option<Moment>)
        ensures
            at is Some <==> ago@ <= self@,
            at matches Some(m) ==> m@ == self@ - ago@,
    {
        let a: u128 = ago.as_nanos();
        let b: u128 = self.since_origin.as_nanos();
        if a <= b {
            Some(Moment { since_origin: Span { nanos: b - a } })
        } else {
            None
        }
    }

    pub fn is_before(self, other: Moment) -> (before: bool)
        ensures
            before == (self@ < other@),
    {
        self.since_origin.as_nanos() < other.since_origin.as_nanos()
    }
}

/// What has passed since a reading is what the clock has gone on by, and nothing
/// where it shows an earlier time.
pub proof fn time_passes_as_the_clock_goes_on(at: nat, passed: nat, earlier: nat)
    ensures
        elapsed(at, at + passed) == passed,
        earlier <= at ==> elapsed(at, earlier) == 0,
{
}

} // verus!
