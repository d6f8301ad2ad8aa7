//! Instants and spans of time, and the arithmetic on them.
//!
//! An instant is modelled as the integer number of nanoseconds since the Unix
//! epoch, a span as a natural number of nanoseconds. Sums and differences are
//! computed by `chrono`, so the instants that can be held are exactly the
//! non-leap instants that a `chrono::DateTime<Utc>` can hold.

use chrono::{DateTime, TimeDelta, Utc};
use vstd::prelude::*;

verus! {

/// The earliest second that an instant can lie in: the first second of the year -262143.
pub const MIN_SECS: i64 = -8_334_601_228_800;

/// The latest second that an instant can lie in: the last second of the year 262142.
pub const MAX_SECS: i64 = 8_210_266_876_799;

/// Nanoseconds in one second.
pub const NANOS_PER_SEC: u32 = 1_000_000_000;

/// The nanosecond count of the earliest instant.
pub open spec fn earliest() -> int {
    MIN_SECS * NANOS_PER_SEC
}

/// The nanosecond count just past the latest instant.
pub open spec fn horizon() -> int {
    (MAX_SECS + 1) * NANOS_PER_SEC
}

/// The whole seconds in a nanosecond count, rounded towards the past.
pub open spec fn whole_secs(nanos: int) -> int {
    nanos / (NANOS_PER_SEC as int)
}

/// A point in time: whole seconds since the Unix epoch and the nanoseconds into that second.
#[derive(Clone, Copy, Debug, PartialEq, Eq)]
pub struct Timestamp {
    secs: i64,
    nanos: u32,
}

impl View for Timestamp {
    type V = int;

    /// Nanoseconds since the Unix epoch.
    closed spec fn view(&self) -> int {
        self.secs * NANOS_PER_SEC + self.nanos
    }
}

impl Timestamp {
    #[verifier::type_invariant]
    closed spec fn in_range(self) -> bool {
        MIN_SECS <= self.secs <= MAX_SECS && self.nanos < NANOS_PER_SEC
    }

    /// The instant `nanos` nanoseconds into the second `secs`, if there is one.
    pub fn new(secs: i64, nanos: u32) -> (r: Option<Timestamp>)
        ensures
            r is Some <==> MIN_SECS <= secs <= MAX_SECS && nanos < NANOS_PER_SEC,
            r is Some ==> r.unwrap()@ == secs * NANOS_PER_SEC + nanos,
    {
        if MIN_SECS <= secs && secs <= MAX_SECS && nanos < NANOS_PER_SEC {
            Some(Timestamp { secs, nanos })
        } else {
            None
        }
    }

    /// Whole seconds since the Unix epoch.
    pub fn secs(&self) -> (r: i64)
        ensures
            r == whole_secs(self@),
            MIN_SECS <= r <= MAX_SECS,
            earliest() <= self@ < horizon(),
    {
        proof {
            use_type_invariant(self);
        }
        self.secs
    }

    /// Nanoseconds into the second.
    pub fn nanos(&self) -> (r: u32)
        ensures
            r == self@ % (NANOS_PER_SEC as int),
            r < NANOS_PER_SEC,
    {
        proof {
            use_type_invariant(self);
        }
        self.nanos
    }

    /// Whether this instant lies strictly before `other`.
    pub fn is_before(&self, other: &Timestamp) -> (r: bool)
        ensures
            r == (self@ < other@),
    {
        proof {
            use_type_invariant(self);
            use_type_invariant(other);
        }
        self.secs < other.secs || (self.secs == other.secs && self.nanos < other.nanos)
    }

    /// Whether this instant and `other` are the same.
    pub fn is_same(&self, other: &Timestamp) -> (r: bool)
        ensures
            r == (self@ == other@),
    {
        proof {
            use_type_invariant(self);
            use_type_invariant(other);
        }
        self.secs == other.secs && self.nanos == other.nanos
    }
}

/// A span of time: whole seconds and the nanoseconds beyond them.
#[derive(Clone, Copy, Debug, PartialEq, Eq)]
pub struct Span {
    secs: u64,
    nanos: u32,
}

impl View for Span {
    type V = int;

    /// The length of the span in nanoseconds.
    closed spec fn view(&self) -> int {
        self.secs * NANOS_PER_SEC + self.nanos
    }
}

impl Span {
    #[verifier::type_invariant]
    closed spec fn in_range(self) -> bool {
        self.nanos < NANOS_PER_SEC
    }

    /// The span of `secs` seconds and `nanos` nanoseconds, if `nanos` is less than a second.
    pub fn new(secs: u64, nanos: u32) -> (r: Option<Span>)
        ensures
            r is Some <==> nanos < NANOS_PER_SEC,
            r is Some ==> r.unwrap()@ == secs * NANOS_PER_SEC + nanos,
    {
        if nanos < NANOS_PER_SEC {
            Some(Span { secs, nanos })
        } else {
            None
        }
    }

    /// The span of `secs` whole seconds.
    pub fn from_secs(secs: u64) -> (r: Span)
        ensures
            r@ == secs * NANOS_PER_SEC,
    {
        Span { secs, nanos: 0 }
    }

    /// Whole seconds in the span.
    pub fn secs(&self) -> (r: u64)
        ensures
            r == whole_secs(self@),
            self@ >= 0,
    {
        proof {
            use_type_invariant(self);
        }
        self.secs
    }

    /// Nanoseconds beyond the whole seconds.
    pub fn nanos(&self) -> (r: u32)
        ensures
            r == self@ % (NANOS_PER_SEC as int),
            r < NANOS_PER_SEC,
    {
        proof {
            use_type_invariant(self);
        }
        self.nanos
    }
}

/// `chrono::DateTime::<Utc>::checked_add_signed`, on an instant that is no leap second and a
/// span that is not negative: the sum is exact, and there is one exactly when it lies before
/// the horizon, the end of the last day that `chrono` can hold. A span too long for
/// `chrono::TimeDelta::from_std` leads past the horizon from every instant.
#[verifier::external_body]
fn chrono_add(at: Timestamp, by: Span) -> (r: Option<Timestamp>)
    ensures
        r is Some <==> at@ + by@ < horizon(),
        r is Some ==> r.unwrap()@ == at@ + by@,
{
    let start = DateTime::<Utc>::from_timestamp(at.secs, at.nanos)?;
    let delta = TimeDelta::from_std(std::time::Duration::new(by.secs, by.nanos)).ok()?;
    let sum = start.checked_add_signed(delta)?;
    Some(Timestamp { secs: sum.timestamp(), nanos: sum.timestamp_subsec_nanos() })
}

/// `chrono::DateTime::<Utc>::checked_sub_signed`, on an instant that is no leap second and a
/// span that is not negative: the difference is exact, and there is one exactly when it does
/// not lie before the earliest instant, the start of the first day that `chrono` can hold.
#[verifier::external_body]
fn chrono_sub(at: Timestamp, by: Span) -> (r: Option<Timestamp>)
    ensures
        r is Some <==> earliest() <= at@ - by@,
        r is Some ==> r.unwrap()@ == at@ - by@,
{
    let start = DateTime::<Utc>::from_timestamp(at.secs, at.nanos)?;
    let delta = TimeDelta::from_std(std::time::Duration::new(by.secs, by.nanos)).ok()?;
    let difference = start.checked_sub_signed(delta)?;
    Some(Timestamp { secs: difference.timestamp(), nanos: difference.timestamp_subsec_nanos() })
}

impl Timestamp {
    /// The instant `by` after this one, unless it would lie at or past the horizon.
    pub fn checked_add(&self, by: Span) -> (r: Option<Timestamp>)
        ensures
            r is Some <==> self@ + by@ < horizon(),
            r is Some ==> r.unwrap()@ == self@ + by@,
    {
        chrono_add(*self, by)
    }

    /// The instant `by` before this one, unless it would lie before the earliest instant.
    pub fn checked_sub(&self, by: Span) -> (r: Option<Timestamp>)
        ensures
            r is Some <==> earliest() <= self@ - by@,
            r is Some ==> r.unwrap()@ == self@ - by@,
    {
        chrono_sub(*self, by)
    }
}

} // verus!
