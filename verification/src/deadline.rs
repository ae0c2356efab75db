//! The moment at which a search has to stop: a reading of the clock and a
//! budget of milliseconds from it.

use std::time::Duration;
use std::time::Instant;
use vstd::prelude::*;

verus! {

/// `std::time::Instant`, a moment on a clock that only runs forwards.
/// Nothing is known of what is inside.
#[verifier::external_type_specification]
#[verifier::external_body]
pub struct ExInstant(Instant);

/// `Instant::now`: the reading of the clock. Nothing is known of it.
#[verifier::external_body]
fn clock_now() -> Instant {
    Instant::now()
}

/// `Instant::elapsed`: the time that has gone by since a moment. Nothing is
/// known of it.
#[verifier::external_body]
fn time_since(start: Instant) -> Duration {
    start.elapsed()
}

/// `Duration::as_millis`: the whole milliseconds in a span. Nothing is
/// claimed of the number.
#[verifier::external_body]
fn millis_of(span: Duration) -> u128 {
    span.as_millis()
}

/// A budget of time that began to run when the deadline was made, or no
/// limit at all.
#[derive(Copy, Clone)]
pub struct Deadline {
    started: Option<Instant>,
    millis: u64,
}

impl Deadline {
    /// The milliseconds the deadline allows from the moment it was made;
    /// `None` for the deadline that never expires.
    pub closed spec fn budget(&self) -> Option<u64> {
        if self.started is Some {
            Some(self.millis)
        } else {
            None
        }
    }

    /// Whether there is a moment at which the deadline expires.
    pub open spec fn can_expire(&self) -> bool {
        self.budget() is Some
    }

    /// Whether the deadline has expired once so many milliseconds have gone
    /// by since it was made: when they have used up the budget.
    pub open spec fn spent_by(&self, elapsed_ms: u128) -> bool {
        match self.budget() {
            Some(budget) => elapsed_ms >= budget,
            None => false,
        }
    }

    /// The deadline that never expires.
    pub fn never() -> (r: Deadline)
        ensures
            r.budget() is None,
    {
        Deadline { started: None, millis: 0 }
    }

    /// The deadline so many milliseconds from now.
    pub fn from_now(millis: u64) -> (r: Deadline)
        ensures
            r.budget() == Some(millis),
    {
        Deadline { started: Some(clock_now()), millis }
    }

    /// The budget, as `budget` states it.
    pub fn get_budget(&self) -> (r: Option<u64>)
        ensures
            r == self.budget(),
    {
        match self.started {
            Some(_) => Some(self.millis),
            None => None,
        }
    }

    /// Whether the deadline has expired, told how many milliseconds have
    /// gone by since it was made.
    pub fn expired_after(&self, elapsed_ms: u128) -> (r: bool)
        ensures
            r == self.spent_by(elapsed_ms),
    {
        match self.started {
            Some(_) => elapsed_ms >= self.millis as u128,
            None => false,
        }
    }

    /// Whether the deadline has expired by now: what `expired_after` says of
    /// the time the clock shows to have gone by. A deadline without a limit
    /// has never expired, and one with a budget of nothing always has.
    pub fn expired(&self) -> (r: bool)
        ensures
            exists|elapsed_ms: u128| r == self.spent_by(elapsed_ms),
            r ==> self.can_expire(),
            self.budget() == Some(0u64) ==> r,
    {
        match self.started {
            Some(start) => {
                let elapsed_ms: u128 = millis_of(time_since(start));
                self.expired_after(elapsed_ms)
            },
            None => {
                assert(false == self.spent_by(0u128));
                false
            },
        }
    }
}

} // verus!
