//! Intervals of scalars, closed for containment and open for surrounding.
use vstd::prelude::*;
use crate::fixed::{diff, LIMIT, sub_fx};

verus! {

/// The range `[min, max]`; it is empty when `min > max`.
#[derive(Debug, Clone, Copy, PartialEq, Eq, Structural)]
pub struct Interval {
    pub min: i64,
    pub max: i64,
}

pub open spec fn clamp_spec(i: Interval, x: int) -> int {
    if x < i.min {
        i.min as int
    } else if x > i.max {
        i.max as int
    } else {
        x
    }
}

impl Interval {
    pub fn new(min: i64, max: i64) -> (r: Interval)
        ensures
            r.min == min,
            r.max == max,
    {
        Interval { min, max }
    }

    pub fn min(&self) -> (r: i64)
        ensures
            r == self.min,
    {
        self.min
    }

    pub fn max(&self) -> (r: i64)
        ensures
            r == self.max,
    {
        self.max
    }

    pub fn size(&self) -> (r: i64)
        ensures
            r == diff(self.max as int, self.min as int),
    {
        sub_fx(self.max, self.min)
    }

    /// `min <= x <= max`.
    pub fn contains(&self, x: i64) -> (r: bool)
        ensures
            r == (self.min <= x <= self.max),
    {
        self.min <= x && x <= self.max
    }

    /// `min < x < max`.
    pub fn surrounds(&self, x: i64) -> (r: bool)
        ensures
            r == (self.min < x < self.max),
    {
        self.min < x && x < self.max
    }

    /// `x` saturated to `[min, max]`.
    pub fn clamp(&self, x: i64) -> (r: i64)
        ensures
            r == clamp_spec(*self, x as int),
    {
        if x < self.min {
            self.min
        } else if x > self.max {
            self.max
        } else {
            x
        }
    }

    /// The interval that holds nothing: `[+inf, -inf]`.
    pub fn empty() -> (r: Interval)
        ensures
            r.min == LIMIT,
            r.max == -LIMIT,
    {
        Interval { min: LIMIT, max: -LIMIT }
    }

    /// The interval that holds every scalar: `[-inf, +inf]`.
    pub fn universe() -> (r: Interval)
        ensures
            r.min == -LIMIT,
            r.max == LIMIT,
    {
        Interval { min: -LIMIT, max: LIMIT }
    }
}

/// Clamping to a non-empty interval is idempotent, and leaves a value of the
/// interval unchanged.
pub proof fn lemma_clamp_idempotent(i: Interval, x: int)
    requires
        i.min <= i.max,
    ensures
        clamp_spec(i, clamp_spec(i, x)) == clamp_spec(i, x),
        i.min <= x <= i.max ==> clamp_spec(i, x) == x,
{
}

} // verus!
