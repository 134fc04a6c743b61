use vstd::prelude::*;
use crate::error::ConfigError;

verus! {

/// The largest value a range bound may take.
pub const BOUND_MAX: u64 = 65535;

/// A closed interval of tolerance units.
#[derive(Copy, Clone, Debug, PartialEq, Eq, Structural)]
pub struct Range {
    pub min: u16,
    pub max: u16,
}

impl Range {
    /// The interval is well formed when its lower bound does not exceed its upper bound.
    pub open spec fn wf(self) -> bool {
        self.min <= self.max
    }

    /// Builds an interval from two bounds; fails when the bounds are out of order.
    pub fn new(min: u16, max: u16) -> (r: Option<Range>)
        ensures
            r == (if min <= max { Some(Range { min, max }) } else { None::<Range> }),
    {
        if min <= max {
            Some(Range { min, max })
        } else {
            None
        }
    }

    /// Whether the interval is well formed.
    pub fn is_valid(&self) -> (r: bool)
        ensures
            r == self.wf(),
    {
        self.min <= self.max
    }

    /// Builds an interval from the bounds a document gives: each must fit in 16 bits,
    /// and the lower must not exceed the upper.
    pub fn from_bounds(min: u64, max: u64) -> (r: Result<Range, ConfigError>)
        ensures
            min > BOUND_MAX || max > BOUND_MAX ==> r == Err::<Range, ConfigError>(
                ConfigError::OutOfRangeNumeric,
            ),
            min <= BOUND_MAX && max <= BOUND_MAX && min > max ==> r == Err::<Range, ConfigError>(
                ConfigError::InvertedRange,
            ),
            min <= max <= BOUND_MAX ==> r == Ok::<Range, ConfigError>(
                (Range { min: min as u16, max: max as u16 }),
            ),
            r matches Ok(range) ==> range.wf(),
    {
        if min > BOUND_MAX || max > BOUND_MAX {
            Err(ConfigError::OutOfRangeNumeric)
        } else if min > max {
            Err(ConfigError::InvertedRange)
        } else {
            Ok(Range { min: min as u16, max: max as u16 })
        }
    }
}

} // verus!
