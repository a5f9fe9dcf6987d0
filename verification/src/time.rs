//! Timestamps and durations in milliseconds, whatever form they arrive in.

use vstd::prelude::*;

verus! {

/// Why a time could not be told in milliseconds.
#[derive(Clone, Copy, Debug, PartialEq, Eq, Structural)]
pub enum TimeError {
    /// The number does not fit the type that holds milliseconds.
    OutOfRange,
}

/// A point in time that can be told in milliseconds since the Unix epoch.
pub trait TsToMillis: Sized {
    /// The point in time in milliseconds since the Unix epoch.
    spec fn spec_to_millis(self) -> Result<i64, TimeError>;

    /// Tells the point in time in milliseconds since the Unix epoch.
    fn to_millis(self) -> (millis: Result<i64, TimeError>)
        ensures
            millis == self.spec_to_millis(),
    ;
}

impl TsToMillis for i64 {
    open spec fn spec_to_millis(self) -> Result<i64, TimeError> {
        Ok(self)
    }

    fn to_millis(self) -> (millis: Result<i64, TimeError>) {
        Ok(self)
    }
}

/// Milliseconds since the Unix epoch, counted without a bound.
impl TsToMillis for u128 {
    open spec fn spec_to_millis(self) -> Result<i64, TimeError> {
        if self <= i64::MAX {
            Ok(self as i64)
        } else {
            Err(TimeError::OutOfRange)
        }
    }

    fn to_millis(self) -> (millis: Result<i64, TimeError>) {
        if self <= 0x7fff_ffff_ffff_ffffu128 {
            Ok(self as i64)
        } else {
            Err(TimeError::OutOfRange)
        }
    }
}

/// A span of time that can be told in milliseconds.
pub trait DurationToMillis: Sized {
    /// The span in milliseconds.
    spec fn spec_to_millis(self) -> Result<u64, TimeError>;

    /// Tells the span in milliseconds. A negative span cannot be told.
    fn to_millis(self) -> (millis: Result<u64, TimeError>)
        ensures
            millis == self.spec_to_millis(),
    ;
}

impl DurationToMillis for i64 {
    open spec fn spec_to_millis(self) -> Result<u64, TimeError> {
        if self >= 0 {
            Ok(self as u64)
        } else {
            Err(TimeError::OutOfRange)
        }
    }

    fn to_millis(self) -> (millis: Result<u64, TimeError>) {
        if self >= 0 {
            Ok(self as u64)
        } else {
            Err(TimeError::OutOfRange)
        }
    }
}

impl DurationToMillis for i32 {
    open spec fn spec_to_millis(self) -> Result<u64, TimeError> {
        if self >= 0 {
            Ok(self as u64)
        } else {
            Err(TimeError::OutOfRange)
        }
    }

    fn to_millis(self) -> (millis: Result<u64, TimeError>) {
        if self >= 0 {
            Ok(self as u64)
        } else {
            Err(TimeError::OutOfRange)
        }
    }
}

impl DurationToMillis for u64 {
    open spec fn spec_to_millis(self) -> Result<u64, TimeError> {
        Ok(self)
    }

    fn to_millis(self) -> (millis: Result<u64, TimeError>) {
        Ok(self)
    }
}

/// A span counted in milliseconds without a bound.
impl DurationToMillis for u128 {
    open spec fn spec_to_millis(self) -> Result<u64, TimeError> {
        if self <= u64::MAX {
            Ok(self as u64)
        } else {
            Err(TimeError::OutOfRange)
        }
    }

    fn to_millis(self) -> (millis: Result<u64, TimeError>) {
        if self <= 0xffff_ffff_ffff_ffffu128 {
            Ok(self as u64)
        } else {
            Err(TimeError::OutOfRange)
        }
    }
}

/// How long there is to sleep at `now` to wake at `ts`, both in milliseconds since the Unix
/// epoch: nothing to sleep for where `ts` has passed.
pub fn sleep_for(ts: u64, now: u64) -> (remaining: Option<u64>)
    ensures
        remaining == (if ts >= now {
            Some((ts - now) as u64)
        } else {
            None
        }),
{
    if ts >= now {
        Some(ts - now)
    } else {
        None
    }
}

} // verus!
