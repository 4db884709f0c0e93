//! Logical duration column types, one per time unit.
use vstd::prelude::*;

verus! {

use crate::time::TimeUnit;

/// Fractional precision of a duration counted in seconds.
pub const SECOND_VARIATION: u64 = 0;

/// Fractional precision of a duration counted in milliseconds.
pub const MILLISECOND_VARIATION: u64 = 3;

/// Fractional precision of a duration counted in microseconds.
pub const MICROSECOND_VARIATION: u64 = 6;

/// Fractional precision of a duration counted in nanoseconds.
pub const NANOSECOND_VARIATION: u64 = 9;

/// Duration column type counted in seconds.
#[derive(Debug, Default, Clone, Copy, PartialEq, Eq, Structural)]
pub struct DurationSecondType;

/// Duration column type counted in milliseconds.
#[derive(Debug, Default, Clone, Copy, PartialEq, Eq, Structural)]
pub struct DurationMillisecondType;

/// Duration column type counted in microseconds.
#[derive(Debug, Default, Clone, Copy, PartialEq, Eq, Structural)]
pub struct DurationMicrosecondType;

/// Duration column type counted in nanoseconds.
#[derive(Debug, Default, Clone, Copy, PartialEq, Eq, Structural)]
pub struct DurationNanosecondType;

/// A duration column type of some time unit.
#[derive(Debug, Clone, Copy, PartialEq, Eq, Structural)]
pub enum DurationType {
    Second(DurationSecondType),
    Millisecond(DurationMillisecondType),
    Microsecond(DurationMicrosecondType),
    Nanosecond(DurationNanosecondType),
}

/// The time unit a duration type counts in.
pub open spec fn duration_type_unit(t: DurationType) -> TimeUnit {
    match t {
        DurationType::Second(_) => TimeUnit::Second,
        DurationType::Millisecond(_) => TimeUnit::Millisecond,
        DurationType::Microsecond(_) => TimeUnit::Microsecond,
        DurationType::Nanosecond(_) => TimeUnit::Nanosecond,
    }
}

/// The fractional precision of a duration type.
pub open spec fn duration_type_precision(t: DurationType) -> u64 {
    match t {
        DurationType::Second(_) => SECOND_VARIATION,
        DurationType::Millisecond(_) => MILLISECOND_VARIATION,
        DurationType::Microsecond(_) => MICROSECOND_VARIATION,
        DurationType::Nanosecond(_) => NANOSECOND_VARIATION,
    }
}

impl DurationType {
    /// The time unit of this type.
    pub fn unit(&self) -> (u: TimeUnit)
        ensures
            u == duration_type_unit(*self),
    {
        match self {
            DurationType::Second(_) => TimeUnit::Second,
            DurationType::Millisecond(_) => TimeUnit::Millisecond,
            DurationType::Microsecond(_) => TimeUnit::Microsecond,
            DurationType::Nanosecond(_) => TimeUnit::Nanosecond,
        }
    }

    /// The fractional precision of this type.
    pub fn precision(&self) -> (p: u64)
        ensures
            p == duration_type_precision(*self),
    {
        match self {
            DurationType::Second(_) => SECOND_VARIATION,
            DurationType::Millisecond(_) => MILLISECOND_VARIATION,
            DurationType::Microsecond(_) => MICROSECOND_VARIATION,
            DurationType::Nanosecond(_) => NANOSECOND_VARIATION,
        }
    }
}

/// The precision named no duration type.
#[derive(Debug, Clone, Copy, PartialEq, Eq, Structural)]
pub struct InvalidDurationPrecision {
    pub precision: u64,
}

impl TryFrom<u64> for DurationType {
    type Error = InvalidDurationPrecision;

    /// Converts a fractional precision to the duration type counting in the
    /// matching unit; only 0, 3, 6 and 9 name one.
    fn try_from(value: u64) -> Result<DurationType, InvalidDurationPrecision> {
        if value == SECOND_VARIATION {
            Ok(DurationType::Second(DurationSecondType))
        } else if value == MILLISECOND_VARIATION {
            Ok(DurationType::Millisecond(DurationMillisecondType))
        } else if value == MICROSECOND_VARIATION {
            Ok(DurationType::Microsecond(DurationMicrosecondType))
        } else if value == NANOSECOND_VARIATION {
            Ok(DurationType::Nanosecond(DurationNanosecondType))
        } else {
            Err(InvalidDurationPrecision { precision: value })
        }
    }
}

impl vstd::std_specs::convert::TryFromSpecImpl<u64> for DurationType {
    open spec fn obeys_try_from_spec() -> bool {
        true
    }

    open spec fn try_from_spec(value: u64) -> Result<DurationType, InvalidDurationPrecision> {
        if value == SECOND_VARIATION {
            Ok(DurationType::Second(DurationSecondType))
        } else if value == MILLISECOND_VARIATION {
            Ok(DurationType::Millisecond(DurationMillisecondType))
        } else if value == MICROSECOND_VARIATION {
            Ok(DurationType::Microsecond(DurationMicrosecondType))
        } else if value == NANOSECOND_VARIATION {
            Ok(DurationType::Nanosecond(DurationNanosecondType))
        } else {
            Err(InvalidDurationPrecision { precision: value })
        }
    }
}

} // verus!
