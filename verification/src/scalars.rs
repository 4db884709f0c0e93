//! Scalar wrappers around durations, one per time unit, as the engine's
//! column builders consume them.
use vstd::prelude::*;

verus! {

use crate::time::{Duration, TimeUnit};

/// A duration scalar counted in seconds.
#[derive(Debug, Clone, Copy, PartialEq)]
pub struct DurationSecond(pub Duration);

/// A duration scalar counted in milliseconds.
#[derive(Debug, Clone, Copy, PartialEq)]
pub struct DurationMillisecond(pub Duration);

/// A duration scalar counted in microseconds.
#[derive(Debug, Clone, Copy, PartialEq)]
pub struct DurationMicrosecond(pub Duration);

impl DurationSecond {
    /// A scalar of `val` seconds.
    pub fn new(val: i64) -> (r: DurationSecond)
        ensures
            r.0.value == val,
            r.0.unit == TimeUnit::Second,
    {
        DurationSecond(Duration::new(val, TimeUnit::Second))
    }

    /// The scalar as a borrowed reference value, which for this plain type
    /// is a copy.
    pub fn as_scalar_ref(&self) -> (r: DurationSecond)
        ensures
            r == *self,
    {
        *self
    }

    /// The owned scalar behind a reference value.
    pub fn to_owned_scalar(&self) -> (r: DurationSecond)
        ensures
            r == *self,
    {
        *self
    }
}

impl DurationMillisecond {
    /// A scalar of `val` milliseconds.
    pub fn new(val: i64) -> (r: DurationMillisecond)
        ensures
            r.0.value == val,
            r.0.unit == TimeUnit::Millisecond,
    {
        DurationMillisecond(Duration::new(val, TimeUnit::Millisecond))
    }

    /// The scalar as a borrowed reference value, which for this plain type
    /// is a copy.
    pub fn as_scalar_ref(&self) -> (r: DurationMillisecond)
        ensures
            r == *self,
    {
        *self
    }

    /// The owned scalar behind a reference value.
    pub fn to_owned_scalar(&self) -> (r: DurationMillisecond)
        ensures
            r == *self,
    {
        *self
    }
}

impl DurationMicrosecond {
    /// A scalar of `val` microseconds.
    pub fn new(val: i64) -> (r: DurationMicrosecond)
        ensures
            r.0.value == val,
            r.0.unit == TimeUnit::Microsecond,
    {
        DurationMicrosecond(Duration::new(val, TimeUnit::Microsecond))
    }

    /// The scalar as a borrowed reference value, which for this plain type
    /// is a copy.
    pub fn as_scalar_ref(&self) -> (r: DurationMicrosecond)
        ensures
            r == *self,
    {
        *self
    }

    /// The owned scalar behind a reference value.
    pub fn to_owned_scalar(&self) -> (r: DurationMicrosecond)
        ensures
            r == *self,
    {
        *self
    }
}

/// A duration scalar counted in nanoseconds.
#[derive(Debug, Clone, Copy, PartialEq)]
pub struct DurationNanosecond(pub Duration);

impl DurationNanosecond {
    /// A scalar of `val` nanoseconds.
    pub fn new(val: i64) -> (r: DurationNanosecond)
        ensures
            r.0.value == val,
            r.0.unit == TimeUnit::Nanosecond,
    {
        DurationNanosecond(Duration::new(val, TimeUnit::Nanosecond))
    }

    /// The scalar as a borrowed reference value, which for this plain type
    /// is a copy.
    pub fn as_scalar_ref(&self) -> (r: DurationNanosecond)
        ensures
            r == *self,
    {
        *self
    }

    /// The owned scalar behind a reference value.
    pub fn to_owned_scalar(&self) -> (r: DurationNanosecond)
        ensures
            r == *self,
    {
        *self
    }
}

} // verus!
