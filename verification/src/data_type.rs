//! The engine's logical value and type model: plain values, their concrete
//! data types, and the temporal value kinds that accompany them.
use vstd::prelude::*;

verus! {

use crate::decimal::Decimal128;
use crate::decimal_type::Decimal128Type;
use crate::duration_type::{DurationMicrosecondType, DurationMillisecondType,
    DurationNanosecondType, DurationSecondType, DurationType};
use crate::time::{Duration, TimeUnit};

/// Unit of a timestamp column.
#[derive(Debug, Clone, Copy, PartialEq, Eq, Structural)]
pub enum TimestampType {
    Second,
    Millisecond,
    Microsecond,
    Nanosecond,
}

/// Unit of a time-of-day column.
#[derive(Debug, Clone, Copy, PartialEq, Eq, Structural)]
pub enum TimeType {
    Second,
    Millisecond,
    Microsecond,
    Nanosecond,
}

/// Unit of an interval column.
#[derive(Debug, Clone, Copy, PartialEq, Eq, Structural)]
pub enum IntervalType {
    YearMonth,
    DayTime,
    MonthDayNano,
}

/// A point in time: a tick count in a unit, counted from the epoch.
#[derive(Debug, Clone, Copy, PartialEq, Eq, Structural)]
pub struct Timestamp {
    pub value: i64,
    pub unit: TimeUnit,
}

impl Timestamp {
    /// A timestamp counted in seconds.
    pub fn new_second(value: i64) -> (t: Timestamp)
        ensures
            t.value == value,
            t.unit == TimeUnit::Second,
    {
        Timestamp { value, unit: TimeUnit::Second }
    }
}

/// A time of day: a tick count in a unit, counted from midnight.
#[derive(Debug, Clone, Copy, PartialEq, Eq, Structural)]
pub struct Time {
    pub value: i64,
    pub unit: TimeUnit,
}

impl Time {
    /// A time of day counted in seconds.
    pub fn new_second(value: i64) -> (t: Time)
        ensures
            t.value == value,
            t.unit == TimeUnit::Second,
    {
        Time { value, unit: TimeUnit::Second }
    }
}

/// A calendar interval: months, days and nanoseconds, tagged by which parts
/// its unit carries.
#[derive(Debug, Clone, Copy, PartialEq, Eq, Structural)]
pub struct Interval {
    pub months: i32,
    pub days: i32,
    pub nsecs: i64,
    pub unit: IntervalType,
}

impl Interval {
    /// An interval of whole months.
    pub fn from_year_month(months: i32) -> (r: Interval)
        ensures
            r == (Interval { months, days: 0, nsecs: 0, unit: IntervalType::YearMonth }),
    {
        Interval { months, days: 0, nsecs: 0, unit: IntervalType::YearMonth }
    }

    /// An interval of days and milliseconds.
    pub fn from_day_time(days: i32, millis: i32) -> (r: Interval)
        ensures
            r.months == 0,
            r.days == days,
            r.nsecs == millis * 1_000_000,
            r.unit == IntervalType::DayTime,
    {
        Interval { months: 0, days, nsecs: (millis as i64) * 1_000_000, unit: IntervalType::DayTime }
    }

    /// An interval of months, days and nanoseconds.
    pub fn from_month_day_nano(months: i32, days: i32, nsecs: i64) -> (r: Interval)
        ensures
            r == (Interval { months, days, nsecs, unit: IntervalType::MonthDayNano }),
    {
        Interval { months, days, nsecs, unit: IntervalType::MonthDayNano }
    }
}

/// A concrete column data type.
#[derive(Debug, Clone, Copy, PartialEq, Eq, Structural)]
pub enum ConcreteDataType {
    Null,
    Boolean,
    UInt8,
    UInt16,
    UInt32,
    UInt64,
    Int8,
    Int16,
    Int32,
    Int64,
    Float32,
    Float64,
    String,
    Binary,
    Date,
    DateTime,
    Timestamp(TimestampType),
    Time(TimeType),
    Duration(DurationType),
    Interval(IntervalType),
    Decimal128(Decimal128Type),
}

impl ConcreteDataType {
    /// True for the numeric types: the integers and the floats.
    pub fn is_numeric(&self) -> (r: bool)
        ensures
            r == is_numeric_spec(*self),
    {
        matches!(
            self,
            ConcreteDataType::UInt8 | ConcreteDataType::UInt16 | ConcreteDataType::UInt32
                | ConcreteDataType::UInt64 | ConcreteDataType::Int8 | ConcreteDataType::Int16
                | ConcreteDataType::Int32 | ConcreteDataType::Int64 | ConcreteDataType::Float32
                | ConcreteDataType::Float64
        )
    }

    /// True for the string type.
    pub fn is_string(&self) -> (r: bool)
        ensures
            r == (*self == ConcreteDataType::String),
    {
        matches!(self, ConcreteDataType::String)
    }

    pub fn null_datatype() -> (r: ConcreteDataType)
        ensures
            r == ConcreteDataType::Null,
    {
        ConcreteDataType::Null
    }

    pub fn boolean_datatype() -> (r: ConcreteDataType)
        ensures
            r == ConcreteDataType::Boolean,
    {
        ConcreteDataType::Boolean
    }

    pub fn uint8_datatype() -> (r: ConcreteDataType)
        ensures
            r == ConcreteDataType::UInt8,
    {
        ConcreteDataType::UInt8
    }

    pub fn uint16_datatype() -> (r: ConcreteDataType)
        ensures
            r == ConcreteDataType::UInt16,
    {
        ConcreteDataType::UInt16
    }

    pub fn uint32_datatype() -> (r: ConcreteDataType)
        ensures
            r == ConcreteDataType::UInt32,
    {
        ConcreteDataType::UInt32
    }

    pub fn uint64_datatype() -> (r: ConcreteDataType)
        ensures
            r == ConcreteDataType::UInt64,
    {
        ConcreteDataType::UInt64
    }

    pub fn int8_datatype() -> (r: ConcreteDataType)
        ensures
            r == ConcreteDataType::Int8,
    {
        ConcreteDataType::Int8
    }

    pub fn int16_datatype() -> (r: ConcreteDataType)
        ensures
            r == ConcreteDataType::Int16,
    {
        ConcreteDataType::Int16
    }

    pub fn int32_datatype() -> (r: ConcreteDataType)
        ensures
            r == ConcreteDataType::Int32,
    {
        ConcreteDataType::Int32
    }

    pub fn int64_datatype() -> (r: ConcreteDataType)
        ensures
            r == ConcreteDataType::Int64,
    {
        ConcreteDataType::Int64
    }

    pub fn float32_datatype() -> (r: ConcreteDataType)
        ensures
            r == ConcreteDataType::Float32,
    {
        ConcreteDataType::Float32
    }

    pub fn float64_datatype() -> (r: ConcreteDataType)
        ensures
            r == ConcreteDataType::Float64,
    {
        ConcreteDataType::Float64
    }

    pub fn string_datatype() -> (r: ConcreteDataType)
        ensures
            r == ConcreteDataType::String,
    {
        ConcreteDataType::String
    }

    pub fn binary_datatype() -> (r: ConcreteDataType)
        ensures
            r == ConcreteDataType::Binary,
    {
        ConcreteDataType::Binary
    }

    pub fn date_datatype() -> (r: ConcreteDataType)
        ensures
            r == ConcreteDataType::Date,
    {
        ConcreteDataType::Date
    }

    pub fn datetime_datatype() -> (r: ConcreteDataType)
        ensures
            r == ConcreteDataType::DateTime,
    {
        ConcreteDataType::DateTime
    }

    pub fn timestamp_second_datatype() -> (r: ConcreteDataType)
        ensures
            r == ConcreteDataType::Timestamp(TimestampType::Second),
    {
        ConcreteDataType::Timestamp(TimestampType::Second)
    }

    pub fn duration_second_datatype() -> (r: ConcreteDataType)
        ensures
            r == ConcreteDataType::Duration(DurationType::Second(DurationSecondType)),
    {
        ConcreteDataType::Duration(DurationType::Second(DurationSecondType))
    }

    pub fn interval_month_day_nano_datatype() -> (r: ConcreteDataType)
        ensures
            r == ConcreteDataType::Interval(IntervalType::MonthDayNano),
    {
        ConcreteDataType::Interval(IntervalType::MonthDayNano)
    }
}

/// True for the numeric types.
pub open spec fn is_numeric_spec(t: ConcreteDataType) -> bool {
    t == ConcreteDataType::UInt8 || t == ConcreteDataType::UInt16 || t == ConcreteDataType::UInt32
        || t == ConcreteDataType::UInt64 || t == ConcreteDataType::Int8 || t
        == ConcreteDataType::Int16 || t == ConcreteDataType::Int32 || t == ConcreteDataType::Int64
        || t == ConcreteDataType::Float32 || t == ConcreteDataType::Float64
}

/// A plain value of some concrete data type. The two float kinds carry
/// their payload outside the verified library; here only their kind is
/// modeled.
#[derive(Debug, Clone, PartialEq)]
pub enum Value {
    Null,
    Boolean(bool),
    UInt8(u8),
    UInt16(u16),
    UInt32(u32),
    UInt64(u64),
    Int8(i8),
    Int16(i16),
    Int32(i32),
    Int64(i64),
    Float32,
    Float64,
    String(String),
    Binary(Vec<u8>),
    Date(i32),
    DateTime(i64),
    Timestamp(Timestamp),
    Time(Time),
    Duration(Duration),
    Interval(Interval),
    Decimal128(Decimal128),
}

/// The concrete data type a value belongs to.
pub open spec fn data_type_spec(v: Value) -> ConcreteDataType {
    match v {
        Value::Null => ConcreteDataType::Null,
        Value::Boolean(_) => ConcreteDataType::Boolean,
        Value::UInt8(_) => ConcreteDataType::UInt8,
        Value::UInt16(_) => ConcreteDataType::UInt16,
        Value::UInt32(_) => ConcreteDataType::UInt32,
        Value::UInt64(_) => ConcreteDataType::UInt64,
        Value::Int8(_) => ConcreteDataType::Int8,
        Value::Int16(_) => ConcreteDataType::Int16,
        Value::Int32(_) => ConcreteDataType::Int32,
        Value::Int64(_) => ConcreteDataType::Int64,
        Value::Float32 => ConcreteDataType::Float32,
        Value::Float64 => ConcreteDataType::Float64,
        Value::String(_) => ConcreteDataType::String,
        Value::Binary(_) => ConcreteDataType::Binary,
        Value::Date(_) => ConcreteDataType::Date,
        Value::DateTime(_) => ConcreteDataType::DateTime,
        Value::Timestamp(t) => ConcreteDataType::Timestamp(timestamp_type_of(t.unit)),
        Value::Time(t) => ConcreteDataType::Time(time_type_of(t.unit)),
        Value::Duration(d) => ConcreteDataType::Duration(duration_type_of(d.unit)),
        Value::Interval(i) => ConcreteDataType::Interval(i.unit),
        Value::Decimal128(d) => ConcreteDataType::Decimal128(
            Decimal128Type { precision: d.precision, scale: d.scale },
        ),
    }
}

/// The timestamp column type of a unit.
pub open spec fn timestamp_type_of(unit: TimeUnit) -> TimestampType {
    match unit {
        TimeUnit::Second => TimestampType::Second,
        TimeUnit::Millisecond => TimestampType::Millisecond,
        TimeUnit::Microsecond => TimestampType::Microsecond,
        TimeUnit::Nanosecond => TimestampType::Nanosecond,
    }
}

/// The time-of-day column type of a unit.
pub open spec fn time_type_of(unit: TimeUnit) -> TimeType {
    match unit {
        TimeUnit::Second => TimeType::Second,
        TimeUnit::Millisecond => TimeType::Millisecond,
        TimeUnit::Microsecond => TimeType::Microsecond,
        TimeUnit::Nanosecond => TimeType::Nanosecond,
    }
}

/// The duration column type of a unit.
pub open spec fn duration_type_of(unit: TimeUnit) -> DurationType {
    match unit {
        TimeUnit::Second => DurationType::Second(DurationSecondType),
        TimeUnit::Millisecond => DurationType::Millisecond(DurationMillisecondType),
        TimeUnit::Microsecond => DurationType::Microsecond(DurationMicrosecondType),
        TimeUnit::Nanosecond => DurationType::Nanosecond(DurationNanosecondType),
    }
}

impl Value {
    /// The concrete data type of the value.
    pub fn data_type(&self) -> (t: ConcreteDataType)
        ensures
            t == data_type_spec(*self),
    {
        match self {
            Value::Null => ConcreteDataType::Null,
            Value::Boolean(_) => ConcreteDataType::Boolean,
            Value::UInt8(_) => ConcreteDataType::UInt8,
            Value::UInt16(_) => ConcreteDataType::UInt16,
            Value::UInt32(_) => ConcreteDataType::UInt32,
            Value::UInt64(_) => ConcreteDataType::UInt64,
            Value::Int8(_) => ConcreteDataType::Int8,
            Value::Int16(_) => ConcreteDataType::Int16,
            Value::Int32(_) => ConcreteDataType::Int32,
            Value::Int64(_) => ConcreteDataType::Int64,
            Value::Float32 => ConcreteDataType::Float32,
            Value::Float64 => ConcreteDataType::Float64,
            Value::String(_) => ConcreteDataType::String,
            Value::Binary(_) => ConcreteDataType::Binary,
            Value::Date(_) => ConcreteDataType::Date,
            Value::DateTime(_) => ConcreteDataType::DateTime,
            Value::Timestamp(t) => match t.unit {
                TimeUnit::Second => ConcreteDataType::Timestamp(TimestampType::Second),
                TimeUnit::Millisecond => ConcreteDataType::Timestamp(TimestampType::Millisecond),
                TimeUnit::Microsecond => ConcreteDataType::Timestamp(TimestampType::Microsecond),
                TimeUnit::Nanosecond => ConcreteDataType::Timestamp(TimestampType::Nanosecond),
            },
            Value::Time(t) => match t.unit {
                TimeUnit::Second => ConcreteDataType::Time(TimeType::Second),
                TimeUnit::Millisecond => ConcreteDataType::Time(TimeType::Millisecond),
                TimeUnit::Microsecond => ConcreteDataType::Time(TimeType::Microsecond),
                TimeUnit::Nanosecond => ConcreteDataType::Time(TimeType::Nanosecond),
            },
            Value::Duration(d) => match d.unit() {
                TimeUnit::Second => ConcreteDataType::Duration(
                    DurationType::Second(DurationSecondType),
                ),
                TimeUnit::Millisecond => ConcreteDataType::Duration(
                    DurationType::Millisecond(DurationMillisecondType),
                ),
                TimeUnit::Microsecond => ConcreteDataType::Duration(
                    DurationType::Microsecond(DurationMicrosecondType),
                ),
                TimeUnit::Nanosecond => ConcreteDataType::Duration(
                    DurationType::Nanosecond(DurationNanosecondType),
                ),
            },
            Value::Interval(i) => ConcreteDataType::Interval(i.unit),
            Value::Decimal128(d) => ConcreteDataType::Decimal128(
                Decimal128Type { precision: d.precision, scale: d.scale },
            ),
        }
    }
}

} // verus!
