//! Which value casts the engine admits, and the option that decides how a
//! failed cast is reported.
use vstd::prelude::*;

verus! {

use crate::data_type::{data_type_spec, ConcreteDataType, IntervalType, TimeType, Value,
    is_numeric_spec};

/// Options for cast functions: whether a failed cast is an error or a null.
#[derive(Debug, Default, Clone, PartialEq, Eq, Hash, Structural)]
pub struct CastOption {
    /// Report a failed cast as an error instead of returning null.
    pub strict: bool,
}

impl CastOption {
    /// Whether a failed cast is an error.
    pub fn is_strict(&self) -> (r: bool)
        ensures
            r == self.strict,
    {
        self.strict
    }
}

/// The cast-compatibility table: true when a value of type `src` may be
/// cast to `dest`. It only admits the cast; the cast itself can still fail
/// on the value.
pub open spec fn can_cast_spec(src: ConcreteDataType, dest: ConcreteDataType) -> bool {
    if src == dest {
        true
    } else {
        match (src, dest) {
            // null casts both ways
            (_, ConcreteDataType::Null) => true,
            (ConcreteDataType::Null, _) => true,
            // boolean casts
            (_, ConcreteDataType::Boolean) => is_numeric_spec(src) || src
                == ConcreteDataType::String,
            (ConcreteDataType::Boolean, _) => is_numeric_spec(dest) || dest
                == ConcreteDataType::String,
            // numeric and string casts
            (_, _) => {
                if (is_numeric_spec(src) || src == ConcreteDataType::String) && (is_numeric_spec(
                    dest,
                ) || dest == ConcreteDataType::String) {
                    true
                } else if src == ConcreteDataType::String && dest == ConcreteDataType::Binary {
                    true
                } else {
                    match (src, dest) {
                        // date casts
                        (
                            ConcreteDataType::Date,
                            ConcreteDataType::Int32 | ConcreteDataType::Timestamp(_)
                                | ConcreteDataType::String,
                        ) => true,
                        (
                            ConcreteDataType::Int32 | ConcreteDataType::Int64
                                | ConcreteDataType::String | ConcreteDataType::Timestamp(_),
                            ConcreteDataType::Date,
                        ) => true,
                        (ConcreteDataType::Date, ConcreteDataType::DateTime) => true,
                        // datetime casts
                        (
                            ConcreteDataType::DateTime,
                            ConcreteDataType::Int64 | ConcreteDataType::Timestamp(_)
                                | ConcreteDataType::String,
                        ) => true,
                        (
                            ConcreteDataType::Int64 | ConcreteDataType::Timestamp(_)
                                | ConcreteDataType::String,
                            ConcreteDataType::DateTime,
                        ) => true,
                        (ConcreteDataType::DateTime, ConcreteDataType::Date) => true,
                        // timestamp casts
                        (
                            ConcreteDataType::Timestamp(_),
                            ConcreteDataType::Int64 | ConcreteDataType::String,
                        ) => true,
                        (
                            ConcreteDataType::Int64 | ConcreteDataType::String,
                            ConcreteDataType::Timestamp(_),
                        ) => true,
                        (ConcreteDataType::Timestamp(_), ConcreteDataType::Timestamp(_)) => true,
                        // time casts
                        (ConcreteDataType::Time(_), ConcreteDataType::String) => true,
                        (ConcreteDataType::Time(TimeType::Second), ConcreteDataType::Int32) => true,
                        (
                            ConcreteDataType::Time(TimeType::Millisecond),
                            ConcreteDataType::Int32,
                        ) => true,
                        (ConcreteDataType::Int32, ConcreteDataType::Time(TimeType::Second)) => true,
                        (
                            ConcreteDataType::Int32,
                            ConcreteDataType::Time(TimeType::Millisecond),
                        ) => true,
                        (
                            ConcreteDataType::Time(TimeType::Microsecond),
                            ConcreteDataType::Int64,
                        ) => true,
                        (
                            ConcreteDataType::Time(TimeType::Nanosecond),
                            ConcreteDataType::Int64,
                        ) => true,
                        (
                            ConcreteDataType::Int64,
                            ConcreteDataType::Time(TimeType::Microsecond),
                        ) => true,
                        (
                            ConcreteDataType::Int64,
                            ConcreteDataType::Time(TimeType::Nanosecond),
                        ) => true,
                        (ConcreteDataType::Time(_), ConcreteDataType::Time(_)) => true,
                        // duration and interval casts
                        (ConcreteDataType::Duration(_), ConcreteDataType::Int64) => true,
                        (ConcreteDataType::Int64, ConcreteDataType::Duration(_)) => true,
                        (ConcreteDataType::Duration(_), ConcreteDataType::String) => true,
                        (
                            ConcreteDataType::Duration(_),
                            ConcreteDataType::Interval(IntervalType::MonthDayNano),
                        ) => true,
                        (
                            ConcreteDataType::Interval(IntervalType::MonthDayNano),
                            ConcreteDataType::Duration(_),
                        ) => true,
                        (
                            ConcreteDataType::Int32,
                            ConcreteDataType::Interval(IntervalType::YearMonth),
                        ) => true,
                        (
                            ConcreteDataType::Int64,
                            ConcreteDataType::Interval(IntervalType::DayTime),
                        ) => true,
                        (
                            ConcreteDataType::Interval(IntervalType::YearMonth),
                            ConcreteDataType::Int32,
                        ) => true,
                        (
                            ConcreteDataType::Interval(IntervalType::YearMonth)
                                | ConcreteDataType::Interval(IntervalType::DayTime),
                            ConcreteDataType::Int64,
                        ) => true,
                        (
                            ConcreteDataType::Interval(IntervalType::YearMonth),
                            ConcreteDataType::Interval(IntervalType::MonthDayNano),
                        ) => true,
                        (
                            ConcreteDataType::Interval(IntervalType::DayTime),
                            ConcreteDataType::Interval(IntervalType::MonthDayNano),
                        ) => true,
                        (_, _) => false,
                    }
                }
            },
        }
    }
}

/// True when `src_value` may be cast to `dest_type`: the value's type and
/// the destination stand in the engine's cast-compatibility table. This
/// does not promise the cast of the value itself will succeed.
pub fn can_cast_type(src_value: &Value, dest_type: &ConcreteDataType) -> (r: bool)
    ensures
        r == can_cast_spec(data_type_spec(*src_value), *dest_type),
{
    let src_type = src_value.data_type();
    if src_type == *dest_type {
        return true;
    }
    match (&src_type, dest_type) {
        (_, ConcreteDataType::Null) => true,
        (ConcreteDataType::Null, _) => true,
        (_, ConcreteDataType::Boolean) => src_type.is_numeric() || src_type.is_string(),
        (ConcreteDataType::Boolean, _) => dest_type.is_numeric() || dest_type.is_string(),
        (_, _) => {
            if (src_type.is_numeric() || src_type.is_string()) && (dest_type.is_numeric()
                || dest_type.is_string()) {
                true
            } else if src_type.is_string() && matches!(dest_type, ConcreteDataType::Binary) {
                true
            } else {
                match (&src_type, dest_type) {
                    (
                        ConcreteDataType::Date,
                        ConcreteDataType::Int32 | ConcreteDataType::Timestamp(_)
                            | ConcreteDataType::String,
                    ) => true,
                    (
                        ConcreteDataType::Int32 | ConcreteDataType::Int64
                            | ConcreteDataType::String | ConcreteDataType::Timestamp(_),
                        ConcreteDataType::Date,
                    ) => true,
                    (ConcreteDataType::Date, ConcreteDataType::DateTime) => true,
                    (
                        ConcreteDataType::DateTime,
                        ConcreteDataType::Int64 | ConcreteDataType::Timestamp(_)
                            | ConcreteDataType::String,
                    ) => true,
                    (
                        ConcreteDataType::Int64 | ConcreteDataType::Timestamp(_)
                            | ConcreteDataType::String,
                        ConcreteDataType::DateTime,
                    ) => true,
                    (ConcreteDataType::DateTime, ConcreteDataType::Date) => true,
                    (
                        ConcreteDataType::Timestamp(_),
                        ConcreteDataType::Int64 | ConcreteDataType::String,
                    ) => true,
                    (
                        ConcreteDataType::Int64 | ConcreteDataType::String,
                        ConcreteDataType::Timestamp(_),
                    ) => true,
                    (ConcreteDataType::Timestamp(_), ConcreteDataType::Timestamp(_)) => true,
                    (ConcreteDataType::Time(_), ConcreteDataType::String) => true,
                    (ConcreteDataType::Time(TimeType::Second), ConcreteDataType::Int32) => true,
                    (ConcreteDataType::Time(TimeType::Millisecond), ConcreteDataType::Int32) => true,
                    (ConcreteDataType::Int32, ConcreteDataType::Time(TimeType::Second)) => true,
                    (ConcreteDataType::Int32, ConcreteDataType::Time(TimeType::Millisecond)) => true,
                    (ConcreteDataType::Time(TimeType::Microsecond), ConcreteDataType::Int64) => true,
                    (ConcreteDataType::Time(TimeType::Nanosecond), ConcreteDataType::Int64) => true,
                    (ConcreteDataType::Int64, ConcreteDataType::Time(TimeType::Microsecond)) => true,
                    (ConcreteDataType::Int64, ConcreteDataType::Time(TimeType::Nanosecond)) => true,
                    (ConcreteDataType::Time(_), ConcreteDataType::Time(_)) => true,
                    (ConcreteDataType::Duration(_), ConcreteDataType::Int64) => true,
                    (ConcreteDataType::Int64, ConcreteDataType::Duration(_)) => true,
                    (ConcreteDataType::Duration(_), ConcreteDataType::String) => true,
                    (
                        ConcreteDataType::Duration(_),
                        ConcreteDataType::Interval(IntervalType::MonthDayNano),
                    ) => true,
                    (
                        ConcreteDataType::Interval(IntervalType::MonthDayNano),
                        ConcreteDataType::Duration(_),
                    ) => true,
                    (
                        ConcreteDataType::Int32,
                        ConcreteDataType::Interval(IntervalType::YearMonth),
                    ) => true,
                    (
                        ConcreteDataType::Int64,
                        ConcreteDataType::Interval(IntervalType::DayTime),
                    ) => true,
                    (
                        ConcreteDataType::Interval(IntervalType::YearMonth),
                        ConcreteDataType::Int32,
                    ) => true,
                    (
                        ConcreteDataType::Interval(IntervalType::YearMonth)
                            | ConcreteDataType::Interval(IntervalType::DayTime),
                        ConcreteDataType::Int64,
                    ) => true,
                    (
                        ConcreteDataType::Interval(IntervalType::YearMonth),
                        ConcreteDataType::Interval(IntervalType::MonthDayNano),
                    ) => true,
                    (
                        ConcreteDataType::Interval(IntervalType::DayTime),
                        ConcreteDataType::Interval(IntervalType::MonthDayNano),
                    ) => true,
                    (_, _) => false,
                }
            }
        },
    }
}

/// A cast that the engine could not perform: the value and the destination
/// type, for the caller to report.
#[derive(Debug, PartialEq)]
pub struct CastFailed {
    pub src_value: Value,
    pub dest_type: ConcreteDataType,
}

/// What casting a value comes to before the engine is consulted.
#[derive(Debug, PartialEq)]
pub enum CastStep {
    /// The cast is settled without the engine: null stays null, and an
    /// inadmissible cast is an error under the strict option and null
    /// otherwise.
    Done(Result<Value, CastFailed>),
    /// The cast is admissible: the engine's per-type cast decides.
    NeedEngineCast,
}

/// Decides a cast as far as the compatibility table reaches: a null value
/// passes through, an inadmissible cast fails or nulls out by the option,
/// and an admissible one is left to the engine's per-type cast.
pub fn cast_step(src_value: Value, dest_type: &ConcreteDataType, cast_option: &CastOption) -> (r:
    CastStep)
    ensures
        src_value is Null ==> r == CastStep::Done(Ok::<Value, CastFailed>(Value::Null)),
        !(src_value is Null) && !can_cast_spec(data_type_spec(src_value), *dest_type)
            && cast_option.strict ==> r == CastStep::Done(
            Err::<Value, CastFailed>(CastFailed { src_value, dest_type: *dest_type }),
        ),
        !(src_value is Null) && !can_cast_spec(data_type_spec(src_value), *dest_type)
            && !cast_option.strict ==> r == CastStep::Done(Ok::<Value, CastFailed>(Value::Null)),
        !(src_value is Null) && can_cast_spec(data_type_spec(src_value), *dest_type) ==> r
            == CastStep::NeedEngineCast,
{
    if matches!(src_value, Value::Null) {
        return CastStep::Done(Ok(Value::Null));
    }
    if !can_cast_type(&src_value, dest_type) {
        if cast_option.strict {
            return CastStep::Done(Err(CastFailed { src_value, dest_type: *dest_type }));
        }
        return CastStep::Done(Ok(Value::Null));
    }
    CastStep::NeedEngineCast
}

/// Maps the engine's cast outcome: a produced value is the result, and a
/// refused cast is an error under the strict option and null otherwise. The
/// engine call itself lives outside the library; this says what the cast
/// returns for every outcome it can hand back.
pub fn resolve_cast(
    src_value: Value,
    dest_type: &ConcreteDataType,
    cast_option: &CastOption,
    engine_result: Option<Value>,
) -> (r: Result<Value, CastFailed>)
    ensures
        engine_result matches Some(v) ==> r == Ok::<Value, CastFailed>(v),
        engine_result is None && cast_option.strict ==> r == Err::<Value, CastFailed>(
            CastFailed { src_value, dest_type: *dest_type },
        ),
        engine_result is None && !cast_option.strict ==> r == Ok::<Value, CastFailed>(Value::Null),
{
    match engine_result {
        Some(v) => Ok(v),
        None => {
            if cast_option.strict {
                Err(CastFailed { src_value, dest_type: *dest_type })
            } else {
                Ok(Value::Null)
            }
        },
    }
}

} // verus!
