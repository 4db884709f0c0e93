use tiered_io::cast::{can_cast_type, cast_step, resolve_cast, CastFailed, CastOption, CastStep};
use tiered_io::data_type::{ConcreteDataType, Interval, Time, Timestamp, Value};
use tiered_io::decimal_type::Decimal128Type;
use tiered_io::duration_type::{
    DurationMicrosecondType, DurationMillisecondType, DurationNanosecondType, DurationSecondType,
    DurationType, InvalidDurationPrecision,
};
use tiered_io::fetch::{select_fetch_strategy, FetchStrategy};
use tiered_io::projection::{column_index_by_id, default_projection, transform_projection};
use tiered_io::scalars::{
    DurationMicrosecond, DurationMillisecond, DurationNanosecond, DurationSecond,
};
use tiered_io::time::{Duration, TimeUnit};

#[test]
fn test_duration_type_unit() {
    assert_eq!(
        TimeUnit::Second,
        DurationType::Second(DurationSecondType).unit()
    );

    assert_eq!(
        TimeUnit::Millisecond,
        DurationType::Millisecond(DurationMillisecondType).unit()
    );

    assert_eq!(
        TimeUnit::Microsecond,
        DurationType::Microsecond(DurationMicrosecondType).unit()
    );

    assert_eq!(
        TimeUnit::Nanosecond,
        DurationType::Nanosecond(DurationNanosecondType).unit()
    );
}

#[test]
fn test_duration_type_precision() {
    assert_eq!(DurationType::Second(DurationSecondType).precision(), 0);
    assert_eq!(DurationType::Millisecond(DurationMillisecondType).precision(), 3);
    assert_eq!(DurationType::Microsecond(DurationMicrosecondType).precision(), 6);
    assert_eq!(DurationType::Nanosecond(DurationNanosecondType).precision(), 9);
}

#[test]
fn test_duration_type_try_from_precision() {
    assert_eq!(
        DurationType::try_from(3u64),
        Ok(DurationType::Millisecond(DurationMillisecondType))
    );
    assert_eq!(
        DurationType::try_from(4u64),
        Err(InvalidDurationPrecision { precision: 4 })
    );
}

#[test]
fn test_duration_scalar() {
    let d = DurationSecond::new(456);
    assert_eq!(d, d.as_scalar_ref());
    assert_eq!(d, d.to_owned_scalar());
    let d = DurationMillisecond::new(456);
    assert_eq!(d, d.as_scalar_ref());
    assert_eq!(d, d.to_owned_scalar());
    let d = DurationMicrosecond::new(456);
    assert_eq!(d, d.as_scalar_ref());
    assert_eq!(d, d.to_owned_scalar());
    let d = DurationNanosecond::new(456);
    assert_eq!(d, d.as_scalar_ref());
    assert_eq!(d, d.to_owned_scalar());
}

#[test]
fn test_decimal128_type() {
    let t = Decimal128Type::new(38, 10);
    assert_eq!(t.precision(), 38);
    assert_eq!(t.scale(), 10);
}

#[test]
fn test_cast_option() {
    assert!(!CastOption::default().is_strict());
    assert!(CastOption { strict: true }.is_strict());
}

#[test]
fn test_can_cast_type() {
    // numeric cast
    let numeric_targets = [
        ConcreteDataType::uint8_datatype(),
        ConcreteDataType::uint16_datatype(),
        ConcreteDataType::uint32_datatype(),
        ConcreteDataType::uint64_datatype(),
        ConcreteDataType::int8_datatype(),
        ConcreteDataType::int16_datatype(),
        ConcreteDataType::int32_datatype(),
        ConcreteDataType::int64_datatype(),
        ConcreteDataType::float32_datatype(),
        ConcreteDataType::float64_datatype(),
    ];
    let numeric_values = [
        Value::UInt8(0),
        Value::UInt16(1),
        Value::UInt32(2),
        Value::UInt64(3),
        Value::Int8(4),
        Value::Int16(5),
        Value::Int32(6),
        Value::Int64(7),
        Value::Float32,
        Value::Float64,
        Value::String("10".to_string()),
    ];
    for val in &numeric_values {
        for t in &numeric_targets {
            assert_eq!(can_cast_type(val, t), true);
        }
    }

    // string cast
    let val = Value::String("0".to_string());
    for t in [
        ConcreteDataType::null_datatype(),
        ConcreteDataType::boolean_datatype(),
        ConcreteDataType::date_datatype(),
        ConcreteDataType::datetime_datatype(),
        ConcreteDataType::timestamp_second_datatype(),
        ConcreteDataType::binary_datatype(),
    ] {
        assert_eq!(can_cast_type(&val, &t), true);
    }

    // date cast
    let val = Value::Date(18628);
    for t in [
        ConcreteDataType::null_datatype(),
        ConcreteDataType::int32_datatype(),
        ConcreteDataType::timestamp_second_datatype(),
        ConcreteDataType::datetime_datatype(),
        ConcreteDataType::string_datatype(),
    ] {
        assert_eq!(can_cast_type(&val, &t), true);
    }

    // datetime cast
    let val = Value::DateTime(1609459200000);
    for t in [
        ConcreteDataType::null_datatype(),
        ConcreteDataType::int64_datatype(),
        ConcreteDataType::date_datatype(),
        ConcreteDataType::timestamp_second_datatype(),
        ConcreteDataType::string_datatype(),
    ] {
        assert_eq!(can_cast_type(&val, &t), true);
    }

    // timestamp cast
    let val = Value::Timestamp(Timestamp::new_second(1609459200));
    for t in [
        ConcreteDataType::null_datatype(),
        ConcreteDataType::int64_datatype(),
        ConcreteDataType::date_datatype(),
        ConcreteDataType::datetime_datatype(),
        ConcreteDataType::string_datatype(),
    ] {
        assert_eq!(can_cast_type(&val, &t), true);
    }

    // time cast
    let val = Value::Time(Time::new_second(0));
    for t in [
        ConcreteDataType::null_datatype(),
        ConcreteDataType::string_datatype(),
    ] {
        assert_eq!(can_cast_type(&val, &t), true);
    }

    // duration cast
    let val = Value::Duration(Duration::new_second(0));
    for t in [
        ConcreteDataType::null_datatype(),
        ConcreteDataType::int64_datatype(),
        ConcreteDataType::string_datatype(),
        ConcreteDataType::interval_month_day_nano_datatype(),
    ] {
        assert_eq!(can_cast_type(&val, &t), true);
    }

    // interval cast
    let val = Value::Interval(Interval::from_year_month(0));
    for t in [
        ConcreteDataType::null_datatype(),
        ConcreteDataType::int32_datatype(),
        ConcreteDataType::int64_datatype(),
        ConcreteDataType::interval_month_day_nano_datatype(),
    ] {
        assert_eq!(can_cast_type(&val, &t), true);
    }

    let val = Value::Interval(Interval::from_day_time(1, 2));
    for t in [
        ConcreteDataType::null_datatype(),
        ConcreteDataType::int64_datatype(),
        ConcreteDataType::interval_month_day_nano_datatype(),
    ] {
        assert_eq!(can_cast_type(&val, &t), true);
    }

    let val = Value::Interval(Interval::from_month_day_nano(1, 2, 3));
    for t in [
        ConcreteDataType::null_datatype(),
        ConcreteDataType::duration_second_datatype(),
    ] {
        assert_eq!(can_cast_type(&val, &t), true);
    }

    // refused casts
    assert_eq!(
        can_cast_type(&Value::Time(Time::new_second(0)), &ConcreteDataType::date_datatype()),
        false
    );
    assert_eq!(
        can_cast_type(&Value::Binary(vec![1]), &ConcreteDataType::string_datatype()),
        false
    );
}

#[test]
fn test_fetch_strategy_selection() {
    assert_eq!(select_fetch_strategy(true), FetchStrategy::Sequential);
    assert_eq!(select_fetch_strategy(false), FetchStrategy::Concurrent);
}

#[test]
fn test_projection_mapping() {
    // physical column ids, in physical order
    let physical = vec![10u32, 11, 20, 30, 40];
    assert_eq!(column_index_by_id(&physical, 20), Some(2));
    assert_eq!(column_index_by_id(&physical, 99), None);

    // logical columns carry a subset of the physical ids
    let logical = vec![10u32, 20, 40];
    let mapped = transform_projection(&logical, &physical, &[2, 0]);
    assert_eq!(mapped, vec![4, 0]);

    let all = default_projection(&logical, &physical);
    assert_eq!(all, vec![0, 2, 4]);
}

#[test]
fn test_cast_step_decisions() {
    let strict = CastOption { strict: true };
    let lenient = CastOption { strict: false };

    // null passes through without the engine
    assert_eq!(
        cast_step(Value::Null, &ConcreteDataType::int64_datatype(), &strict),
        CastStep::Done(Ok(Value::Null))
    );

    // an inadmissible cast fails under strict and nulls out otherwise
    let time = Value::Time(Time::new_second(0));
    assert_eq!(
        cast_step(time.clone(), &ConcreteDataType::date_datatype(), &strict),
        CastStep::Done(Err(CastFailed {
            src_value: time.clone(),
            dest_type: ConcreteDataType::date_datatype(),
        }))
    );
    assert_eq!(
        cast_step(time, &ConcreteDataType::date_datatype(), &lenient),
        CastStep::Done(Ok(Value::Null))
    );

    // an admissible cast is left to the engine
    assert_eq!(
        cast_step(Value::Int8(-1), &ConcreteDataType::uint8_datatype(), &strict),
        CastStep::NeedEngineCast
    );
}

#[test]
fn test_resolve_cast_outcomes() {
    let strict = CastOption { strict: true };
    let lenient = CastOption { strict: false };
    let dest = ConcreteDataType::uint8_datatype();

    assert_eq!(
        resolve_cast(Value::Int8(1), &dest, &strict, Some(Value::UInt8(1))),
        Ok(Value::UInt8(1))
    );
    assert_eq!(
        resolve_cast(Value::Int8(-1), &dest, &strict, None),
        Err(CastFailed { src_value: Value::Int8(-1), dest_type: dest })
    );
    assert_eq!(resolve_cast(Value::Int8(-1), &dest, &lenient, None), Ok(Value::Null));
}
