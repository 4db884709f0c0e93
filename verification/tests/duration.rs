use std::str::FromStr;

use tiered_io::time::{Duration, TimeUnit};

#[test]
pub fn test_cmp_duration() {
    let t = Duration::new(1, TimeUnit::Millisecond);
    assert_eq!(TimeUnit::Millisecond, t.unit());
    assert_eq!(1, t.value());
    assert_eq!(Duration::new(1000, TimeUnit::Microsecond), t);
    assert!(t > Duration::new(999, TimeUnit::Microsecond));
    assert!(t < Duration::new(1, TimeUnit::Second))
}

#[test]
pub fn test_str_to_duration() {
    let t = Duration::from_str("1ms").unwrap();
    assert_eq!(TimeUnit::Millisecond, t.unit());
    assert_eq!(1, t.value());

    let t = Duration::from_str("123s").unwrap();
    assert_eq!(TimeUnit::Second, t.unit());
    assert_eq!(123, t.value());

    let t = Duration::from_str("1000us").unwrap();
    assert_eq!(TimeUnit::Microsecond, t.unit());
    assert_eq!(1000, t.value());

    let t = Duration::from_str("1200000ns").unwrap();
    assert_eq!(TimeUnit::Nanosecond, t.unit());
    assert_eq!(1200000, t.value());
}

#[test]
pub fn test_from_i64() {
    let t = Duration::from(1);
    assert_eq!(TimeUnit::Millisecond, t.unit());
    assert_eq!(1, t.value());
}

#[test]
pub fn test_duration_to_i64() {
    let t = Duration::from(1);
    assert_eq!(1, i64::from(t));
}

#[test]
pub fn test_hash() {
    let t = Duration::from(1);
    let t2 = Duration::from(1);
    let mut map = std::collections::HashMap::new();
    map.insert(t, 1);
    assert_eq!(1, *map.get(&t2).unwrap());
}

#[test]
pub fn test_negative_str() {
    let t = Duration::from_str("-1ns").unwrap();
    assert_eq!(TimeUnit::Nanosecond, t.unit());
    assert_eq!(-1, t.value());
}

#[test]
fn test_duration_to_string() {
    assert_eq!(Duration::new_second(1).to_string(), "1s");
    assert_eq!(Duration::new_millisecond(10).to_string(), "10ms");
    assert_eq!(Duration::new_microsecond(100).to_string(), "100us");
    assert_eq!(Duration::new_nanosecond(10000).to_string(), "10000ns");
    assert_eq!(Duration::new_millisecond(-42).to_string(), "-42ms");
}

#[test]
fn test_parse_rejects_bad_input() {
    assert!(Duration::from_str("").is_err());
    assert!(Duration::from_str("12").is_err());
    assert!(Duration::from_str("12xs").is_err());
    assert!(Duration::from_str("s").is_err());
    assert!(Duration::from_str("99999999999999999999s").is_err());
    let e = Duration::from_str("12d").unwrap_err();
    assert_eq!(e.raw, "12d");
}

#[test]
fn test_unit_helpers() {
    assert_eq!(TimeUnit::Second.factor(), 1_000_000_000);
    assert_eq!(TimeUnit::Millisecond.factor(), 1_000_000);
    assert_eq!(TimeUnit::Microsecond.factor(), 1_000);
    assert_eq!(TimeUnit::Nanosecond.factor(), 1);
    assert_eq!(TimeUnit::Second.short_name(), "s");
    assert_eq!(TimeUnit::Millisecond.short_name(), "ms");
    assert_eq!(TimeUnit::Microsecond.short_name(), "us");
    assert_eq!(TimeUnit::Nanosecond.short_name(), "ns");
}
