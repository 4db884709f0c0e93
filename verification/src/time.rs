//! Time durations: a signed count of a time unit, with normalized
//! comparison, decimal formatting and parsing of the `123s` / `-1ns` form.
use vstd::prelude::*;

verus! {

use crate::strfmt::{chars_of_bytes, int_dec_bytes};
use vstd::string::StringSliceAdditionalSpecFns;

/// Unit of a time value.
#[derive(Debug, Clone, Copy, PartialEq, Eq, Hash, Structural)]
pub enum TimeUnit {
    Second,
    Millisecond,
    Microsecond,
    Nanosecond,
}

/// How many nanoseconds one tick of the unit lasts.
pub open spec fn factor_spec(unit: TimeUnit) -> int {
    match unit {
        TimeUnit::Second => 1_000_000_000,
        TimeUnit::Millisecond => 1_000_000,
        TimeUnit::Microsecond => 1_000,
        TimeUnit::Nanosecond => 1,
    }
}

/// The unit's short suffix.
pub open spec fn short_name_spec(unit: TimeUnit) -> Seq<char> {
    match unit {
        TimeUnit::Second => "s"@,
        TimeUnit::Millisecond => "ms"@,
        TimeUnit::Microsecond => "us"@,
        TimeUnit::Nanosecond => "ns"@,
    }
}

impl TimeUnit {
    /// How many nanoseconds one tick of the unit lasts.
    pub fn factor(&self) -> (r: u32)
        ensures
            r as int == factor_spec(*self),
    {
        match self {
            TimeUnit::Second => 1_000_000_000,
            TimeUnit::Millisecond => 1_000_000,
            TimeUnit::Microsecond => 1_000,
            TimeUnit::Nanosecond => 1,
        }
    }

    /// The unit's short suffix, as used by `Duration::to_string`.
    pub fn short_name(&self) -> (r: &'static str)
        ensures
            r@ == short_name_spec(*self),
    {
        match self {
            TimeUnit::Second => "s",
            TimeUnit::Millisecond => "ms",
            TimeUnit::Microsecond => "us",
            TimeUnit::Nanosecond => "ns",
        }
    }
}

/// A time duration: a signed value counted in a unit.
///
/// Equality and ordering compare how long the duration lasts, across units.
/// The derived `Hash` goes by the raw value and unit instead, so two equal
/// durations written in different units hash apart: hash-map lookups work
/// only with keys in the unit they were inserted under.
#[derive(Debug, Clone, Copy, Hash)]
pub struct Duration {
    pub value: i64,
    pub unit: TimeUnit,
}

/// The length of a duration in nanoseconds. Two durations are equal exactly
/// when their nanosecond lengths are; comparison goes the same way.
pub open spec fn nanos_spec(d: Duration) -> int {
    d.value * factor_spec(d.unit)
}

/// Seconds per tick divider: how many ticks of `unit` make one second.
pub open spec fn sec_mul_spec(unit: TimeUnit) -> int {
    1_000_000_000int / factor_spec(unit)
}

impl Duration {
    /// Creates a duration of `value` ticks of `unit`.
    pub fn new(value: i64, unit: TimeUnit) -> (d: Duration)
        ensures
            d.value == value,
            d.unit == unit,
    {
        Duration { value, unit }
    }

    /// Creates a duration counted in seconds.
    pub fn new_second(value: i64) -> (d: Duration)
        ensures
            d.value == value,
            d.unit == TimeUnit::Second,
    {
        Duration { value, unit: TimeUnit::Second }
    }

    /// Creates a duration counted in milliseconds.
    pub fn new_millisecond(value: i64) -> (d: Duration)
        ensures
            d.value == value,
            d.unit == TimeUnit::Millisecond,
    {
        Duration { value, unit: TimeUnit::Millisecond }
    }

    /// Creates a duration counted in microseconds.
    pub fn new_microsecond(value: i64) -> (d: Duration)
        ensures
            d.value == value,
            d.unit == TimeUnit::Microsecond,
    {
        Duration { value, unit: TimeUnit::Microsecond }
    }

    /// Creates a duration counted in nanoseconds.
    pub fn new_nanosecond(value: i64) -> (d: Duration)
        ensures
            d.value == value,
            d.unit == TimeUnit::Nanosecond,
    {
        Duration { value, unit: TimeUnit::Nanosecond }
    }

    /// The unit of the duration.
    pub fn unit(&self) -> (u: TimeUnit)
        ensures
            u == self.unit,
    {
        self.unit
    }

    /// The raw tick count of the duration.
    pub fn value(&self) -> (v: i64)
        ensures
            v == self.value,
    {
        self.value
    }

    /// Formats the duration as its value followed by the unit's short
    /// suffix, such as `1s`, `10ms`, `100us` or `10000ns`.
    pub fn to_string(&self) -> (s: String)
        ensures
            s@ == chars_of_bytes(int_dec_bytes(self.value as int)) + short_name_spec(self.unit),
    {
        let digits = crate::strfmt::i128_to_dec_string(self.value as i128);
        digits.concat(self.unit.short_name())
    }

    /// Splits the duration into whole seconds, rounded toward negative
    /// infinity, and the remaining nanoseconds.
    fn split(&self) -> (r: (i64, u32))
        ensures
            r.0 == self.value as int / sec_mul_spec(self.unit),
            r.1 == (self.value as int % sec_mul_spec(self.unit)) * factor_spec(self.unit),
            0 <= r.1 < 1_000_000_000,
            nanos_spec(*self) == r.0 * 1_000_000_000 + r.1,
    {
        let sec_mul: i64 = (1_000_000_000 / self.unit.factor()) as i64;
        let nsec_mul: i64 = self.unit.factor() as i64;

        proof {
            match self.unit {
                TimeUnit::Second => {
                    assert(sec_mul == 1 && nsec_mul == 1_000_000_000);
                },
                TimeUnit::Millisecond => {
                    assert(sec_mul == 1_000 && nsec_mul == 1_000_000);
                },
                TimeUnit::Microsecond => {
                    assert(sec_mul == 1_000_000 && nsec_mul == 1_000);
                },
                TimeUnit::Nanosecond => {
                    assert(sec_mul == 1_000_000_000 && nsec_mul == 1);
                },
            }
            assert(sec_mul == sec_mul_spec(self.unit));
            assert(sec_mul as int * (nsec_mul as int) == 1_000_000_000) by (nonlinear_arith)
                requires
                    (sec_mul == 1_000_000_000 && nsec_mul == 1) || (sec_mul == 1_000 && nsec_mul
                        == 1_000_000) || (sec_mul == 1_000_000 && nsec_mul == 1_000) || (sec_mul
                        == 1 && nsec_mul == 1_000_000_000),
            ;
            let m = sec_mul as int;
            let v = self.value as int;
            vstd::arithmetic::div_mod::lemma_fundamental_div_mod(v, m);
            assert(i64::MIN <= v / m <= i64::MAX && 0 <= v % m < m) by (nonlinear_arith)
                requires
                    v == m * (v / m) + (v % m),
                    0 <= v % m < m,
                    m >= 1,
                    i64::MIN <= v <= i64::MAX,
            ;
        }
        let sec_div = match self.value.checked_div_euclid(sec_mul) {
            Some(q) => q,
            None => 0,  // unreachable: the divisor is positive
        };
        let sec_mod = match self.value.checked_rem_euclid(sec_mul) {
            Some(r) => r,
            None => 0,  // unreachable: the divisor is positive
        };
        proof {
            assert(0 <= sec_mod as int * (nsec_mul as int) < 1_000_000_000) by (nonlinear_arith)
                requires
                    0 <= sec_mod < sec_mul,
                    nsec_mul >= 1,
                    sec_mul as int * (nsec_mul as int) == 1_000_000_000,
            ;
        }
        let nsec = sec_mod * nsec_mul;
        proof {
            vstd::arithmetic::div_mod::lemma_fundamental_div_mod(
                self.value as int,
                sec_mul as int,
            );
            assert(nanos_spec(*self) == sec_div * 1_000_000_000 + nsec) by (nonlinear_arith)
                requires
                    nanos_spec(*self) == self.value as int * factor_spec(self.unit),
                    self.value as int == (sec_mul as int) * (sec_div as int) + sec_mod,
                    nsec == sec_mod as int * (nsec_mul as int),
                    nsec_mul == factor_spec(self.unit),
                    sec_mul as int * (nsec_mul as int) == 1_000_000_000,
            ;
        }
        (sec_div, nsec as u32)
    }
}

impl PartialEq for Duration {
    /// Two durations are equal when they last equally long, whatever their
    /// units.
    fn eq(&self, other: &Duration) -> (r: bool) {
        if self.unit == other.unit {
            proof {
                assert((self.value == other.value) == (nanos_spec(*self) == nanos_spec(*other)))
                    by (nonlinear_arith)
                    requires
                        factor_spec(self.unit) == factor_spec(other.unit),
                        factor_spec(self.unit) > 0,
                        nanos_spec(*self) == self.value as int * factor_spec(self.unit),
                        nanos_spec(*other) == other.value as int * factor_spec(other.unit),
                ;
            }
            self.value == other.value
        } else {
            let (s_sec, s_nsec) = self.split();
            let (o_sec, o_nsec) = other.split();
            s_sec == o_sec && s_nsec == o_nsec
        }
    }
}

impl vstd::std_specs::cmp::PartialEqSpecImpl for Duration {
    open spec fn obeys_eq_spec() -> bool {
        true
    }

    open spec fn eq_spec(&self, other: &Duration) -> bool {
        nanos_spec(*self) == nanos_spec(*other)
    }
}

impl Eq for Duration {

}

impl PartialOrd for Duration {
    /// Durations order by how long they last, whatever their units.
    fn partial_cmp(&self, other: &Duration) -> (r: Option<core::cmp::Ordering>) {
        if self.unit == other.unit {
            proof {
                assert((self.value < other.value) == (nanos_spec(*self) < nanos_spec(*other))
                    && (self.value == other.value) == (nanos_spec(*self) == nanos_spec(*other)))
                    by (nonlinear_arith)
                    requires
                        factor_spec(self.unit) == factor_spec(other.unit),
                        factor_spec(self.unit) > 0,
                        nanos_spec(*self) == self.value as int * factor_spec(self.unit),
                        nanos_spec(*other) == other.value as int * factor_spec(other.unit),
                ;
            }
            if self.value < other.value {
                Some(core::cmp::Ordering::Less)
            } else if self.value == other.value {
                Some(core::cmp::Ordering::Equal)
            } else {
                Some(core::cmp::Ordering::Greater)
            }
        } else {
            let (s_sec, s_nsec) = self.split();
            let (o_sec, o_nsec) = other.split();
            if s_sec < o_sec {
                Some(core::cmp::Ordering::Less)
            } else if s_sec > o_sec {
                Some(core::cmp::Ordering::Greater)
            } else if s_nsec < o_nsec {
                Some(core::cmp::Ordering::Less)
            } else if s_nsec > o_nsec {
                Some(core::cmp::Ordering::Greater)
            } else {
                Some(core::cmp::Ordering::Equal)
            }
        }
    }
}

impl vstd::std_specs::cmp::PartialOrdSpecImpl for Duration {
    open spec fn obeys_partial_cmp_spec() -> bool {
        true
    }

    open spec fn partial_cmp_spec(&self, other: &Duration) -> Option<core::cmp::Ordering> {
        if nanos_spec(*self) < nanos_spec(*other) {
            Some(core::cmp::Ordering::Less)
        } else if nanos_spec(*self) == nanos_spec(*other) {
            Some(core::cmp::Ordering::Equal)
        } else {
            Some(core::cmp::Ordering::Greater)
        }
    }
}

/// The whole seconds of a duration, rounded toward negative infinity.
pub open spec fn split_sec_spec(d: Duration) -> int {
    d.value as int / sec_mul_spec(d.unit)
}

/// The nanoseconds of a duration past its whole seconds.
pub open spec fn split_nsec_spec(d: Duration) -> int {
    (d.value as int % sec_mul_spec(d.unit)) * factor_spec(d.unit)
}

/// The tick count a duration gets when converted to `unit`: the whole
/// seconds scaled by the nanosecond factor of a second plus the remaining
/// nanoseconds brought to `unit`, with wrapping arithmetic where the scaled
/// value does not fit.
pub open spec fn convert_value_spec(d: Duration, unit: TimeUnit) -> int {
    let sec = split_sec_spec(d) as i64;
    let nsec = split_nsec_spec(d);
    match unit {
        TimeUnit::Second => sec as int,
        TimeUnit::Millisecond => vstd::wrapping::i64_specs::wrapping_add(
            vstd::wrapping::i64_specs::wrapping_mul(sec, 1_000_000_000),
            (nsec / 1_000_000) as i64,
        ) as int,
        TimeUnit::Microsecond => vstd::wrapping::i64_specs::wrapping_add(
            vstd::wrapping::i64_specs::wrapping_mul(sec, 1_000_000_000),
            (nsec / 1_000) as i64,
        ) as int,
        TimeUnit::Nanosecond => vstd::wrapping::i64_specs::wrapping_add(
            vstd::wrapping::i64_specs::wrapping_mul(sec, 1_000_000_000),
            nsec as i64,
        ) as int,
    }
}

impl Duration {
    /// Converts the duration to another unit, over its split into seconds
    /// and nanoseconds; a scaled value that does not fit an `i64` wraps.
    fn convert_to(&self, unit: TimeUnit) -> (d: Duration)
        ensures
            d.unit == unit,
            d.value as int == convert_value_spec(*self, unit),
    {
        let (sec, nsec) = self.split();
        let value: i64 = match unit {
            TimeUnit::Second => sec,
            TimeUnit::Millisecond => sec.wrapping_mul(1_000_000_000).wrapping_add(
                (nsec / 1_000_000) as i64,
            ),
            TimeUnit::Microsecond => sec.wrapping_mul(1_000_000_000).wrapping_add(
                (nsec / 1_000) as i64,
            ),
            TimeUnit::Nanosecond => sec.wrapping_mul(1_000_000_000).wrapping_add(nsec as i64),
        };
        Duration { value, unit }
    }
}

impl From<i64> for Duration {
    /// A bare count is taken as milliseconds.
    fn from(v: i64) -> (d: Duration) {
        Duration { value: v, unit: TimeUnit::Millisecond }
    }
}

impl vstd::std_specs::convert::FromSpecImpl<i64> for Duration {
    open spec fn obeys_from_spec() -> bool {
        true
    }

    open spec fn from_spec(v: i64) -> Duration {
        Duration { value: v, unit: TimeUnit::Millisecond }
    }
}

impl From<Duration> for i64 {
    /// The tick count after conversion to the millisecond unit. Note that
    /// the conversion scales whole seconds by the nanosecond factor of a
    /// second whatever the target unit, so for durations of a second or
    /// more this is not a millisecond count; `convert_value_spec` states
    /// the formula exactly.
    fn from(d: Duration) -> (v: i64) {
        d.convert_to(TimeUnit::Millisecond).value
    }
}

impl vstd::std_specs::convert::FromSpecImpl<Duration> for i64 {
    open spec fn obeys_from_spec() -> bool {
        true
    }

    open spec fn from_spec(d: Duration) -> i64 {
        convert_value_spec(d, TimeUnit::Millisecond) as i64
    }
}

/// The input could not be parsed as a duration.
#[derive(Debug, Clone, PartialEq, Eq)]
pub struct ParseDurationError {
    /// The rejected input.
    pub raw: String,
}

/// True for the byte of an ASCII decimal digit.
pub open spec fn is_digit_byte(b: u8) -> bool {
    48 <= b <= 57
}

/// The digit bytes of `s`, in order.
pub open spec fn digits_of(s: Seq<u8>) -> Seq<u8> {
    s.filter(|b: u8| is_digit_byte(b))
}

/// The bytes of `s` that are not digits, in order.
pub open spec fn non_digits_of(s: Seq<u8>) -> Seq<u8> {
    s.filter(|b: u8| !is_digit_byte(b))
}

/// Appending one byte extends the digit or the non-digit part.
pub proof fn lemma_digit_split_push(s: Seq<u8>, b: u8)
    ensures
        digits_of(s.push(b)) == (if is_digit_byte(b) {
            digits_of(s).push(b)
        } else {
            digits_of(s)
        }),
        non_digits_of(s.push(b)) == (if !is_digit_byte(b) {
            non_digits_of(s).push(b)
        } else {
            non_digits_of(s)
        }),
{
    broadcast use vstd::prelude::Seq::lemma_filter_push;

}

/// The number the ASCII digits `ds` denote in decimal.
pub open spec fn dec_value(ds: Seq<u8>) -> int
    decreases ds.len(),
{
    if ds.len() == 0 {
        0
    } else {
        dec_value(ds.drop_last()) * 10 + (ds.last() - 48)
    }
}

/// The unit a duration suffix denotes, if any.
pub open spec fn suffix_unit(us: Seq<u8>) -> Option<TimeUnit> {
    if us == seq![115u8] {
        Some(TimeUnit::Second)
    } else if us == seq![109u8, 115u8] {
        Some(TimeUnit::Millisecond)
    } else if us == seq![117u8, 115u8] {
        Some(TimeUnit::Microsecond)
    } else if us == seq![110u8, 115u8] {
        Some(TimeUnit::Nanosecond)
    } else {
        None
    }
}

/// Digits denote nonnegative numbers.
pub proof fn lemma_dec_value_nonneg(ds: Seq<u8>)
    requires
        forall|i: int| 0 <= i < ds.len() ==> is_digit_byte(#[trigger] ds[i]),
    ensures
        dec_value(ds) >= 0,
    decreases ds.len(),
{
    if ds.len() > 0 {
        lemma_dec_value_nonneg(ds.drop_last());
        assert(dec_value(ds.drop_last()) * 10 >= 0) by (nonlinear_arith)
            requires
                dec_value(ds.drop_last()) >= 0,
        ;
    }
}

impl Duration {
    /// Parses a duration written as an optional minus sign, decimal digits
    /// and a unit suffix, such as `123s`, `1ms`, `1000us`, `1200000ns` or
    /// `-1ns`. The digits and the suffix may in fact be interleaved: all
    /// digit bytes form the number and all other bytes form the suffix.
    /// Rejected are inputs without digits, with a number beyond `i64`, or
    /// with an unknown suffix.
    pub fn parse(s: &str) -> (r: Result<Duration, ParseDurationError>)
        ensures
            ({
                let sb = s.spec_bytes();
                let neg = sb.len() > 0 && sb[0] == 45;
                let rest = if neg {
                    sb.drop_first()
                } else {
                    sb
                };
                let ds = digits_of(rest);
                let us = non_digits_of(rest);
                let ok = ds.len() > 0 && dec_value(ds) <= i64::MAX && suffix_unit(us) is Some;
                &&& (r is Ok <==> ok)
                &&& (r matches Ok(d) ==> d.unit == suffix_unit(us).unwrap() && d.value as int == (
                if neg {
                    -dec_value(ds)
                } else {
                    dec_value(ds)
                }))
                &&& (r matches Err(e) ==> e.raw@ == s@)
            }),
    {
        let bytes = s.as_bytes();
        let len = bytes.len();
        let ghost sb = s.spec_bytes();

        let negative: bool = len > 0 && bytes[0] == 45;
        let start: usize = if negative {
            1
        } else {
            0
        };
        let ghost rest = if negative {
            sb.drop_first()
        } else {
            sb
        };
        proof {
            assert(rest =~= sb.subrange(start as int, sb.len() as int));
        }

        let mut num: i64 = 0;
        let mut overflow: bool = false;
        let mut any_digit: bool = false;
        let mut unit_bytes: Vec<u8> = Vec::new();
        let mut i: usize = start;
        while i < len
            invariant
                start <= i <= len,
                len == sb.len(),
                bytes@ == sb,
                rest == sb.subrange(start as int, sb.len() as int),
                unit_bytes@ =~= non_digits_of(sb.subrange(start as int, i as int)),
                any_digit == (digits_of(sb.subrange(start as int, i as int)).len() > 0),
                num >= 0,
                !overflow ==> num == dec_value(digits_of(sb.subrange(start as int, i as int))),
                overflow ==> dec_value(digits_of(sb.subrange(start as int, i as int)))
                    > i64::MAX,
            decreases len - i,
        {
            let b = bytes[i];
            let ghost pref = sb.subrange(start as int, i as int);
            let ghost pref1 = sb.subrange(start as int, i + 1);
            proof {
                assert(pref1 =~= pref.push(sb[i as int]));
                lemma_digit_split_push(pref, sb[i as int]);
            }
            if 48 <= b && b <= 57 {
                proof {
                    assert(dec_value(digits_of(pref1)) == dec_value(digits_of(pref)) * 10 + (b
                        - 48)) by {
                        let ds1 = digits_of(pref1);
                        assert(ds1.drop_last() == digits_of(pref) && ds1.last() == b);
                    }
                }
                any_digit = true;
                if !overflow {
                    let ghost dv = dec_value(digits_of(pref));
                    let scaled = num.checked_mul(10);
                    let next = match scaled {
                        Some(sc) => sc.checked_add((b - 48) as i64),
                        None => None,
                    };
                    match next {
                        Some(n) => {
                            num = n;
                        },
                        None => {
                            overflow = true;
                            proof {
                                assert(dv * 10 + (b - 48) > i64::MAX) by (nonlinear_arith)
                                    requires
                                        dv >= 0,
                                        48 <= b <= 57,
                                        (dv * 10 > i64::MAX) || (dv * 10 + (b - 48) > i64::MAX),
                                ;
                            }
                        },
                    }
                } else {
                    proof {
                        let dv = dec_value(digits_of(pref));
                        assert(dv * 10 + (b - 48) > i64::MAX) by (nonlinear_arith)
                            requires
                                dv > i64::MAX,
                                48 <= b <= 57,
                        ;
                    }
                }
            } else {
                unit_bytes.push(b);
            }
            i = i + 1;
        }
        proof {
            assert(sb.subrange(start as int, len as int) == rest);
        }

        let unit: Option<TimeUnit> = if unit_bytes.len() == 1 && unit_bytes[0] == 115 {
            proof {
                assert(unit_bytes@ =~= seq![115u8]);
            }
            Some(TimeUnit::Second)
        } else if unit_bytes.len() == 2 && unit_bytes[0] == 109 && unit_bytes[1] == 115 {
            proof {
                assert(unit_bytes@ =~= seq![109u8, 115u8]);
            }
            Some(TimeUnit::Millisecond)
        } else if unit_bytes.len() == 2 && unit_bytes[0] == 117 && unit_bytes[1] == 115 {
            proof {
                assert(unit_bytes@ =~= seq![117u8, 115u8]);
            }
            Some(TimeUnit::Microsecond)
        } else if unit_bytes.len() == 2 && unit_bytes[0] == 110 && unit_bytes[1] == 115 {
            proof {
                assert(unit_bytes@ =~= seq![110u8, 115u8]);
            }
            Some(TimeUnit::Nanosecond)
        } else {
            proof {
                assert(unit_bytes@ != seq![115u8] && unit_bytes@ != seq![109u8, 115u8]
                    && unit_bytes@ != seq![117u8, 115u8] && unit_bytes@ != seq![110u8, 115u8]);
            }
            None
        };

        if !any_digit || overflow {
            return Err(ParseDurationError { raw: s.to_owned() });
        }
        match unit {
            Some(u) => {
                let value: i64 = if negative {
                    -num
                } else {
                    num
                };
                Ok(Duration { value, unit: u })
            },
            None => Err(ParseDurationError { raw: s.to_owned() }),
        }
    }
}

impl core::str::FromStr for Duration {
    type Err = ParseDurationError;

    fn from_str(s: &str) -> Result<Duration, ParseDurationError> {
        Duration::parse(s)
    }
}

} // verus!
