//! 128-bit decimals: an `i128` coefficient with a precision and a scale,
//! compared by coefficient, with exact decimal formatting.
use vstd::prelude::*;

verus! {

use crate::strfmt::{ascii_string, chars_of_bytes, dec_bytes, int_dec_bytes, u128_dec_bytes,
    i128_dec_bytes, lemma_int_dec_bytes_ascii};
use vstd::string::StringSliceAdditionalSpecFns;

/// The maximum precision of a decimal value.
pub const DECIMAL128_MAX_PRECISION: u8 = 38;

/// The maximum scale of a decimal value.
pub const DECIMAL128_MAX_SCALE: i8 = 38;

/// The default scale of a decimal value.
pub const DECIMAL128_DEFAULT_SCALE: i8 = 10;

/// A 128-bit decimal: `value` holds the digits, `scale` says how many of
/// them fall behind the decimal point, and `precision` bounds the total
/// number of digits.
#[derive(Debug, Clone, Copy, Hash)]
pub struct Decimal128 {
    pub value: i128,
    pub precision: u8,
    pub scale: i8,
}

impl Decimal128 {
    /// Creates a decimal from its parts.
    pub fn new(value: i128, precision: u8, scale: i8) -> (d: Decimal128)
        ensures
            d.value == value,
            d.precision == precision,
            d.scale == scale,
    {
        Decimal128 { value, precision, scale }
    }

    /// The raw coefficient.
    pub fn val(&self) -> (r: i128)
        ensures
            r == self.value,
    {
        self.value
    }

    /// The precision of this decimal.
    pub fn precision(&self) -> (r: u8)
        ensures
            r == self.precision,
    {
        self.precision
    }

    /// The scale of this decimal.
    pub fn scale(&self) -> (r: i8)
        ensures
            r == self.scale,
    {
        self.scale
    }

    /// The decimal zero.
    pub fn zero() -> (d: Decimal128)
        ensures
            d.value == 0,
            d.precision == 0,
            d.scale == 0,
    {
        Decimal128 { value: 0, precision: 0, scale: 0 }
    }

    /// The scalar representation: the coefficient with the precision and
    /// scale beside it.
    pub fn to_scalar_value(&self) -> (r: (Option<i128>, u8, i8))
        ensures
            r == (Some(self.value), self.precision, self.scale),
    {
        (Some(self.value), self.precision, self.scale)
    }

    /// The wire representation: the coefficient split into its high and low
    /// 64-bit halves, and the precision and scale packed into one word.
    pub fn to_pb_value(&self) -> (r: (i64, i64, i32))
        ensures
            r.0 == (self.value >> 64) as i64,
            r.1 == self.value as i64,
            r.2 == ((self.precision as i32) << 8) | (self.scale as i32),
    {
        (
            (self.value >> 64) as i64,
            self.value as i64,
            ((self.precision as i32) << 8) | (self.scale as i32),
        )
    }
}

impl PartialEq for Decimal128 {
    /// Decimals compare by coefficient alone.
    fn eq(&self, other: &Decimal128) -> bool {
        self.value == other.value
    }
}

impl vstd::std_specs::cmp::PartialEqSpecImpl for Decimal128 {
    open spec fn obeys_eq_spec() -> bool {
        true
    }

    open spec fn eq_spec(&self, other: &Decimal128) -> bool {
        self.value == other.value
    }
}

impl Eq for Decimal128 {

}

impl PartialOrd for Decimal128 {
    /// Decimals order by coefficient alone.
    fn partial_cmp(&self, other: &Decimal128) -> Option<core::cmp::Ordering> {
        if self.value < other.value {
            Some(core::cmp::Ordering::Less)
        } else if self.value == other.value {
            Some(core::cmp::Ordering::Equal)
        } else {
            Some(core::cmp::Ordering::Greater)
        }
    }
}

impl vstd::std_specs::cmp::PartialOrdSpecImpl for Decimal128 {
    open spec fn obeys_partial_cmp_spec() -> bool {
        true
    }

    open spec fn partial_cmp_spec(&self, other: &Decimal128) -> Option<core::cmp::Ordering> {
        if self.value < other.value {
            Some(core::cmp::Ordering::Less)
        } else if self.value == other.value {
            Some(core::cmp::Ordering::Equal)
        } else {
            Some(core::cmp::Ordering::Greater)
        }
    }
}

impl From<i128> for Decimal128 {
    /// A bare coefficient gets the maximum precision and the default scale.
    fn from(value: i128) -> (d: Decimal128) {
        Decimal128 { value, precision: DECIMAL128_MAX_PRECISION, scale: DECIMAL128_DEFAULT_SCALE }
    }
}

impl vstd::std_specs::convert::FromSpecImpl<i128> for Decimal128 {
    open spec fn obeys_from_spec() -> bool {
        true
    }

    open spec fn from_spec(value: i128) -> Decimal128 {
        Decimal128 { value, precision: DECIMAL128_MAX_PRECISION, scale: DECIMAL128_DEFAULT_SCALE }
    }
}

impl From<Decimal128> for i128 {
    /// The raw coefficient.
    fn from(d: Decimal128) -> (r: i128) {
        d.value
    }
}

impl vstd::std_specs::convert::FromSpecImpl<Decimal128> for i128 {
    open spec fn obeys_from_spec() -> bool {
        true
    }

    open spec fn from_spec(d: Decimal128) -> i128 {
        d.value
    }
}

/// A run of `n` ASCII zeros.
pub open spec fn zero_bytes(n: int) -> Seq<u8> {
    Seq::new(n as nat, |i: int| 48u8)
}

/// All bytes of `s` are ASCII.
pub open spec fn all_ascii(s: Seq<u8>) -> bool {
    forall|i: int| 0 <= i < s.len() ==> s[i] < 128
}

/// How a decimal coefficient string is rendered under a precision and a
/// scale. The string is truncated to `precision` digits; a zero scale keeps
/// it whole, a negative scale appends zeros, a positive scale smaller than
/// the digit count places a decimal point inside, and a larger one renders
/// a zero-padded fraction below one.
pub open spec fn format_decimal_spec(s: Seq<u8>, precision: int, scale: int) -> Seq<u8> {
    let sign_len: int = if s.len() > 0 && s[0] == 45 {
        1int
    } else {
        0
    };
    let rest_len = s.len() - sign_len;
    let bound = (if precision < rest_len {
        precision
    } else {
        rest_len
    }) + sign_len;
    let vs = s.subrange(0, bound);
    if scale == 0 {
        vs
    } else if scale < 0 {
        vs + zero_bytes(-scale)
    } else if rest_len > scale {
        vs.subrange(0, vs.len() - scale) + seq![46u8] + vs.subrange(
            vs.len() - scale,
            vs.len() as int,
        )
    } else {
        s.subrange(0, sign_len) + seq![48u8, 46u8] + zero_bytes(scale - rest_len) + s.subrange(
            sign_len,
            s.len() as int,
        )
    }
}

/// Appends `src[a..b]` to `out`.
fn push_range(out: &mut Vec<u8>, src: &[u8], a: usize, b: usize)
    requires
        a <= b <= src@.len(),
    ensures
        final(out)@ == old(out)@ + src@.subrange(a as int, b as int),
{
    let ghost base = out@;
    let mut i: usize = a;
    while i < b
        invariant
            a <= i <= b <= src@.len(),
            out@ =~= base + src@.subrange(a as int, i as int),
        decreases b - i,
    {
        out.push(src[i]);
        proof {
            assert(src@.subrange(a as int, i + 1) =~= src@.subrange(a as int, i as int).push(
                src@[i as int],
            ));
        }
        i = i + 1;
    }
    proof {
        assert(out@ =~= base + src@.subrange(a as int, b as int));
    }
}

/// Appends `n` ASCII zeros to `out`.
fn push_zeros(out: &mut Vec<u8>, n: usize)
    ensures
        final(out)@ == old(out)@ + zero_bytes(n as int),
{
    let ghost base = out@;
    let mut i: usize = 0;
    while i < n
        invariant
            i <= n,
            out@ =~= base + zero_bytes(i as int),
        decreases n - i,
    {
        out.push(48);
        proof {
            assert(zero_bytes(i + 1) =~= zero_bytes(i as int).push(48u8));
        }
        i = i + 1;
    }
}

/// Renders the decimal coefficient string `b` under `precision` and
/// `scale`, over ASCII bytes.
fn format_decimal_bytes(b: &[u8], precision: usize, scale: i8) -> (r: Vec<u8>)
    requires
        ({
            let sign_len: int = if b@.len() > 0 && b@[0] == 45 {
                1int
            } else {
                0
            };
            let rest_len = b@.len() - sign_len;
            // a scale cutting inside the digits must not cut past the
            // precision-truncated digits
            0 < scale < rest_len ==> scale <= (if precision < rest_len {
                precision as int
            } else {
                rest_len
            })
        }),
    ensures
        r@ == format_decimal_spec(b@, precision as int, scale as int),
{
    let len = b.len();
    let sign_len: usize = if len > 0 && b[0] == 45 {
        1
    } else {
        0
    };
    let rest_len = len - sign_len;
    let bound = (if precision < rest_len {
        precision
    } else {
        rest_len
    }) + sign_len;

    let mut out: Vec<u8> = Vec::new();
    if scale == 0 {
        push_range(&mut out, b, 0, bound);
        proof {
            assert(out@ =~= format_decimal_spec(b@, precision as int, scale as int));
        }
    } else if scale < 0 {
        let pad: usize = if scale == -128 {
            128
        } else {
            (-scale) as usize
        };
        push_range(&mut out, b, 0, bound);
        push_zeros(&mut out, pad);
        proof {
            assert(out@ =~= format_decimal_spec(b@, precision as int, scale as int));
        }
    } else if rest_len > scale as usize {
        let cut = bound - scale as usize;
        push_range(&mut out, b, 0, cut);
        out.push(46);
        push_range(&mut out, b, cut, bound);
        proof {
            let vs = b@.subrange(0, bound as int);
            assert(b@.subrange(0, cut as int) =~= vs.subrange(0, vs.len() - scale));
            assert(b@.subrange(cut as int, bound as int) =~= vs.subrange(
                vs.len() - scale,
                vs.len() as int,
            ));
            assert(out@ =~= format_decimal_spec(b@, precision as int, scale as int));
        }
    } else {
        push_range(&mut out, b, 0, sign_len);
        out.push(48);
        out.push(46);
        push_zeros(&mut out, scale as usize - rest_len);
        push_range(&mut out, b, sign_len, len);
        proof {
            assert(out@ =~= format_decimal_spec(b@, precision as int, scale as int));
        }
    }
    out
}

/// Rendered decimal bytes stay ASCII when the input is ASCII.
pub proof fn lemma_format_decimal_ascii(s: Seq<u8>, precision: int, scale: int)
    requires
        all_ascii(s),
        precision >= 0,
        ({
            let sign_len: int = if s.len() > 0 && s[0] == 45 {
                1int
            } else {
                0
            };
            let rest_len = s.len() - sign_len;
            0 < scale < rest_len ==> scale <= (if precision < rest_len {
                precision
            } else {
                rest_len
            })
        }),
    ensures
        all_ascii(format_decimal_spec(s, precision, scale)),
{
    let r = format_decimal_spec(s, precision, scale);
    let sign_len: int = if s.len() > 0 && s[0] == 45 {
        1int
    } else {
        0
    };
    let rest_len = s.len() - sign_len;
    let bound = (if precision < rest_len {
        precision
    } else {
        rest_len
    }) + sign_len;
    let vs = s.subrange(0, bound);
    if scale == 0 {
        assert forall|i: int| 0 <= i < r.len() implies r[i] < 128 by {
            assert(r[i] == s[i]);
        }
    } else if scale < 0 {
        assert forall|i: int| 0 <= i < r.len() implies r[i] < 128 by {
            if i < vs.len() {
                assert(r[i] == s[i]);
            } else {
                assert(r[i] == 48);
            }
        }
    } else if rest_len > scale {
        assert forall|i: int| 0 <= i < r.len() implies r[i] < 128 by {
            let head = vs.subrange(0, vs.len() - scale);
            if i < head.len() {
                assert(r[i] == s[i]);
            } else if i == head.len() {
                assert(r[i] == 46);
            } else {
                assert(r[i] == vs.subrange(vs.len() - scale, vs.len() as int)[i - head.len()
                    - 1]);
                assert(r[i] == s[bound - scale + (i - head.len() - 1)]);
            }
        }
    } else {
        assert forall|i: int| 0 <= i < r.len() implies r[i] < 128 by {
            let zn = scale - rest_len;
            if i < sign_len {
                assert(r[i] == s[i]);
            } else if i < sign_len + 2 {
                assert(r[i] == 48 || r[i] == 46);
            } else if i < sign_len + 2 + zn {
                assert(r[i] == 48);
            } else {
                assert(r[i] == s[sign_len + (i - (sign_len + 2 + zn))]);
            }
        }
    }
}

/// Renders a decimal coefficient string under a precision and a scale, as
/// `Decimal128::to_string` does.
pub fn format_decimal_str(value_str: &str, precision: usize, scale: i8) -> (r: String)
    requires
        all_ascii(value_str.spec_bytes()),
        ({
            let s = value_str.spec_bytes();
            let sign_len: int = if s.len() > 0 && s[0] == 45 {
                1int
            } else {
                0
            };
            let rest_len = s.len() - sign_len;
            0 < scale < rest_len ==> scale <= (if precision < rest_len {
                precision as int
            } else {
                rest_len
            })
        }),
    ensures
        r@ == chars_of_bytes(format_decimal_spec(value_str.spec_bytes(), precision as int,
            scale as int)),
{
    let bytes = value_str.as_bytes();
    let out = format_decimal_bytes(bytes, precision, scale);
    proof {
        lemma_format_decimal_ascii(value_str.spec_bytes(), precision as int, scale as int);
    }
    ascii_string(out)
}

impl Decimal128 {
    /// Formats the decimal: the coefficient digits with the decimal point
    /// placed by `scale`, truncated to `precision` digits.
    pub fn to_string(&self) -> (r: String)
        requires
            ({
                let s = int_dec_bytes(self.value as int);
                let sign_len: int = if self.value < 0 {
                    1int
                } else {
                    0
                };
                let rest_len = s.len() - sign_len;
                0 < self.scale < rest_len ==> self.scale <= (if (self.precision as int)
                    < rest_len {
                    self.precision as int
                } else {
                    rest_len
                })
            }),
        ensures
            r@ == chars_of_bytes(format_decimal_spec(int_dec_bytes(self.value as int),
                self.precision as int, self.scale as int)),
    {
        let digits = i128_dec_bytes(self.value);
        proof {
            lemma_int_dec_bytes_ascii(self.value as int);
            assert(int_dec_bytes(self.value as int).len() > 0);
            if self.value < 0 {
                assert(int_dec_bytes(self.value as int)[0] == 45);
            } else {
                crate::strfmt::lemma_dec_bytes_ascii(self.value as nat);
                assert(int_dec_bytes(self.value as int)[0] >= 48);
            }
        }
        let out = format_decimal_bytes(digits.as_slice(), self.precision as usize, self.scale);
        proof {
            lemma_format_decimal_ascii(int_dec_bytes(self.value as int), self.precision as int,
                self.scale as int);
        }
        ascii_string(out)
    }
}

/// A decimal of the `rust_decimal` crate: a 96-bit signed coefficient with
/// a scale of at most 28.
#[verifier::external_type_specification]
#[verifier::external_body]
pub struct ExRustDecimal(rust_decimal::Decimal);

/// The signed coefficient of a `rust_decimal` value, as its `mantissa`
/// accessor returns it.
pub uninterp spec fn decimal_mantissa_of(rd: rust_decimal::Decimal) -> i128;

/// The scale of a `rust_decimal` value, as its `scale` accessor returns it.
pub uninterp spec fn decimal_scale_of(rd: rust_decimal::Decimal) -> u32;

/// Relies on rust_decimal's `Decimal::mantissa`: the coefficient is a signed
/// 96-bit integer read off the value.
#[verifier::external_body]
fn rust_decimal_mantissa(rd: &rust_decimal::Decimal) -> (r: i128)
    ensures
        r == decimal_mantissa_of(*rd),
        -0xFFFF_FFFF_FFFF_FFFF_FFFF_FFFFi128 <= r <= 0xFFFF_FFFF_FFFF_FFFF_FFFF_FFFFi128,
{
    rd.mantissa()
}

/// Relies on rust_decimal's `Decimal::scale`: the scale is read off the
/// value and ranges from 0 to 28.
#[verifier::external_body]
fn rust_decimal_scale(rd: &rust_decimal::Decimal) -> (r: u32)
    ensures
        r == decimal_scale_of(*rd),
        r <= 28,
{
    rd.scale()
}

/// The precision a converted `rust_decimal` value gets: the number of
/// significant characters in its rendering, which is the larger of the
/// coefficient's digit count and one more than the scale.
pub open spec fn converted_precision(mantissa: int, scale: int) -> int {
    let dl = dec_bytes((if mantissa < 0 {
        -mantissa
    } else {
        mantissa
    }) as nat).len() as int;
    if scale == 0 {
        dl
    } else if dl < scale + 1 {
        scale + 1
    } else {
        dl
    }
}

impl Decimal128 {
    /// Converts a decimal of the `rust_decimal` crate: the coefficient and
    /// scale carry over unchanged, and the precision counts the significant
    /// digits of the rendered value. The 96-bit coefficient always fits.
    pub fn from_rust_decimal(rd: &rust_decimal::Decimal) -> (d: Decimal128)
        ensures
            d.value == decimal_mantissa_of(*rd),
            d.scale as int == decimal_scale_of(*rd) as int,
            -0xFFFF_FFFF_FFFF_FFFF_FFFF_FFFFi128 <= d.value <= 0xFFFF_FFFF_FFFF_FFFF_FFFF_FFFFi128,
            0 <= d.scale <= 28,
            d.precision as int == converted_precision(d.value as int, d.scale as int),
    {
        let m = rust_decimal_mantissa(rd);
        let sc = rust_decimal_scale(rd);
        let mag: u128 = if m < 0 {
            (-m) as u128
        } else {
            m as u128
        };
        let digits = u128_dec_bytes(mag);
        proof {
            crate::strfmt::lemma_dec_bytes_len_96bit(mag as nat);
        }
        let dl = digits.len();
        let precision: u8 = if sc == 0 {
            dl as u8
        } else if dl < sc as usize + 1 {
            (sc + 1) as u8
        } else {
            dl as u8
        };
        Decimal128 { value: m, precision, scale: sc as i8 }
    }
}

} // verus!
