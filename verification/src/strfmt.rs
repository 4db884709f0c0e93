//! Decimal formatting of integers, over ASCII byte sequences.
use vstd::prelude::*;

verus! {

/// The decimal digits of `n`, most significant first, as ASCII bytes.
pub open spec fn dec_bytes(n: nat) -> Seq<u8>
    decreases n,
{
    if n < 10 {
        seq![(48 + n) as u8]
    } else {
        dec_bytes(n / 10).push((48 + n % 10) as u8)
    }
}

/// The decimal representation of `v`, with a leading minus sign when
/// negative, as ASCII bytes.
pub open spec fn int_dec_bytes(v: int) -> Seq<u8> {
    if v < 0 {
        seq![45u8] + dec_bytes((-v) as nat)
    } else {
        dec_bytes(v as nat)
    }
}

/// The characters with the same code points as the given ASCII bytes.
pub open spec fn chars_of_bytes(b: Seq<u8>) -> Seq<char> {
    Seq::new(b.len(), |i: int| b[i] as char)
}

/// Every decimal digit byte is an ASCII digit.
pub proof fn lemma_dec_bytes_ascii(n: nat)
    ensures
        dec_bytes(n).len() > 0,
        forall|i: int| 0 <= i < dec_bytes(n).len() ==> 48 <= #[trigger] dec_bytes(n)[i] < 58,
    decreases n,
{
    if n >= 10 {
        lemma_dec_bytes_ascii(n / 10);
        assert forall|i: int| 0 <= i < dec_bytes(n).len() implies 48 <= #[trigger] dec_bytes(
            n,
        )[i] < 58 by {
            if i < dec_bytes(n / 10).len() {
                assert(dec_bytes(n)[i] == dec_bytes(n / 10)[i]);
            }
        }
    }
}

/// Every byte of a signed decimal representation is printable ASCII.
pub proof fn lemma_int_dec_bytes_ascii(v: int)
    ensures
        int_dec_bytes(v).len() > 0,
        forall|i: int| 0 <= i < int_dec_bytes(v).len() ==> 45 <= #[trigger] int_dec_bytes(v)[i]
            < 58,
{
    if v < 0 {
        lemma_dec_bytes_ascii((-v) as nat);
        assert forall|i: int| 0 <= i < int_dec_bytes(v).len() implies 45 <= #[trigger] int_dec_bytes(
            v,
        )[i] < 58 by {
            if i > 0 {
                assert(int_dec_bytes(v)[i] == dec_bytes((-v) as nat)[i - 1]);
            }
        }
    } else {
        lemma_dec_bytes_ascii(v as nat);
        assert forall|i: int| 0 <= i < int_dec_bytes(v).len() implies 45 <= #[trigger] int_dec_bytes(
            v,
        )[i] < 58 by {
            assert(int_dec_bytes(v)[i] == dec_bytes(v as nat)[i]);
        }
    }
}

/// The decimal digit bytes of `v`, most significant first.
pub fn u128_dec_bytes(v: u128) -> (r: Vec<u8>)
    ensures
        r@ == dec_bytes(v as nat),
    decreases v,
{
    if v < 10 {
        let mut r: Vec<u8> = Vec::new();
        r.push(48 + v as u8);
        proof {
            assert(r@ =~= dec_bytes(v as nat));
        }
        r
    } else {
        let mut r = u128_dec_bytes(v / 10);
        r.push(48 + (v % 10) as u8);
        r
    }
}

/// The signed decimal digit bytes of `v`, most significant first, with a
/// leading minus sign when negative.
pub fn i128_dec_bytes(v: i128) -> (r: Vec<u8>)
    ensures
        r@ == int_dec_bytes(v as int),
{
    if v < 0 {
        let mut r: Vec<u8> = Vec::new();
        r.push(45);
        let magnitude: u128 = if v == i128::MIN {
            0x8000_0000_0000_0000_0000_0000_0000_0000u128
        } else {
            (-v) as u128
        };
        let mut digits = u128_dec_bytes(magnitude);
        r.append(&mut digits);
        proof {
            assert(r@ =~= int_dec_bytes(v as int));
        }
        r
    } else {
        u128_dec_bytes(v as u128)
    }
}

/// Relies on `String::from_utf8`: bytes below 128 are valid UTF-8 and decode
/// to the characters with the same code points.
#[verifier::external_body]
pub fn ascii_string(bytes: Vec<u8>) -> (s: String)
    requires
        forall|i: int| 0 <= i < bytes@.len() ==> bytes@[i] < 128,
    ensures
        s@ == chars_of_bytes(bytes@),
{
    String::from_utf8(bytes).unwrap_or_default()
}

/// Formats `v` in decimal.
pub fn i128_to_dec_string(v: i128) -> (s: String)
    ensures
        s@ == chars_of_bytes(int_dec_bytes(v as int)),
{
    let bytes = i128_dec_bytes(v);
    proof {
        lemma_int_dec_bytes_ascii(v as int);
    }
    ascii_string(bytes)
}

/// Powers of ten.
pub open spec fn pow10(k: nat) -> nat
    decreases k,
{
    if k == 0 {
        1
    } else {
        10 * pow10((k - 1) as nat)
    }
}

/// A number below the `k`-th power of ten has at most `k` decimal digits.
pub proof fn lemma_dec_bytes_len(n: nat, k: nat)
    requires
        k >= 1,
        n < pow10(k),
    ensures
        dec_bytes(n).len() <= k,
    decreases k,
{
    if n < 10 {
    } else {
        if k == 1 {
            assert(pow10(1) == 10);
            assert(false);
        }
        vstd::arithmetic::div_mod::lemma_fundamental_div_mod(n as int, 10);
        assert(n / 10 < pow10((k - 1) as nat)) by (nonlinear_arith)
            requires
                n < 10 * pow10((k - 1) as nat),
                n as int == 10 * ((n as int) / 10) + ((n as int) % 10),
                0 <= (n as int) % 10 < 10,
                n / 10 == (n as int) / 10,
        ;
        lemma_dec_bytes_len(n / 10, (k - 1) as nat);
    }
}

/// A 96-bit magnitude has at most 29 decimal digits.
pub proof fn lemma_dec_bytes_len_96bit(n: nat)
    requires
        n <= 0xFFFF_FFFF_FFFF_FFFF_FFFF_FFFF,
    ensures
        dec_bytes(n).len() <= 29,
{
    assert(pow10(29) == 100_000_000_000_000_000_000_000_000_000) by {
        reveal_with_fuel(pow10, 30);
    }
    lemma_dec_bytes_len(n, 29);
}

} // verus!
