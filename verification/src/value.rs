//! Typed scalar values for parsed field defaults.
//!
//! Floating-point defaults are carried as their IEEE 754 bit patterns, so the
//! registry itself never computes with floating-point numbers.  A
//! double-precision literal is parsed by an outside lexer; narrowing the
//! result to single precision is integer bit manipulation and is done by
//! verified code here.

use vstd::prelude::*;
use vstd::arithmetic::power2::{pow2, lemma_pow2_strictly_increases, lemma2_to64, lemma2_to64_rest};
use vstd::bits::lemma_u64_shl_is_mul;

verus! {

/// A typed scalar value, as produced by the default-value parser.
#[derive(Debug, Clone, PartialEq, Eq)]
pub enum Value {
    /// A boolean value.
    Bool(bool),
    /// A 32-bit signed integer value.
    I32(i32),
    /// A 64-bit signed integer value.
    I64(i64),
    /// A 32-bit unsigned integer value.
    U32(u32),
    /// A 64-bit unsigned integer value.
    U64(u64),
    /// The bit pattern of a single-precision floating-point value.
    F32Bits(u32),
    /// The bit pattern of a double-precision floating-point value.
    F64Bits(u64),
    /// A string value.
    String(String),
    /// A byte-string value.
    Bytes(Vec<u8>),
}

/// The mathematical content of a [`Value`]: strings and byte strings are
/// abstracted to sequences.
#[verifier::ext_equal]
pub enum ValueView {
    /// A boolean value.
    Bool(bool),
    /// A 32-bit signed integer value.
    I32(i32),
    /// A 64-bit signed integer value.
    I64(i64),
    /// A 32-bit unsigned integer value.
    U32(u32),
    /// A 64-bit unsigned integer value.
    U64(u64),
    /// The bit pattern of a single-precision floating-point value.
    F32Bits(u32),
    /// The bit pattern of a double-precision floating-point value.
    F64Bits(u64),
    /// A string value.
    String(Seq<char>),
    /// A byte-string value.
    Bytes(Seq<u8>),
}

impl View for Value {
    type V = ValueView;

    open spec fn view(&self) -> ValueView {
        match self {
            Value::Bool(b) => ValueView::Bool(*b),
            Value::I32(v) => ValueView::I32(*v),
            Value::I64(v) => ValueView::I64(*v),
            Value::U32(v) => ValueView::U32(*v),
            Value::U64(v) => ValueView::U64(*v),
            Value::F32Bits(v) => ValueView::F32Bits(*v),
            Value::F64Bits(v) => ValueView::F64Bits(*v),
            Value::String(s) => ValueView::String(s@),
            Value::Bytes(b) => ValueView::Bytes(b@),
        }
    }
}

/// The bit pattern that a double-precision decimal or scientific literal
/// parses to, if it parses at all.
pub uninterp spec fn f64_bits_of(s: Seq<char>) -> Option<u64>;

/// Relies on `protobuf_support::lexer::float::parse_protobuf_float` and
/// `f64::to_bits`: the parsed value depends on the characters alone.
#[verifier::external_body]
pub(crate) fn parse_f64_bits(s: &str) -> (r: Option<u64>)
    ensures
        r == f64_bits_of(s@),
{
    match protobuf_support::lexer::float::parse_protobuf_float(s) {
        Ok(x) => Some(x.to_bits()),
        Err(_) => None,
    }
}

/// Rounds `x / p` to the nearest integer, breaking ties towards even.
pub open spec fn spec_round_half_even(x: int, p: int) -> int {
    let q = x / p;
    let r = x % p;
    if 2 * r > p || (2 * r == p && q % 2 == 1) {
        q + 1
    } else {
        q
    }
}

fn round_half_even(x: u64, p: u64) -> (r: u64)
    requires
        0 < p <= 0x80000000000000,
        x <= 0x20000000000000,
    ensures
        r == spec_round_half_even(x as int, p as int),
        r <= x as int / p as int + 1,
{
    let q = x / p;
    let rem = x % p;
    if 2 * rem > p || (2 * rem == p && q % 2 == 1) {
        q + 1
    } else {
        q
    }
}

/// The shift that aligns a 53-bit significand with exponent `e` to the
/// single-precision subnormal range, clamped to a width that always rounds
/// to zero.
pub open spec fn spec_subnormal_shift(e: int) -> nat {
    if e < 871 {
        55
    } else {
        (29 + (897 - e)) as nat
    }
}

/// The single-precision bit pattern nearest to the double-precision value
/// with bit pattern `bits`, rounding ties to even; infinities keep their
/// sign, and any not-a-number maps to the canonical quiet one.
pub open spec fn spec_narrow_f64_bits(bits: u64) -> u32 {
    let sign: int = if bits >= 0x8000000000000000 {
        0x80000000
    } else {
        0
    };
    let e: int = (bits as int / 0x10000000000000) % 2048;
    let m: int = bits as int % 0x10000000000000;
    if e == 2047 {
        if m == 0 {
            (sign + 0x7F800000) as u32
        } else {
            (sign + 0x7FC00000) as u32
        }
    } else if e == 0 {
        sign as u32
    } else if e > 1150 {
        (sign + 0x7F800000) as u32
    } else if e >= 897 {
        let sig = 0x10000000000000 + m;
        let n = spec_round_half_even(sig, 0x20000000);
        if n == 0x1000000 {
            if e == 1150 {
                (sign + 0x7F800000) as u32
            } else {
                (sign + (e - 895) * 0x800000) as u32
            }
        } else {
            (sign + (e - 896) * 0x800000 + (n - 0x800000)) as u32
        }
    } else {
        let sig = 0x10000000000000 + m;
        let n = spec_round_half_even(sig, pow2(spec_subnormal_shift(e)) as int);
        (sign + n) as u32
    }
}

/// Narrows a double-precision bit pattern to the single-precision pattern
/// described by [`spec_narrow_f64_bits`].
pub fn narrow_f64_bits(bits: u64) -> (r: u32)
    ensures
        r == spec_narrow_f64_bits(bits),
{
    let sign: u32 = if bits >= 0x8000000000000000 {
        0x80000000
    } else {
        0
    };
    let e: u64 = (bits / 0x10000000000000) % 2048;
    let m: u64 = bits % 0x10000000000000;
    if e == 2047 {
        if m == 0 {
            sign + 0x7F800000
        } else {
            sign + 0x7FC00000
        }
    } else if e == 0 {
        sign
    } else if e > 1150 {
        sign + 0x7F800000
    } else if e >= 897 {
        let sig: u64 = 0x10000000000000 + m;
        let n = round_half_even(sig, 0x20000000);
        if n == 0x1000000 {
            if e == 1150 {
                sign + 0x7F800000
            } else {
                sign + ((e as u32) - 895) * 0x800000
            }
        } else {
            sign + ((e as u32) - 896) * 0x800000 + ((n as u32) - 0x800000)
        }
    } else {
        let sig: u64 = 0x10000000000000 + m;
        let k: u64 = if e < 871 {
            55
        } else {
            29 + (897 - e)
        };
        proof {
            lemma2_to64();
            lemma2_to64_rest();
            assert(k == spec_subnormal_shift(e as int));
            if k < 55 {
                lemma_pow2_strictly_increases(k as nat, 55);
            }
            lemma_u64_shl_is_mul(1u64, k);
        }
        let p: u64 = 1u64 << k;
        proof {
            if k > 30 {
                lemma_pow2_strictly_increases(30, k as nat);
            }
        }
        let n = round_half_even(sig, p);
        proof {
            vstd::arithmetic::div_mod::lemma_div_is_ordered_by_denominator(
                sig as int,
                0x40000000,
                p as int,
            );
            assert(n <= 0x800000);
        }
        sign + (n as u32)
    }
}

} // verus!
