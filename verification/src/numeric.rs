//! Verified parsing of decimal integer literals.
//!
//! Default values for integer fields arrive as text.  The functions here
//! decode an optional sign followed by decimal digits, and report exactly
//! which strings decode to which values: a string decodes if and only if it
//! is a well-formed literal whose value fits the target range.

use vstd::prelude::*;

verus! {

/// Whether `c` is a decimal digit.
pub open spec fn is_dec_digit(c: char) -> bool {
    48 <= c as u32 <= 57
}

/// The numeric value of the decimal digit `c`.
pub open spec fn digit_val(c: char) -> int {
    c as u32 - 48
}

/// Whether every character of `s` is a decimal digit.
pub open spec fn all_digits(s: Seq<char>) -> bool {
    forall|i: int| 0 <= i < s.len() ==> is_dec_digit(s[i])
}

/// The value of the digit string `s`, most significant digit first.
pub open spec fn digits_value(s: Seq<char>) -> int
    decreases s.len(),
{
    if s.len() == 0 {
        0
    } else {
        digits_value(s.drop_last()) * 10 + digit_val(s.last())
    }
}

/// The value of an unsigned literal: an optional `+` sign followed by one or
/// more decimal digits; `None` if `s` has any other shape.
pub open spec fn unsigned_literal_value(s: Seq<char>) -> Option<int> {
    let body = if s.len() > 0 && s[0] == '+' {
        s.drop_first()
    } else {
        s
    };
    if body.len() > 0 && all_digits(body) {
        Some(digits_value(body))
    } else {
        None
    }
}

/// The value of a signed literal: an optional `+` or `-` sign followed by
/// one or more decimal digits; `None` if `s` has any other shape.
pub open spec fn signed_literal_value(s: Seq<char>) -> Option<int> {
    if s.len() > 0 && s[0] == '-' {
        let body = s.drop_first();
        if body.len() > 0 && all_digits(body) {
            Some(-digits_value(body))
        } else {
            None
        }
    } else {
        unsigned_literal_value(s)
    }
}

/// What parsing an unsigned 64-bit literal yields.
pub open spec fn spec_parse_u64(s: Seq<char>) -> Option<u64> {
    match unsigned_literal_value(s) {
        Some(v) => if v <= u64::MAX {
            Some(v as u64)
        } else {
            None
        },
        None => None,
    }
}

/// What parsing an unsigned 32-bit literal yields.
pub open spec fn spec_parse_u32(s: Seq<char>) -> Option<u32> {
    match unsigned_literal_value(s) {
        Some(v) => if v <= u32::MAX {
            Some(v as u32)
        } else {
            None
        },
        None => None,
    }
}

/// What parsing a signed 64-bit literal yields.
pub open spec fn spec_parse_i64(s: Seq<char>) -> Option<i64> {
    match signed_literal_value(s) {
        Some(v) => if i64::MIN <= v <= i64::MAX {
            Some(v as i64)
        } else {
            None
        },
        None => None,
    }
}

/// What parsing a signed 32-bit literal yields.
pub open spec fn spec_parse_i32(s: Seq<char>) -> Option<i32> {
    match signed_literal_value(s) {
        Some(v) => if i32::MIN <= v <= i32::MAX {
            Some(v as i32)
        } else {
            None
        },
        None => None,
    }
}

/// A digit string has a non-negative value.
proof fn lemma_digits_value_nonneg(s: Seq<char>)
    requires
        all_digits(s),
    ensures
        digits_value(s) >= 0,
    decreases s.len(),
{
    if s.len() > 0 {
        assert(all_digits(s.drop_last()));
        lemma_digits_value_nonneg(s.drop_last());
    }
}

/// Appending digits to a digit string never decreases its value.
proof fn lemma_digits_value_extend(v: Seq<char>, w: Seq<char>)
    requires
        all_digits(v),
        all_digits(w),
    ensures
        digits_value(v + w) >= digits_value(v),
    decreases w.len(),
{
    if w.len() == 0 {
        assert(v + w =~= v);
    } else {
        let u = v + w;
        assert(u.drop_last() =~= v + w.drop_last());
        assert(all_digits(w.drop_last()));
        lemma_digits_value_extend(v, w.drop_last());
        assert(all_digits(v + w.drop_last()));
        lemma_digits_value_nonneg(v + w.drop_last());
        assert(is_dec_digit(u.last()));
    }
}

/// Decodes the digits of `s` from position `start` to the end, failing on a
/// non-digit, an empty range, or a value above `bound`.
fn parse_digits_u64(s: &str, start: usize, bound: u64) -> (r: Option<u64>)
    requires
        start <= s@.len(),
    ensures
        ({
            let body = s@.subrange(start as int, s@.len() as int);
            match r {
                Some(v) => body.len() > 0 && all_digits(body) && digits_value(body) == v
                    && v <= bound,
                None => !(body.len() > 0 && all_digits(body) && digits_value(body)
                    <= bound as int),
            }
        }),
{
    let ghost body = s@.subrange(start as int, s@.len() as int);
    let n: usize = s.unicode_len();
    if start >= n {
        return None;
    }
    let mut i: usize = start;
    let mut acc: u64 = 0;
    while i < n
        invariant
            start <= i <= n,
            n == s@.len(),
            body == s@.subrange(start as int, n as int),
            all_digits(s@.subrange(start as int, i as int)),
            acc == digits_value(s@.subrange(start as int, i as int)),
            acc <= bound,
        decreases n - i,
    {
        let c: char = s.get_char(i);
        let cv: u32 = c as u32;
        if cv < 48 || cv > 57 {
            proof {
                assert(body[i - start] == s@[i as int]);
            }
            return None;
        }
        let d: u64 = (cv - 48) as u64;
        let ghost prefix = s@.subrange(start as int, i as int);
        let ghost prefix1 = s@.subrange(start as int, i + 1);
        proof {
            assert(prefix1.drop_last() =~= prefix);
            assert(prefix1.last() == s@[i as int]);
        }
        if acc > bound / 10 || d > bound - 10 * acc {
            proof {
                assert(digits_value(prefix1) == acc * 10 + d);
                assert(digits_value(prefix1) > bound) by {
                    if acc > bound / 10 {
                        assert(acc >= bound / 10 + 1);
                        assert(acc * 10 >= (bound / 10 + 1) * 10) by (nonlinear_arith)
                            requires acc >= bound / 10 + 1;
                        assert((bound / 10) * 10 + 10 > bound);
                    }
                }
                let rest = s@.subrange(i + 1, n as int);
                if all_digits(body) {
                    assert(all_digits(prefix1)) by {
                        assert(forall|j: int| 0 <= j < prefix1.len()
                            ==> prefix1[j] == body[j]);
                    }
                    assert(all_digits(rest)) by {
                        assert(forall|j: int| 0 <= j < rest.len()
                            ==> rest[j] == body[j + (i + 1 - start)]);
                    }
                    lemma_digits_value_extend(prefix1, rest);
                    assert(prefix1 + rest =~= body);
                }
            }
            return None;
        }
        acc = 10 * acc + d;
        i = i + 1;
        proof {
            assert(s@.subrange(start as int, i as int) =~= prefix1);
        }
    }
    proof {
        assert(s@.subrange(start as int, i as int) =~= body);
    }
    Some(acc)
}

/// Decodes an unsigned 64-bit decimal literal, exactly as
/// [`spec_parse_u64`] describes.
pub fn parse_u64_str(s: &str) -> (r: Option<u64>)
    ensures
        r == spec_parse_u64(s@),
{
    let n: usize = s.unicode_len();
    let start: usize = if n > 0 && s.get_char(0) == '+' {
        1
    } else {
        0
    };
    let r = parse_digits_u64(s, start, u64::MAX);
    proof {
        if start == 1 {
            assert(s@.subrange(1, s@.len() as int) =~= s@.drop_first());
        } else {
            assert(s@.subrange(0, s@.len() as int) =~= s@);
        }
    }
    r
}

/// Decodes an unsigned 32-bit decimal literal, exactly as
/// [`spec_parse_u32`] describes.
pub fn parse_u32_str(s: &str) -> (r: Option<u32>)
    ensures
        r == spec_parse_u32(s@),
{
    let n: usize = s.unicode_len();
    let start: usize = if n > 0 && s.get_char(0) == '+' {
        1
    } else {
        0
    };
    let r = parse_digits_u64(s, start, 0xFFFF_FFFF);
    proof {
        if start == 1 {
            assert(s@.subrange(1, s@.len() as int) =~= s@.drop_first());
        } else {
            assert(s@.subrange(0, s@.len() as int) =~= s@);
        }
    }
    match r {
        Some(v) => Some(v as u32),
        None => None,
    }
}

/// Decodes a signed decimal literal whose magnitude is at most `neg_bound`
/// when negative and `pos_bound` when non-negative, as an `i64`.
fn parse_signed_str(s: &str, pos_bound: u64, neg_bound: u64) -> (r: Option<i64>)
    requires
        pos_bound <= i64::MAX,
        neg_bound <= 0x8000_0000_0000_0000,
    ensures
        ({
            match signed_literal_value(s@) {
                Some(v) => if -(neg_bound as int) <= v <= pos_bound {
                    r == Some(v as i64)
                } else {
                    r == None::<i64>
                },
                None => r == None::<i64>,
            }
        }),
{
    let n: usize = s.unicode_len();
    if n > 0 && s.get_char(0) == '-' {
        let m = parse_digits_u64(s, 1, neg_bound);
        proof {
            assert(s@.subrange(1, s@.len() as int) =~= s@.drop_first());
        }
        match m {
            Some(v) => {
                if v == 0x8000_0000_0000_0000 {
                    Some(i64::MIN)
                } else {
                    Some(-(v as i64))
                }
            },
            None => None,
        }
    } else {
        let start: usize = if n > 0 && s.get_char(0) == '+' {
            1
        } else {
            0
        };
        let r = parse_digits_u64(s, start, pos_bound);
        proof {
            if start == 1 {
                assert(s@.subrange(1, s@.len() as int) =~= s@.drop_first());
            } else {
                assert(s@.subrange(0, s@.len() as int) =~= s@);
            }
        }
        match r {
            Some(v) => Some(v as i64),
            None => None,
        }
    }
}

/// Decodes a signed 64-bit decimal literal, exactly as [`spec_parse_i64`]
/// describes.
pub fn parse_i64_str(s: &str) -> (r: Option<i64>)
    ensures
        r == spec_parse_i64(s@),
{
    parse_signed_str(s, 0x7FFF_FFFF_FFFF_FFFF, 0x8000_0000_0000_0000)
}

/// Decodes a signed 32-bit decimal literal, exactly as [`spec_parse_i32`]
/// describes.
pub fn parse_i32_str(s: &str) -> (r: Option<i32>)
    ensures
        r == spec_parse_i32(s@),
{
    match parse_signed_str(s, 0x7FFF_FFFF, 0x8000_0000) {
        Some(v) => Some(v as i32),
        None => None,
    }
}

} // verus!
