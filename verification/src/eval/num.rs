//! Numbers are IEEE-754 binary64 values, held by their 64-bit pattern.
//!
//! Comparisons, truthiness and the small-integer view are decided here on the bits;
//! rounding arithmetic and decimal conversion go through `rustc_apfloat`, a software
//! implementation of IEEE-754.
use rustc_apfloat::ieee::Double;
use rustc_apfloat::Float;
use std::str::FromStr;
use vstd::prelude::*;

verus! {

/// The bit pattern of `0.0`.
pub const ZERO_BITS: u64 = 0u64;

/// The bit pattern of `1.0`.
pub const ONE_BITS: u64 = 0x3ff0_0000_0000_0000u64;

/// The bit pattern of positive infinity.
pub const INF_BITS: u64 = 0x7ff0_0000_0000_0000u64;

/// The bit pattern of the quiet NaN that parsing `nan` gives.
pub const NAN_BITS: u64 = 0x7ff8_0000_0000_0000u64;

/// The sign bit.
pub const SIGN_BIT: u64 = 0x8000_0000_0000_0000u64;

/// All bits but the sign.
pub const MAG_MASK: u64 = 0x7fff_ffff_ffff_ffffu64;

/// The fraction field.
pub const FRAC_MASK: u64 = 0x000f_ffff_ffff_ffffu64;

/// IEEE-754 `a + b`, rounded to nearest, ties to even.
pub uninterp spec fn double_add(a: u64, b: u64) -> u64;

/// IEEE-754 `a - b`, rounded to nearest, ties to even.
pub uninterp spec fn double_sub(a: u64, b: u64) -> u64;

/// IEEE-754 `a * b`, rounded to nearest, ties to even.
pub uninterp spec fn double_mul(a: u64, b: u64) -> u64;

/// IEEE-754 `a / b`, rounded to nearest, ties to even.
pub uninterp spec fn double_div(a: u64, b: u64) -> u64;

/// The remainder of `a / b` truncated toward zero, with the sign of `a` (C's `fmod`).
pub uninterp spec fn double_rem(a: u64, b: u64) -> u64;

/// The binary64 value nearest (ties to even) to the decimal number written in `s`.
pub uninterp spec fn decimal_to_double(s: Seq<char>) -> u64;

/// Calls `<Double as Add>::add` of `rustc_apfloat` (which rounds to nearest, ties to even)
/// on the two bit patterns; the result is named `double_add`.
#[verifier::external_body]
pub(crate) fn add_bits(a: u64, b: u64) -> (r: u64)
    ensures
        r == double_add(a, b),
{
    (Double::from_bits(a as u128) + Double::from_bits(b as u128)).value.to_bits() as u64
}

/// Calls `<Double as Sub>::sub` of `rustc_apfloat`; the result is named `double_sub`.
#[verifier::external_body]
pub(crate) fn sub_bits(a: u64, b: u64) -> (r: u64)
    ensures
        r == double_sub(a, b),
{
    (Double::from_bits(a as u128) - Double::from_bits(b as u128)).value.to_bits() as u64
}

/// Calls `<Double as Mul>::mul` of `rustc_apfloat`; the result is named `double_mul`.
#[verifier::external_body]
pub(crate) fn mul_bits(a: u64, b: u64) -> (r: u64)
    ensures
        r == double_mul(a, b),
{
    (Double::from_bits(a as u128) * Double::from_bits(b as u128)).value.to_bits() as u64
}

/// Calls `<Double as Div>::div` of `rustc_apfloat`; the result is named `double_div`.
#[verifier::external_body]
pub(crate) fn div_bits(a: u64, b: u64) -> (r: u64)
    ensures
        r == double_div(a, b),
{
    (Double::from_bits(a as u128) / Double::from_bits(b as u128)).value.to_bits() as u64
}

/// Calls `<Double as Rem>::rem` of `rustc_apfloat`, which is its `c_fmod`; the result is
/// named `double_rem`.
#[verifier::external_body]
pub(crate) fn rem_bits(a: u64, b: u64) -> (r: u64)
    ensures
        r == double_rem(a, b),
{
    (Double::from_bits(a as u128) % Double::from_bits(b as u128)).value.to_bits() as u64
}

/// Calls `<Double as FromStr>::from_str` of `rustc_apfloat` (rounding to nearest, ties to
/// even). On a decimal literal of the grammar below (optional sign, digits with at most one
/// dot and at least one digit, optional exponent) its source takes the decimal branch and
/// returns `Ok`; the value is named `decimal_to_double`.
#[verifier::external_body]
fn parse_decimal(s: &str) -> (r: Option<u64>)
    requires
        decimal_literal(s@),
    ensures
        r == Some(decimal_to_double(s@)),
{
    match Double::from_str(s) {
        Ok(d) => Some(d.to_bits() as u64),
        Err(_) => None,
    }
}

pub open spec fn is_nan(b: u64) -> bool {
    (b >> 52u64) & 0x7ffu64 == 0x7ffu64 && b & FRAC_MASK != 0
}

pub open spec fn is_zero(b: u64) -> bool {
    b & MAG_MASK == 0
}

pub open spec fn is_negative(b: u64) -> bool {
    b & SIGN_BIT != 0
}

/// `a == b` on doubles: no NaN is equal to anything, and the two zeros are equal.
pub open spec fn double_eq(a: u64, b: u64) -> bool {
    !is_nan(a) && !is_nan(b) && (a == b || (is_zero(a) && is_zero(b)))
}

/// The position of a non-NaN double on the number line, by sign and magnitude bits.
pub open spec fn order_key(b: u64) -> int {
    if is_negative(b) {
        -((b & MAG_MASK) as int)
    } else {
        (b & MAG_MASK) as int
    }
}

/// `a < b` on doubles: false when either is NaN.
pub open spec fn double_lt(a: u64, b: u64) -> bool {
    !is_nan(a) && !is_nan(b) && order_key(a) < order_key(b)
}

pub fn num_is_nan(b: u64) -> (r: bool)
    ensures
        r == is_nan(b),
{
    (b >> 52u64) & 0x7ffu64 == 0x7ffu64 && b & FRAC_MASK != 0
}

pub fn num_is_zero(b: u64) -> (r: bool)
    ensures
        r == is_zero(b),
{
    b & MAG_MASK == 0
}

/// Double equality.
pub fn num_eq(a: u64, b: u64) -> (r: bool)
    ensures
        r == double_eq(a, b),
{
    !num_is_nan(a) && !num_is_nan(b) && (a == b || (num_is_zero(a) && num_is_zero(b)))
}

/// Double less-than.
pub fn num_lt(a: u64, b: u64) -> (r: bool)
    ensures
        r == double_lt(a, b),
{
    if num_is_nan(a) || num_is_nan(b) {
        return false;
    }
    let ma = a & MAG_MASK;
    let mb = b & MAG_MASK;
    let na = a & SIGN_BIT != 0;
    let nb = b & SIGN_BIT != 0;
    if !na && !nb {
        ma < mb
    } else if na && nb {
        mb < ma
    } else if na {
        ma != 0 || mb != 0
    } else {
        false
    }
}

/// The exponent field.
pub open spec fn exp_field(b: u64) -> u64 {
    (b >> 52u64) & 0x7ffu64
}

/// The integer 0..=255 a double stands for, if it is one of those integers.
pub open spec fn byte_value(b: u64) -> Option<u8> {
    let e = exp_field(b);
    if is_zero(b) {
        Some(0u8)
    } else if is_negative(b) || e < 1023 || e > 1030 {
        None
    } else {
        let shift = (1075 - e) as u64;
        let f = b & FRAC_MASK;
        if f & (((1u64 << shift) - 1) as u64) != 0 {
            None
        } else {
            Some((((f | 0x10_0000_0000_0000u64) >> shift) & 0xffu64) as u8)
        }
    }
}

/// The byte a double stands for when it is an integer from 0 to 255.
pub fn num_to_byte(b: u64) -> (r: Option<u8>)
    ensures
        r == byte_value(b),
{
    let e = (b >> 52u64) & 0x7ffu64;
    if b & MAG_MASK == 0 {
        Some(0u8)
    } else if b & SIGN_BIT != 0 || e < 1023 || e > 1030 {
        None
    } else {
        let shift = 1075 - e;
        let f = b & FRAC_MASK;
        assert(1u64 << shift >= 1) by (bit_vector)
            requires
                45 <= shift <= 52,
        ;
        if f & ((1u64 << shift) - 1) != 0 {
            None
        } else {
            Some((((f | 0x10_0000_0000_0000u64) >> shift) & 0xffu64) as u8)
        }
    }
}

/// The natural number below 2^53 a double stands for, if it is one.
pub open spec fn index_value(b: u64) -> Option<u64> {
    let e = exp_field(b);
    if is_zero(b) {
        Some(0u64)
    } else if is_negative(b) || e < 1023 || e > 1075 {
        None
    } else {
        let shift = (1075 - e) as u64;
        let f = b & FRAC_MASK;
        if f & (((1u64 << shift) - 1) as u64) != 0 {
            None
        } else {
            Some(((f | 0x10_0000_0000_0000u64) >> shift) as u64)
        }
    }
}

/// The natural number below 2^53 a double stands for, when it is one.
pub fn num_to_index(b: u64) -> (r: Option<u64>)
    ensures
        r == index_value(b),
{
    let e = (b >> 52u64) & 0x7ffu64;
    if b & MAG_MASK == 0 {
        Some(0u64)
    } else if b & SIGN_BIT != 0 || e < 1023 || e > 1075 {
        None
    } else {
        let shift = 1075 - e;
        let f = b & FRAC_MASK;
        assert(1u64 << shift >= 1) by (bit_vector)
            requires
                shift <= 52,
        ;
        if f & ((1u64 << shift) - 1) != 0 {
            None
        } else {
            Some((f | 0x10_0000_0000_0000u64) >> shift)
        }
    }
}

/// The double nearest (ties to even) to the natural number `n`.
pub uninterp spec fn uint_to_double(n: u64) -> u64;

/// Calls `Float::from_u128` of `rustc_apfloat` (rounding to nearest, ties to even) for
/// `Double`; the result is named `uint_to_double`.
#[verifier::external_body]
pub(crate) fn uint_bits(n: u64) -> (r: u64)
    ensures
        r == uint_to_double(n),
{
    Double::from_u128(n as u128).value.to_bits() as u64
}

// ---------------------------------------------------------------------------
// The grammar of number literals.
pub open spec fn is_digit(c: char) -> bool {
    '0' <= c && c <= '9'
}

pub open spec fn all_digits(s: Seq<char>) -> bool {
    forall|i: int| 0 <= i < s.len() ==> is_digit(#[trigger] s[i])
}

pub open spec fn is_sign(c: char) -> bool {
    c == '+' || c == '-'
}

/// `Digit+ | Digit+ '.' Digit* | Digit* '.' Digit+`
pub open spec fn mantissa(m: Seq<char>) -> bool {
    ||| (m.len() > 0 && all_digits(m))
    ||| exists|d: int|
        0 <= d < m.len() && #[trigger] m[d] == '.' && all_digits(m.subrange(0, d)) && all_digits(
            m.subrange(d + 1, m.len() as int),
        ) && m.len() >= 2
}

/// `Sign? Digit+`
pub open spec fn exponent_digits(x: Seq<char>) -> bool {
    ||| (x.len() > 0 && all_digits(x))
    ||| (x.len() > 1 && is_sign(x[0]) && all_digits(x.subrange(1, x.len() as int)))
}

pub open spec fn is_exp_mark(c: char) -> bool {
    c == 'e' || c == 'E'
}

/// `Mantissa (('e' | 'E') Sign? Digit+)?`
pub open spec fn unsigned_decimal(t: Seq<char>) -> bool {
    ||| (mantissa(t) && forall|i: int| 0 <= i < t.len() ==> !is_exp_mark(#[trigger] t[i]))
    ||| exists|k: int|
        0 <= k < t.len() && is_exp_mark(#[trigger] t[k]) && mantissa(t.subrange(0, k))
            && exponent_digits(t.subrange(k + 1, t.len() as int))
}

/// A decimal number literal, optionally signed.
pub open spec fn decimal_literal(s: Seq<char>) -> bool {
    ||| unsigned_decimal(s)
    ||| (s.len() > 0 && is_sign(s[0]) && unsigned_decimal(s.subrange(1, s.len() as int)))
}

pub open spec fn lower_ascii(c: char) -> char {
    if 'A' <= c && c <= 'Z' {
        ((c as u32) + 32) as char
    } else {
        c
    }
}

/// `s` equals `word` (given in lower case) ignoring ASCII case.
pub open spec fn eq_ignore_case(s: Seq<char>, word: Seq<char>) -> bool {
    s.len() == word.len() && forall|i: int| 0 <= i < s.len() ==> lower_ascii(#[trigger] s[i]) == word[i]
}

/// The special value `s` (without sign) names: infinity or NaN.
pub open spec fn special_value(s: Seq<char>) -> Option<u64> {
    if eq_ignore_case(s, "inf"@) || eq_ignore_case(s, "infinity"@) {
        Some(INF_BITS)
    } else if eq_ignore_case(s, "nan"@) {
        Some(NAN_BITS)
    } else {
        None
    }
}

/// The number an atom denotes, if it is a number literal: a decimal literal, or `inf`,
/// `infinity` or `nan` in any case, each with an optional sign.
pub open spec fn number_literal(s: Seq<char>) -> Option<u64> {
    if s.len() > 0 && is_sign(s[0]) && special_value(s.subrange(1, s.len() as int)) is Some {
        let v = special_value(s.subrange(1, s.len() as int)).unwrap();
        Some(if s[0] == '-' { v | SIGN_BIT } else { v })
    } else if special_value(s) is Some {
        special_value(s)
    } else if decimal_literal(s) {
        Some(decimal_to_double(s))
    } else {
        None
    }
}

fn lower_char(c: char) -> (r: char)
    ensures
        r == lower_ascii(c),
{
    if 'A' <= c && c <= 'Z' {
        ((c as u8) + 32) as char
    } else {
        c
    }
}

fn eq_word(s: &Vec<char>, from: usize, word: &str) -> (r: bool)
    requires
        from <= s@.len(),
        word@.len() < 16,
        forall|i: int| 0 <= i < word@.len() ==> (word@[i] as u32) < 128,
    ensures
        r == eq_ignore_case(s@.subrange(from as int, s@.len() as int), word@),
{
    let wlen = word.unicode_len();
    let slen = s.len();
    if slen - from != wlen {
        return false;
    }
    let mut i: usize = 0;
    while i < wlen
        invariant
            wlen == word@.len(),
            from + wlen == s@.len(),
            slen == s@.len(),
            i <= wlen,
            forall|j: int|
                0 <= j < i ==> lower_ascii(s@.subrange(from as int, s@.len() as int)[j]) == word@[j],
        decreases wlen - i,
    {
        if lower_char(s[from + i]) != word.get_char(i) {
            assert(s@.subrange(from as int, s@.len() as int)[i as int] == s@[from + i]);
            return false;
        }
        i = i + 1;
    }
    true
}

fn special_at(s: &Vec<char>, from: usize) -> (r: Option<u64>)
    requires
        from <= s@.len(),
    ensures
        r == special_value(s@.subrange(from as int, s@.len() as int)),
{
    proof {
        reveal_strlit("inf");
        reveal_strlit("infinity");
        reveal_strlit("nan");
    }
    if eq_word(s, from, "inf") || eq_word(s, from, "infinity") {
        Some(INF_BITS)
    } else if eq_word(s, from, "nan") {
        Some(NAN_BITS)
    } else {
        None
    }
}

fn digits_in(s: &Vec<char>, a: usize, b: usize) -> (r: bool)
    requires
        a <= b <= s@.len(),
    ensures
        r == all_digits(s@.subrange(a as int, b as int)),
{
    let mut i = a;
    while i < b
        invariant
            a <= i <= b,
            b <= s@.len(),
            all_digits(s@.subrange(a as int, i as int)),
        decreases b - i,
    {
        if !('0' <= s[i] && s[i] <= '9') {
            assert(s@.subrange(a as int, b as int)[i - a] == s@[i as int]);
            return false;
        }
        i = i + 1;
        assert(s@.subrange(a as int, i as int) =~= s@.subrange(a as int, (i - 1) as int).push(
            s@[i - 1],
        ));
    }
    true
}

/// Position of the first `c` in `s[a..b]`, or `b`.
fn find_char(s: &Vec<char>, a: usize, b: usize, c: char) -> (r: usize)
    requires
        a <= b <= s@.len(),
    ensures
        a <= r <= b,
        r < b ==> s@[r as int] == c,
        forall|i: int| a <= i < r ==> s@[i] != c,
{
    let mut i = a;
    while i < b
        invariant
            a <= i <= b,
            b <= s@.len(),
            forall|j: int| a <= j < i ==> s@[j] != c,
        decreases b - i,
    {
        if s[i] == c {
            return i;
        }
        i = i + 1;
    }
    b
}

fn check_mantissa(s: &Vec<char>, a: usize, b: usize) -> (r: bool)
    requires
        a <= b <= s@.len(),
    ensures
        r == mantissa(s@.subrange(a as int, b as int)),
{
    let ghost m = s@.subrange(a as int, b as int);
    let d = find_char(s, a, b, '.');
    if d == b {
        let r = b > a && digits_in(s, a, b);
        proof {
            if r {
                assert(mantissa(m));
            } else {
                assert forall|k: int| 0 <= k < m.len() implies m[k] != '.' by {
                    assert(m[k] == s@[a + k]);
                }
            }
        }
        r
    } else {
        let r = digits_in(s, a, d) && digits_in(s, d + 1, b) && b - a >= 2;
        proof {
            let dd = d - a;
            assert(m.subrange(0, dd) =~= s@.subrange(a as int, d as int));
            assert(m.subrange(dd + 1, m.len() as int) =~= s@.subrange(d + 1, b as int));
            assert(m[dd] == '.');
            if r {
                assert(mantissa(m));
            } else if mantissa(m) {
                if m.len() > 0 && all_digits(m) {
                    assert(is_digit(m[dd]));
                } else {
                    let d2 = choose|d2: int|
                        0 <= d2 < m.len() && #[trigger] m[d2] == '.' && all_digits(
                            m.subrange(0, d2),
                        ) && all_digits(m.subrange(d2 + 1, m.len() as int)) && m.len() >= 2;
                    if d2 < dd {
                        assert(m[d2] == s@[a + d2]);
                    } else if d2 > dd {
                        assert(m.subrange(0, d2)[dd] == '.');
                    }
                }
            }
        }
        r
    }
}

fn check_exponent(s: &Vec<char>, a: usize, b: usize) -> (r: bool)
    requires
        a <= b <= s@.len(),
    ensures
        r == exponent_digits(s@.subrange(a as int, b as int)),
{
    let ghost x = s@.subrange(a as int, b as int);
    if b > a && (s[a] == '+' || s[a] == '-') {
        let r = b - a > 1 && digits_in(s, a + 1, b);
        proof {
            assert(x.subrange(1, x.len() as int) =~= s@.subrange(a + 1, b as int));
            assert(x[0] == s@[a as int]);
            if !r && x.len() > 0 && all_digits(x) {
                assert(is_digit(x[0]));
            }
        }
        r
    } else {
        let r = b > a && digits_in(s, a, b);
        proof {
            if b > a {
                assert(x[0] == s@[a as int]);
            }
        }
        r
    }
}

fn check_unsigned(s: &Vec<char>, a: usize) -> (r: bool)
    requires
        a <= s@.len(),
    ensures
        r == unsigned_decimal(s@.subrange(a as int, s@.len() as int)),
{
    let n = s.len();
    let ghost t = s@.subrange(a as int, n as int);
    let k1 = find_char(s, a, n, 'e');
    let k2 = find_char(s, a, n, 'E');
    let k = if k1 < k2 {
        k1
    } else {
        k2
    };
    proof {
        assert forall|i: int| a <= i < k implies !is_exp_mark(s@[i]) by {}
    }
    if k == n {
        let r = check_mantissa(s, a, n);
        proof {
            assert forall|i: int| 0 <= i < t.len() implies !is_exp_mark(#[trigger] t[i]) by {
                assert(t[i] == s@[a + i]);
            }
            if !r {
                assert(!mantissa(t));
            }
        }
        r
    } else {
        let r = check_mantissa(s, a, k) && check_exponent(s, k + 1, n);
        proof {
            let kk = k - a;
            assert(t[kk] == s@[k as int]);
            assert(t.subrange(0, kk) =~= s@.subrange(a as int, k as int));
            assert(t.subrange(kk + 1, t.len() as int) =~= s@.subrange(k + 1, n as int));
            if !r && unsigned_decimal(t) {
                let k3 = choose|k3: int|
                    0 <= k3 < t.len() && is_exp_mark(#[trigger] t[k3]) && mantissa(
                        t.subrange(0, k3),
                    ) && exponent_digits(t.subrange(k3 + 1, t.len() as int));
                assert(t[k3] == s@[a + k3]);
                if k3 > kk {
                    let m = t.subrange(0, k3);
                    assert(m[kk] == t[kk]);
                    if m.len() > 0 && all_digits(m) {
                        assert(is_digit(m[kk]));
                    } else {
                        let d2 = choose|d2: int|
                            0 <= d2 < m.len() && #[trigger] m[d2] == '.' && all_digits(
                                m.subrange(0, d2),
                            ) && all_digits(m.subrange(d2 + 1, m.len() as int)) && m.len() >= 2;
                        if kk < d2 {
                            assert(m.subrange(0, d2)[kk] == m[kk]);
                        } else if kk > d2 {
                            assert(m.subrange(d2 + 1, m.len() as int)[kk - d2 - 1] == m[kk]);
                        }
                    }
                }
            }
        }
        r
    }
}

/// The number an atom denotes, if it is a number literal.
pub fn parse_number(atom: &str) -> (r: Option<u64>)
    ensures
        r == number_literal(atom@),
{
    let s = crate::text::chars_of(atom);
    let n = s.len();
    let signed = n > 0 && (s[0] == '+' || s[0] == '-');
    if signed {
        match special_at(&s, 1) {
            Some(v) => {
                return Some(
                    if s[0] == '-' {
                        v | SIGN_BIT
                    } else {
                        v
                    },
                );
            },
            None => {},
        }
    }
    proof {
        assert(s@.subrange(0, n as int) =~= s@);
    }
    match special_at(&s, 0) {
        Some(v) => {
            return Some(v);
        },
        None => {},
    }
    let dec = check_unsigned(&s, 0) || (signed && check_unsigned(&s, 1));
    if dec {
        parse_decimal(atom)
    } else {
        None
    }
}

} // verus!
