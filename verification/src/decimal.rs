//! Decimal numbers cut down to whole numbers.
//!
//! A number is written with an optional sign, digits with an optional
//! decimal point, and an optional power of ten; the words `inf`,
//! `infinity` and `nan` are numbers too. These are the texts that the
//! standard library reads as a floating-point number.
//!
//! The value of a number is cut to the whole number at or below it and held
//! to the range of 64 bits: below zero gives 0, and so does `nan`. The value
//! is taken exactly as written. It is never rounded to a binary fraction
//! first, so `0.99999999999999999999` gives 0 and not 1.

use crate::text::{
    all_digits, digits_value, lemma_skip_bounds, skip, spec_skip, to_chars, CharSet,
};
use vstd::arithmetic::div_mod::{lemma_basic_div, lemma_fundamental_div_mod_converse};
use vstd::arithmetic::power::{lemma_pow_increases, lemma_pow_positive, pow};
use vstd::prelude::*;
use vstd::slice::slice_subrange;

verus! {

/// Ten to the power `e`.
pub open spec fn pow10(e: nat) -> nat {
    pow(10, e) as nat
}

/// Ten to a power is positive, and each further power is ten times the last.
pub proof fn lemma_pow10(e: nat)
    ensures
        pow10(e) >= 1,
        pow10(e) == pow(10, e),
        pow10(e + 1) == 10 * pow10(e),
        pow10(0) == 1,
{
    lemma_pow_positive(10, e);
    lemma_pow_positive(10, e + 1);
    reveal_with_fuel(pow, 2);
}

/// Ten to a larger power is no smaller.
pub proof fn lemma_pow10_increases(e1: nat, e2: nat)
    requires
        e1 <= e2,
    ensures
        pow10(e1) <= pow10(e2),
{
    lemma_pow10(e1);
    lemma_pow10(e2);
    lemma_pow_increases(10, e1, e2);
}

/// Ten to the power 20 lies beyond 64 bits.
pub proof fn lemma_pow10_20()
    ensures
        pow10(20) == 100_000_000_000_000_000_000nat,
        pow10(20) > u64::MAX,
{
    reveal_with_fuel(pow, 21);
}

/// The number that two runs of digits write one after the other.
pub proof fn lemma_digits_value_concat(a: Seq<char>, b: Seq<char>)
    ensures
        digits_value(a + b) == digits_value(a) * pow10(b.len()) + digits_value(b),
    decreases b.len(),
{
    let va = digits_value(a);
    if b.len() == 0 {
        lemma_pow10(0);
        assert(va * 1 == va);
    } else {
        let b0 = b.drop_last();
        lemma_digits_value_concat(a, b0);
        assert((a + b).drop_last() =~= a + b0);
        lemma_pow10(b0.len());
        let p = pow10(b0.len());
        let vb0 = digits_value(b0);
        assert((va * p + vb0) * 10 == va * (10 * p) + vb0 * 10) by (nonlinear_arith);
    }
}

/// A run of `n` digits writes a number below ten to the power `n`.
pub proof fn lemma_digits_value_bound(s: Seq<char>)
    requires
        all_digits(s),
    ensures
        digits_value(s) < pow10(s.len()),
    decreases s.len(),
{
    if s.len() == 0 {
        lemma_pow10(0);
    } else {
        let s0 = s.drop_last();
        assert(all_digits(s0));
        lemma_digits_value_bound(s0);
        lemma_pow10(s0.len());
    }
}

/// The number that `digits` write, shifted by `shift` decimal places and
/// rounded down: multiplied by ten to the power `shift`, or divided by ten
/// to the power `-shift` where `shift` is negative.
pub open spec fn shifted_floor(digits: Seq<char>, shift: int) -> nat {
    if shift >= 0 {
        digits_value(digits) * pow10(shift as nat)
    } else {
        (digits_value(digits) / pow10((-shift) as nat)) as nat
    }
}

/// Shifting to the right drops digits: what is left is the number that the
/// remaining leading digits write.
pub proof fn lemma_shifted_floor_right(digits: Seq<char>, places: nat)
    requires
        all_digits(digits),
    ensures
        shifted_floor(digits, -(places as int)) == if places >= digits.len() {
            0
        } else {
            digits_value(digits.take(digits.len() - places))
        },
{
    let value = digits_value(digits);
    lemma_pow10(places);
    if places == 0 {
        assert(digits.take(digits.len() as int) =~= digits);
        assert(value * 1 == value);
    } else if places >= digits.len() {
        lemma_digits_value_bound(digits);
        lemma_pow10_increases(digits.len(), places);
        lemma_basic_div(value as int, pow10(places) as int);
    } else {
        let keep = digits.len() - places;
        let head = digits.take(keep);
        let tail = digits.skip(keep);
        assert(digits =~= head + tail);
        assert(all_digits(tail));
        lemma_digits_value_concat(head, tail);
        lemma_digits_value_bound(tail);
        lemma_fundamental_div_mod_converse(
            value as int,
            pow10(places) as int,
            digits_value(head) as int,
            digits_value(tail) as int,
        );
    }
}

/// How many characters the sign at the start of `s` takes: 1 or 0.
pub open spec fn sign_len(s: Seq<char>) -> int {
    if s.len() > 0 && (s[0] == '+' || s[0] == '-') {
        1
    } else {
        0
    }
}

/// Whether `s` begins with a minus sign.
pub open spec fn is_negative(s: Seq<char>) -> bool {
    s.len() > 0 && s[0] == '-'
}

/// The code of `c`, and that of its lower-case form where `c` is an ASCII
/// capital letter.
pub open spec fn lower_code(c: char) -> u32 {
    if 'A' <= c <= 'Z' {
        (c as u32 + 32) as u32
    } else {
        c as u32
    }
}

/// Whether `s` is `word` but for the case of its ASCII letters; `word` is
/// written in lower case.
pub open spec fn is_word(s: Seq<char>, word: Seq<char>) -> bool {
    s.len() == word.len() && forall|i: int|
        0 <= i < s.len() ==> lower_code(#[trigger] s[i]) == word[i] as u32
}

/// Whether `body` writes infinity.
pub open spec fn is_infinity(body: Seq<char>) -> bool {
    is_word(body, "inf"@) || is_word(body, "infinity"@)
}

/// Whether `body` writes what is not a number.
pub open spec fn is_nan(body: Seq<char>) -> bool {
    is_word(body, "nan"@)
}

/// A decimal number without its sign: the digits before the point, the
/// digits behind it, and the power of ten by which they are scaled.
pub struct Decimal {
    /// The digits before the decimal point.
    pub int_digits: Seq<char>,
    /// The digits behind the decimal point.
    pub frac_digits: Seq<char>,
    /// The power of ten written behind `e`; 0 where none is written.
    pub exponent: int,
}

/// The decimal number that `body` writes: digits, of which a point may part
/// some, at least one digit in all, and then, if anything, `e` or `E` with
/// an optional sign and at least one digit. `None` for any other text.
pub open spec fn spec_decimal(body: Seq<char>) -> Option<Decimal> {
    let a = spec_skip(body, CharSet::Digits, 0);
    let point = a < body.len() && body[a] == '.';
    let b = if point {
        spec_skip(body, CharSet::Digits, a + 1)
    } else {
        a
    };
    let int_digits = body.subrange(0, a);
    let frac_digits = if point {
        body.subrange(a + 1, b)
    } else {
        Seq::empty()
    };
    if int_digits.len() + frac_digits.len() == 0 {
        None
    } else if b >= body.len() {
        Some(Decimal { int_digits, frac_digits, exponent: 0 })
    } else if body[b] == 'e' || body[b] == 'E' {
        let tail = body.subrange(b + 1, body.len() as int);
        let exp_digits = tail.skip(sign_len(tail));
        if exp_digits.len() > 0 && all_digits(exp_digits) {
            Some(
                Decimal {
                    int_digits,
                    frac_digits,
                    exponent: if is_negative(tail) {
                        -(digits_value(exp_digits) as int)
                    } else {
                        digits_value(exp_digits) as int
                    },
                },
            )
        } else {
            None
        }
    } else {
        None
    }
}

/// The whole number at or below the value of `d`.
pub open spec fn decimal_floor(d: Decimal) -> nat {
    shifted_floor(d.int_digits + d.frac_digits, d.exponent - d.frac_digits.len())
}

/// `v` held to the range of 64 bits.
pub open spec fn saturate(v: nat) -> u64 {
    if v > u64::MAX {
        u64::MAX
    } else {
        v as u64
    }
}

/// `v` held to the range of 128 bits.
pub open spec fn saturate_wide(v: nat) -> u128 {
    if v > u128::MAX {
        u128::MAX
    } else {
        v as u128
    }
}

/// The whole number that `s` gives: for a number written as `spec_decimal`
/// describes, with an optional sign before it, its value rounded down and
/// held to the range of 64 bits, hence 0 for every number below zero; the
/// largest 64-bit number for infinity, 0 for minus infinity and for what is
/// not a number. `None` where `s` writes no number.
pub open spec fn spec_parse_truncated(s: Seq<char>) -> Option<u64> {
    let body = s.skip(sign_len(s));
    if is_infinity(body) {
        Some(
            if is_negative(s) {
                0u64
            } else {
                u64::MAX
            },
        )
    } else if is_nan(body) {
        Some(0u64)
    } else {
        match spec_decimal(body) {
            Some(d) => Some(
                if is_negative(s) {
                    0u64
                } else {
                    saturate(decimal_floor(d))
                },
            ),
            None => None,
        }
    }
}

fn code_of_lower(c: char) -> (r: u32)
    ensures
        r == lower_code(c),
{
    let u: u32 = c as u32;
    if 0x41 <= u && u <= 0x5A {
        u + 32
    } else {
        u
    }
}

fn matches_word(body: &[char], word: &[char]) -> (r: bool)
    ensures
        r == is_word(body@, word@),
{
    if body.len() != word.len() {
        return false;
    }
    let n: usize = body.len();
    let mut i: usize = 0;
    while i < n
        invariant
            n == body@.len(),
            n == word@.len(),
            i <= n,
            forall|k: int| 0 <= k < i ==> lower_code(#[trigger] body@[k]) == word@[k] as u32,
        decreases n - i,
    {
        if code_of_lower(body[i]) != word[i] as u32 {
            return false;
        }
        i += 1;
    }
    true
}

fn push_digit(acc: u64, d: u64) -> (r: u64)
    requires
        d <= 9,
    ensures
        forall|v: nat| acc == #[trigger] saturate(v) ==> r == saturate((v * 10 + d) as nat),
{
    if acc > (u64::MAX - d) / 10 {
        u64::MAX
    } else {
        acc * 10 + d
    }
}

fn push_digit_wide(acc: u128, d: u128) -> (r: u128)
    requires
        d <= 9,
    ensures
        forall|v: nat| acc == #[trigger] saturate_wide(v) ==> r == saturate_wide((v * 10 + d) as nat),
{
    if acc > (u128::MAX - d) / 10 {
        u128::MAX
    } else {
        acc * 10 + d
    }
}

/// Appends the first `count` digits of `digits` to a number that `prefix`
/// writes, held to the range of 64 bits.
fn accumulate(acc: u64, digits: &[char], count: usize, Ghost(prefix): Ghost<Seq<char>>) -> (r: u64)
    requires
        count <= digits@.len(),
        all_digits(digits@),
        acc == saturate(digits_value(prefix)),
    ensures
        r == saturate(digits_value(prefix + digits@.take(count as int))),
{
    let mut acc: u64 = acc;
    let mut j: usize = 0;
    while j < count
        invariant
            j <= count <= digits@.len(),
            all_digits(digits@),
            acc == saturate(digits_value(prefix + digits@.take(j as int))),
        decreases count - j,
    {
        let c = digits[j];
        let d: u64 = (c as u32 - 0x30) as u64;
        proof {
            let before = prefix + digits@.take(j as int);
            let after = prefix + digits@.take(j + 1);
            assert(after.drop_last() =~= before);
        }
        acc = push_digit(acc, d);
        j += 1;
    }
    acc
}

/// Reads the number that `digits` write, held to the range of 128 bits.
fn read_wide(digits: &[char]) -> (r: u128)
    requires
        all_digits(digits@),
    ensures
        r == saturate_wide(digits_value(digits@)),
{
    let n: usize = digits.len();
    let mut acc: u128 = 0;
    let mut j: usize = 0;
    while j < n
        invariant
            n == digits@.len(),
            j <= n,
            all_digits(digits@),
            acc == saturate_wide(digits_value(digits@.take(j as int))),
        decreases n - j,
    {
        let c = digits[j];
        let d: u128 = (c as u32 - 0x30) as u128;
        proof {
            let before = digits@.take(j as int);
            let after = digits@.take(j + 1);
            assert(after.drop_last() =~= before);
        }
        acc = push_digit_wide(acc, d);
        j += 1;
    }
    assert(digits@.take(n as int) =~= digits@);
    acc
}

/// Multiplies by ten to the power `z`, held to the range of 64 bits. Of a
/// power of 20 or more `zeros` need only say that it is one.
fn scale_up(acc: u64, zeros: u128, Ghost(v): Ghost<nat>, Ghost(z): Ghost<nat>) -> (r: u64)
    requires
        acc == saturate(v),
        zeros == z || (zeros >= 20 && z >= 20),
    ensures
        r == saturate(v * pow10(z)),
{
    if acc == 0 {
        assert(v * pow10(z) == 0) by (nonlinear_arith)
            requires
                v == 0,
        ;
        0
    } else if zeros >= 20 {
        proof {
            let p = pow10(z);
            lemma_pow10_20();
            lemma_pow10_increases(20, z);
            assert(v * p >= p) by (nonlinear_arith)
                requires
                    v >= 1,
                    p >= 0,
            ;
        }
        u64::MAX
    } else {
        let mut acc: u64 = acc;
        let mut k: u128 = 0;
        proof {
            lemma_pow10(0);
        }
        while k < zeros
            invariant
                k <= zeros,
                zeros == z,
                zeros < 20,
                acc == saturate(v * pow10(k as nat)),
            decreases zeros - k,
        {
            proof {
                lemma_pow10(k as nat);
                let p = pow10(k as nat);
                assert(v * p * 10 == v * (10 * p)) by (nonlinear_arith);
            }
            acc = push_digit(acc, 0);
            k += 1;
        }
        acc
    }
}

/// Cuts the number with these parts down to a whole number, held to the
/// range of 64 bits.
fn truncate(
    int_digits: &[char],
    frac_digits: &[char],
    exp_negative: bool,
    exp: u128,
    Ghost(e): Ghost<nat>,
) -> (r: u64)
    requires
        all_digits(int_digits@),
        all_digits(frac_digits@),
        exp == saturate_wide(e),
    ensures
        r == saturate(
            shifted_floor(
                int_digits@ + frac_digits@,
                (if exp_negative {
                    -(e as int)
                } else {
                    e as int
                }) - frac_digits@.len(),
            ),
        ),
{
    let i_len: usize = int_digits.len();
    let f_len: usize = frac_digits.len();
    let ghost digits = int_digits@ + frac_digits@;
    let ghost none = Seq::<char>::empty();
    assert(all_digits(digits));
    if exp_negative {
        proof {
            lemma_shifted_floor_right(digits, e + f_len as nat);
        }
        if exp >= i_len as u128 {
            0
        } else {
            let keep: usize = i_len - (exp as usize);
            let r = accumulate(0, int_digits, keep, Ghost(none));
            assert(none + int_digits@.take(keep as int) =~= digits.take(
                digits.len() - (e + f_len),
            ));
            r
        }
    } else if exp >= f_len as u128 {
        let acc = accumulate(0, int_digits, i_len, Ghost(none));
        assert(none + int_digits@.take(i_len as int) =~= int_digits@);
        let acc = accumulate(acc, frac_digits, f_len, Ghost(int_digits@));
        assert(int_digits@ + frac_digits@.take(f_len as int) =~= digits);
        let zeros: u128 = exp - f_len as u128;
        scale_up(acc, zeros, Ghost(digits_value(digits)), Ghost((e - f_len) as nat))
    } else {
        let acc = accumulate(0, int_digits, i_len, Ghost(none));
        assert(none + int_digits@.take(i_len as int) =~= int_digits@);
        let acc = accumulate(acc, frac_digits, exp as usize, Ghost(int_digits@));
        proof {
            lemma_shifted_floor_right(digits, (f_len - e) as nat);
            assert(int_digits@ + frac_digits@.take(e as int) =~= digits.take(
                digits.len() - (f_len - e),
            ));
        }
        acc
    }
}

/// Reads a number and cuts it down to a whole number of 64 bits.
pub fn parse_truncated(text: &[char]) -> (r: Option<u64>)
    ensures
        r == spec_parse_truncated(text@),
{
    let n: usize = text.len();
    let negative: bool = n > 0 && text[0] == '-';
    let sign: usize = if n > 0 && (text[0] == '+' || text[0] == '-') {
        1
    } else {
        0
    };
    let body = slice_subrange(text, sign, n);
    let inf = to_chars("inf");
    let infinity = to_chars("infinity");
    let nan = to_chars("nan");
    if matches_word(body, inf.as_slice()) || matches_word(body, infinity.as_slice()) {
        return Some(
            if negative {
                0
            } else {
                u64::MAX
            },
        );
    }
    if matches_word(body, nan.as_slice()) {
        return Some(0);
    }
    let m: usize = body.len();
    let a: usize = skip(body, &CharSet::Digits, 0);
    let point: bool = a < m && body[a] == '.';
    let b: usize = if point {
        skip(body, &CharSet::Digits, a + 1)
    } else {
        a
    };
    proof {
        lemma_skip_bounds(body@, CharSet::Digits, 0);
        if point {
            lemma_skip_bounds(body@, CharSet::Digits, a + 1);
        }
    }
    let int_digits = slice_subrange(body, 0, a);
    let frac_digits = if point {
        slice_subrange(body, a + 1, b)
    } else {
        slice_subrange(body, a, a)
    };
    assert(frac_digits@ =~= if point {
        body@.subrange(a + 1, b as int)
    } else {
        Seq::empty()
    });
    assert(all_digits(int_digits@));
    assert(all_digits(frac_digits@));
    if int_digits.len() + frac_digits.len() == 0 {
        return None;
    }
    let value: u64 = if b >= m {
        truncate(int_digits, frac_digits, false, 0, Ghost(0))
    } else if body[b] == 'e' || body[b] == 'E' {
        let tail = slice_subrange(body, b + 1, m);
        let t: usize = tail.len();
        let exp_negative: bool = t > 0 && tail[0] == '-';
        let exp_sign: usize = if t > 0 && (tail[0] == '+' || tail[0] == '-') {
            1
        } else {
            0
        };
        let exp_digits = slice_subrange(tail, exp_sign, t);
        let run: usize = skip(exp_digits, &CharSet::Digits, 0);
        proof {
            lemma_skip_bounds(exp_digits@, CharSet::Digits, 0);
        }
        if exp_digits.len() == 0 || run < exp_digits.len() {
            return None;
        }
        let exp: u128 = read_wide(exp_digits);
        truncate(int_digits, frac_digits, exp_negative, exp, Ghost(digits_value(exp_digits@)))
    } else {
        return None;
    };
    Some(
        if negative {
            0
        } else {
            value
        },
    )
}

} // verus!
