//! Exact arithmetic on decimal numerals: the value of a digit string and the
//! rounded product of a decimal fraction with an integer scale.

use vstd::prelude::*;
use vstd::arithmetic::div_mod::{lemma_div_denominator, lemma_fundamental_div_mod, lemma_div_multiples_vanish_fancy};
use crate::text::is_digit;

verus! {

/// `10^k`.
pub open spec fn pow10(k: nat) -> nat
    decreases k,
{
    if k == 0 {
        1
    } else {
        10 * pow10((k - 1) as nat)
    }
}

/// The numeric value of a digit character.
pub open spec fn digit_value(c: char) -> nat {
    ((c as u32) - ('0' as u32)) as nat
}

/// The value of a string of decimal digits (0 for the empty string).
pub open spec fn digits_value(s: Seq<char>) -> nat
    decreases s.len(),
{
    if s.len() == 0 {
        0
    } else {
        digits_value(s.drop_last()) * 10 + digit_value(s.last())
    }
}

/// Every character of `s` is a decimal digit.
pub open spec fn all_digits(s: Seq<char>) -> bool {
    forall|i: int| 0 <= i < s.len() ==> is_digit(#[trigger] s[i])
}

/// `int_part.frac` times `scale`, rounded to the nearest integer with halves
/// rounded up.
pub open spec fn rounded_product(int_part: nat, frac: Seq<char>, scale: nat) -> nat {
    let p = pow10(frac.len());
    (2 * (int_part * p + digits_value(frac)) * scale + p) / (2 * p)
}

/// Powers of ten are positive.
pub proof fn lemma_pow10_positive(k: nat)
    ensures
        pow10(k) >= 1,
    decreases k,
{
    if k > 0 {
        lemma_pow10_positive((k - 1) as nat);
    }
}

/// A digit string is worth less than ten to the power of its length.
pub proof fn lemma_digits_value_bound(s: Seq<char>)
    requires
        all_digits(s),
    ensures
        digits_value(s) < pow10(s.len()),
    decreases s.len(),
{
    if s.len() > 0 {
        let r = s.drop_last();
        assert(is_digit(s[s.len() - 1]));
        lemma_digits_value_bound(r);
        assert(digits_value(r) + 1 <= pow10(r.len()));
        assert(digits_value(r) * 10 + 10 <= pow10(r.len()) * 10) by (nonlinear_arith)
            requires
                digits_value(r) + 1 <= pow10(r.len()),
        ;
    }
}

/// The value of a digit string with a digit put in front.
pub proof fn lemma_digits_prepend(d: char, rest: Seq<char>)
    ensures
        digits_value(seq![d] + rest) == digit_value(d) * pow10(rest.len()) + digits_value(rest),
    decreases rest.len(),
{
    let s = seq![d] + rest;
    if rest.len() == 0 {
        assert(s.drop_last() =~= Seq::<char>::empty());
        assert(s.last() == d);
        assert(pow10(0) == 1);
        assert(digit_value(d) * 1 == digit_value(d));
        assert(rest =~= Seq::<char>::empty());
        assert(digits_value(s) == digit_value(d) * pow10(rest.len()) + digits_value(rest));
    } else {
        assert(s.drop_last() =~= seq![d] + rest.drop_last());
        lemma_digits_prepend(d, rest.drop_last());
        let a = digit_value(d);
        let q = pow10(rest.drop_last().len());
        let v = digits_value(rest.drop_last());
        assert(s.last() == rest.last());
        assert(digits_value(s) == digits_value(seq![d] + rest.drop_last()) * 10 + digit_value(rest.last()));
        assert(digits_value(rest) == v * 10 + digit_value(rest.last()));
        assert(pow10(rest.len()) == 10 * q);
        assert((a * q + v) * 10 == a * (10 * q) + v * 10) by (nonlinear_arith);
        assert(digits_value(seq![d] + rest.drop_last()) == a * q + v);
        assert(digits_value(s) == a * pow10(rest.len()) + digits_value(rest));
    }
}

/// The value of a digit string with a digit appended.
pub proof fn lemma_digits_push(s: Seq<char>, c: char)
    ensures
        digits_value(s.push(c)) == digits_value(s) * 10 + digit_value(c),
{
    assert(s.push(c).drop_last() =~= s);
}

/// `(q * d + r) / d == q + r / d` for `d > 0`, `r >= 0`.
pub proof fn lemma_div_add_multiple(q: int, r: int, d: int)
    requires
        d > 0,
        r >= 0,
    ensures
        (q * d + r) / d == q + r / d,
{
    lemma_fundamental_div_mod(r, d);
    let rq = r / d;
    let rm = r % d;
    assert(q * d + r == d * (q + rq) + rm) by (nonlinear_arith)
        requires
            r == d * rq + rm,
    ;
    lemma_div_multiples_vanish_fancy(q + rq, rm, d);
}

/// One Horner step of the fractional product, taken from the last digit back.
pub proof fn lemma_fraction_step(c: nat, d: nat, v: nat, p: nat)
    requires
        p > 0,
    ensures
        (c * (d * p + v)) / (10 * p) == (c * d + (c * v) / p) / 10,
{
    let x = c * (d * p + v);
    assert(x == (c * d) * p + c * v) by (nonlinear_arith)
        requires
            x == c * (d * p + v),
    ;
    lemma_div_denominator(x as int, p as int, 10);
    assert(p * 10 == 10 * p);
    lemma_div_add_multiple((c * d) as int, (c * v) as int, p as int);
}

/// The rounded product split into its integer and fractional contributions.
pub proof fn lemma_rounded_product_split(i: nat, f: nat, m: nat, p: nat)
    requires
        p > 0,
    ensures
        (2 * (i * p + f) * m + p) / (2 * p) == i * m + (((2 * m * f) / p) + 1) / 2,
{
    let n = 2 * (i * p + f) * m + p;
    assert(n == (i * m) * (2 * p) + (2 * m * f + p)) by (nonlinear_arith)
        requires
            n == 2 * (i * p + f) * m + p,
    ;
    lemma_div_add_multiple((i * m) as int, (2 * m * f + p) as int, (2 * p) as int);
    let y = 2 * m * f + p;
    lemma_div_denominator(y as int, p as int, 2);
    assert(p * 2 == 2 * p);
    assert(y == 1 * p + 2 * m * f);
    lemma_div_add_multiple(1, (2 * m * f) as int, p as int);
}

/// The value of a digit string, or `None` once it exceeds `u128::MAX`.
pub fn digits_to_u128(s: &[char]) -> (r: Option<u128>)
    requires
        all_digits(s@),
    ensures
        r matches Some(v) ==> v == digits_value(s@),
        r is None ==> digits_value(s@) > u128::MAX,
{
    let mut acc: u128 = 0;
    let mut i: usize = 0;
    while i < s.len()
        invariant
            i <= s.len(),
            all_digits(s@),
            acc == digits_value(s@.take(i as int)),
        decreases s.len() - i,
    {
        let c = s[i];
        assert(is_digit(s@[i as int]));
        let d = (c as u32 - '0' as u32) as u128;
        assert(s@.take(i + 1) =~= s@.take(i as int).push(c));
        proof { lemma_digits_push(s@.take(i as int), c); }
        if acc > (u128::MAX - d) / 10 {
            proof {
                assert(acc * 10 + d > u128::MAX) by (nonlinear_arith)
                    requires
                        acc as int > ((u128::MAX - d) as int) / 10,
                        d <= 9,
                ;
                lemma_digits_monotone_prefix(s@, i + 1);
            }
            return None;
        }
        acc = acc * 10 + d;
        i += 1;
    }
    assert(s@.take(s.len() as int) =~= s@);
    Some(acc)
}

/// A digit string is worth at least any of its prefixes.
pub proof fn lemma_digits_monotone_prefix(s: Seq<char>, n: int)
    requires
        0 <= n <= s.len(),
    ensures
        digits_value(s.take(n)) <= digits_value(s),
    decreases s.len() - n,
{
    if n < s.len() {
        assert(s.drop_last().take(n) =~= s.take(n));
        lemma_digits_monotone_prefix(s.drop_last(), n);
        assert(digits_value(s.drop_last()) <= digits_value(s.drop_last()) * 10);
    } else {
        assert(s.take(n) =~= s);
    }
}

/// `int_part.frac × scale` rounded half up, saturating at `u128::MAX`.
pub fn scale_decimal(int_digits: &[char], frac: &[char], scale: u64) -> (r: u128)
    requires
        all_digits(int_digits@),
        all_digits(frac@),
        1 <= scale <= 10_000_000_000_000,
    ensures
        r as nat == if rounded_product(digits_value(int_digits@), frac@, scale as nat) > u128::MAX {
            u128::MAX as nat
        } else {
            rounded_product(digits_value(int_digits@), frac@, scale as nat)
        },
{
    let ghost iv = digits_value(int_digits@);
    let ghost k = frac@.len();
    let ghost p = pow10(k);
    let ghost f = digits_value(frac@);
    proof {
        lemma_pow10_positive(k);
        lemma_digits_value_bound(frac@);
    }
    // Fractional contribution: floor(2 * scale * 0.frac), computed from the last digit back.
    let c: u128 = 2 * (scale as u128);
    let mut t: u128 = 0;
    let mut i: usize = frac.len();
    assert(frac@.skip(i as int) =~= Seq::<char>::empty());
    assert(pow10(0) == 1);
    assert(digits_value(Seq::<char>::empty()) == 0);
    assert((c as nat * 0nat) / 1nat == 0) by (nonlinear_arith);
    while i > 0
        invariant
            i <= frac.len(),
            k == frac@.len(),
            all_digits(frac@),
            c == 2 * scale,
            1 <= scale <= 10_000_000_000_000,
            pow10((k - i) as nat) > 0,
            t as nat == (c as nat * digits_value(frac@.skip(i as int))) / pow10((k - i) as nat),
            t < c,
        decreases i,
    {
        let ch = frac[i - 1];
        assert(is_digit(frac@[i - 1]));
        let d = (ch as u32 - '0' as u32) as u128;
        proof {
            let rest = frac@.skip(i as int);
            let q = pow10((k - i) as nat);
            let v = digits_value(rest);
            assert(d as nat == digit_value(ch));
            assert(d <= 9);
            assert(frac@.skip(i - 1) =~= seq![ch] + rest);
            lemma_digits_prepend(ch, rest);
            assert(rest.len() == k - i);
            assert(digits_value(frac@.skip(i - 1)) == d as nat * q + v);
            lemma_fraction_step(c as nat, d as nat, v, q);
            assert(pow10((k - (i - 1)) as nat) == 10 * q);
            assert(t as nat == (c as nat * v) / q);
            lemma_digits_value_bound(frac@.skip(i - 1));
            assert(frac@.skip(i - 1).len() == k - (i - 1));
            let w = digits_value(frac@.skip(i - 1));
            let big = pow10((k - (i - 1)) as nat);
            assert((c as nat * w) / big < c) by {
                assert(c as nat * w < c as nat * big) by (nonlinear_arith)
                    requires
                        w < big,
                        c > 0,
                ;
                assert((c as nat * w) / big < c) by (nonlinear_arith)
                    requires
                        c as nat * w < c as nat * big,
                        big > 0,
                ;
            }
            assert(c * d + t <= 11 * c) by (nonlinear_arith)
                requires
                    d <= 9,
                    t < c,
            ;
            assert((c as nat * w) / big == (c as nat * d as nat + t as nat) / 10);
        }
        t = (c * d + t) / 10;
        i -= 1;
    }
    assert(frac@.skip(0) =~= frac@);
    let frac_part: u128 = (t + 1) / 2;
    proof {
        lemma_rounded_product_split(iv, f, scale as nat, p);
    }
    match digits_to_u128(int_digits) {
        None => {
            proof {
                assert(iv * scale >= iv) by (nonlinear_arith)
                    requires
                        scale >= 1,
                ;
            }
            u128::MAX
        },
        Some(ival) => {
            if ival > (u128::MAX - frac_part) / (scale as u128) {
                proof {
                    assert(ival * scale + frac_part > u128::MAX) by (nonlinear_arith)
                        requires
                            ival as int > ((u128::MAX - frac_part) as int) / (scale as int),
                            scale >= 1,
                    ;
                }
                u128::MAX
            } else {
                proof {
                    assert(ival * scale <= u128::MAX - frac_part) by (nonlinear_arith)
                        requires
                            ival as int <= ((u128::MAX - frac_part) as int) / (scale as int),
                            scale >= 1,
                    ;
                }
                ival * (scale as u128) + frac_part
            }
        },
    }
}

} // verus!
