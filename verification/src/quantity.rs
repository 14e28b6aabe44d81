//! Human-readable sizes (`25 MB`, `1.5MiB`) and durations (`60s`, `2m`).
//!
//! A quantity is a decimal number followed by an optional unit; white space may
//! appear anywhere. The number is scaled exactly and rounded to the nearest
//! unit (byte or nanosecond), halves rounded up.

use vstd::prelude::*;
use std::time::Duration;
use crate::text::{concat2, concat3, push_str, is_digit, is_space, ascii_lower, trim, chars_of, trim_chars, string_of, lower_ascii, char_is_digit, char_is_space, seq_eq};
use crate::decimal::{digits_value, rounded_product, all_digits, scale_decimal};

verus! {

/// Why a quantity could not be read.
#[derive(Debug)]
pub enum QuantityError {
    /// The input is empty or only white space.
    Empty,
    /// The number is malformed or follows the unit; carries the trimmed input.
    Invalid(String),
    /// The unit is not known; carries the unit as written.
    UnknownUnit(String),
}

/// The mathematical content of a [`QuantityError`].
pub enum QuantityErrorView {
    Empty,
    Invalid(Seq<char>),
    UnknownUnit(Seq<char>),
}

impl QuantityError {
    /// The mathematical content of this error.
    pub open spec fn view(&self) -> QuantityErrorView {
        match self {
            QuantityError::Empty => QuantityErrorView::Empty,
            QuantityError::Invalid(s) => QuantityErrorView::Invalid(s@),
            QuantityError::UnknownUnit(u) => QuantityErrorView::UnknownUnit(u@),
        }
    }
}

impl QuantityError {
    /// The message shown for this error, for a quantity called `what`
    /// (`size` or `duration`).
    pub fn message(&self, what: &str) -> (m: String)
        ensures
            m@ == match self.view() {
                QuantityErrorView::Empty => what@ + " cannot be empty"@,
                QuantityErrorView::Invalid(t) => "invalid "@ + what@ + ": "@ + t,
                QuantityErrorView::UnknownUnit(u) => "unknown "@ + what@ + " unit: "@ + u,
            },
    {
        match self {
            QuantityError::Empty => concat2(what, " cannot be empty"),
            QuantityError::Invalid(t) => {
                let mut m = concat3("invalid ", what, ": ");
                push_str(&mut m, t.as_str());
                m
            },
            QuantityError::UnknownUnit(u) => {
                let mut m = concat3("unknown ", what, " unit: ");
                push_str(&mut m, u.as_str());
                m
            },
        }
    }
}

/// The view of a reading's outcome.
pub open spec fn outcome_view<T>(r: Result<T, QuantityError>) -> Result<T, QuantityErrorView> {
    match r {
        Ok(v) => Ok(v),
        Err(e) => Err(e.view()),
    }
}

/// Characters that make up the number.
pub open spec fn is_number_char(c: char) -> bool {
    is_digit(c) || c == '.'
}

/// Characters that make up the unit.
pub open spec fn is_unit_char(c: char) -> bool {
    !is_number_char(c) && !is_space(c)
}

/// The number characters of `s`, in order.
pub open spec fn number_chars(s: Seq<char>) -> Seq<char>
    decreases s.len(),
{
    if s.len() == 0 {
        Seq::empty()
    } else if is_number_char(s.last()) {
        number_chars(s.drop_last()).push(s.last())
    } else {
        number_chars(s.drop_last())
    }
}

/// The unit characters of `s`, in order.
pub open spec fn unit_chars(s: Seq<char>) -> Seq<char>
    decreases s.len(),
{
    if s.len() == 0 {
        Seq::empty()
    } else if is_unit_char(s.last()) {
        unit_chars(s.drop_last()).push(s.last())
    } else {
        unit_chars(s.drop_last())
    }
}

/// A number character appears after a unit character.
pub open spec fn number_after_unit(s: Seq<char>) -> bool {
    exists|i: int, j: int| #![trigger s[i], s[j]] 0 <= i < j < s.len() && is_unit_char(s[i]) && is_number_char(s[j])
}

/// The index of the first `.` in `n`, or its length.
pub open spec fn first_dot(n: Seq<char>) -> nat
    decreases n.len(),
{
    if n.len() == 0 || n[0] == '.' {
        0
    } else {
        1 + first_dot(n.drop_first())
    }
}

/// A string of digits and dots that reads as a decimal number: at most one dot
/// and at least one digit (`5`, `5.`, `.5`, `2.25`).
pub open spec fn decimal_ok(n: Seq<char>) -> bool {
    &&& forall|i: int, j: int| #![trigger n[i], n[j]] 0 <= i < j < n.len() ==> !(n[i] == '.' && n[j] == '.')
    &&& exists|i: int| 0 <= i < n.len() && #[trigger] n[i] != '.'
}

/// The digits before the dot.
pub open spec fn int_digits(n: Seq<char>) -> Seq<char> {
    n.take(first_dot(n) as int)
}

/// The digits after the dot.
pub open spec fn frac_digits(n: Seq<char>) -> Seq<char> {
    if first_dot(n) < n.len() {
        n.skip(first_dot(n) + 1int)
    } else {
        Seq::empty()
    }
}

/// The scale of a lower-cased size unit in bytes.
pub open spec fn size_scale(u: Seq<char>) -> Option<nat> {
    if u == Seq::<char>::empty() || u == seq!['b'] {
        Some(1)
    } else if u == seq!['k'] || u == seq!['k', 'b'] {
        Some(1_000)
    } else if u == seq!['m'] || u == seq!['m', 'b'] {
        Some(1_000_000)
    } else if u == seq!['g'] || u == seq!['g', 'b'] {
        Some(1_000_000_000)
    } else if u == seq!['t'] || u == seq!['t', 'b'] {
        Some(1_000_000_000_000)
    } else if u == seq!['k', 'i'] || u == seq!['k', 'i', 'b'] {
        Some(1024)
    } else if u == seq!['m', 'i'] || u == seq!['m', 'i', 'b'] {
        Some(1_048_576)
    } else if u == seq!['g', 'i'] || u == seq!['g', 'i', 'b'] {
        Some(1_073_741_824)
    } else if u == seq!['t', 'i'] || u == seq!['t', 'i', 'b'] {
        Some(1_099_511_627_776)
    } else {
        None
    }
}

/// The scale of a lower-cased duration unit in seconds.
pub open spec fn duration_scale(u: Seq<char>) -> Option<nat> {
    if u == Seq::<char>::empty() || u == seq!['s'] || u == seq!['s', 'e', 'c'] || u == seq![
        's',
        'e',
        'c',
        's',
    ] || u == seq!['s', 'e', 'c', 'o', 'n', 'd'] || u == seq!['s', 'e', 'c', 'o', 'n', 'd', 's'] {
        Some(1)
    } else if u == seq!['m'] || u == seq!['m', 'i', 'n'] || u == seq!['m', 'i', 'n', 's'] || u
        == seq!['m', 'i', 'n', 'u', 't', 'e'] || u == seq!['m', 'i', 'n', 'u', 't', 'e', 's'] {
        Some(60)
    } else if u == seq!['h'] || u == seq!['h', 'r'] || u == seq!['h', 'r', 's'] || u == seq![
        'h',
        'o',
        'u',
        'r',
    ] || u == seq!['h', 'o', 'u', 'r', 's'] {
        Some(3600)
    } else {
        None
    }
}

/// Nanoseconds per second.
pub open spec fn nanos_per_second() -> nat {
    1_000_000_000
}

/// Reads `input` as a quantity whose lower-cased unit has the scale `scale_of`
/// gives: the exact number of base units (before any saturation), or why it
/// cannot be read.
pub open spec fn read_quantity(input: Seq<char>, scale_of: spec_fn(Seq<char>) -> Option<nat>) -> Result<
    nat,
    QuantityErrorView,
> {
    let t = trim(input);
    let n = number_chars(t);
    let u = unit_chars(t);
    if t.len() == 0 {
        Err(QuantityErrorView::Empty)
    } else if number_after_unit(t) || !decimal_ok(n) {
        Err(QuantityErrorView::Invalid(t))
    } else {
        match scale_of(u.map_values(|c: char| ascii_lower(c))) {
            None => Err(QuantityErrorView::UnknownUnit(u)),
            Some(m) => Ok(rounded_product(digits_value(int_digits(n)), frac_digits(n), m)),
        }
    }
}

/// What `parse_size` reads from `input`: a byte count, saturating at `u64::MAX`.
pub open spec fn size_reading(input: Seq<char>) -> Result<u64, QuantityErrorView> {
    match read_quantity(input, |u: Seq<char>| size_scale(u)) {
        Ok(v) => Ok(if v > u64::MAX { u64::MAX } else { v as u64 }),
        Err(e) => Err(e),
    }
}

/// What `parse_duration_nanos` reads from `input`: a count of nanoseconds,
/// saturating at `u128::MAX`.
pub open spec fn duration_nanos_reading(input: Seq<char>) -> Result<u128, QuantityErrorView> {
    match read_quantity(input, |u: Seq<char>| match duration_scale(u) {
        Some(s) => Some(s * nanos_per_second()),
        None => None,
    }) {
        Ok(v) => Ok(if v > u128::MAX { u128::MAX } else { v as u128 }),
        Err(e) => Err(e),
    }
}

/// A quantity split into its number and unit characters.
struct Split {
    trimmed: Vec<char>,
    number: Vec<char>,
    unit: Vec<char>,
}

fn split_quantity(input: &str) -> (r: Result<Split, QuantityError>)
    ensures
        ({
            let t = trim(input@);
            match r {
                Ok(sp) => {
                    &&& t.len() > 0
                    &&& !number_after_unit(t)
                    &&& sp.trimmed@ == t
                    &&& sp.number@ == number_chars(t)
                    &&& sp.unit@ == unit_chars(t)
                },
                Err(e) => {
                    &&& t.len() == 0 ==> e.view() == QuantityErrorView::Empty
                    &&& t.len() > 0 ==> number_after_unit(t) && e.view() == QuantityErrorView::Invalid(t)
                },
            }
        }),
{
    let all = chars_of(input);
    let t = trim_chars(all.as_slice());
    if t.len() == 0 {
        return Err(QuantityError::Empty);
    }
    let mut number: Vec<char> = Vec::new();
    let mut unit: Vec<char> = Vec::new();
    let mut seen_unit = false;
    let ghost mut unit_at: int = 0;
    let mut i: usize = 0;
    while i < t.len()
        invariant
            t@ == trim(input@),
            i <= t.len(),
            number@ == number_chars(t@.take(i as int)),
            unit@ == unit_chars(t@.take(i as int)),
            !number_after_unit(t@.take(i as int)),
            seen_unit ==> 0 <= unit_at < i && is_unit_char(t@[unit_at]),
            !seen_unit ==> forall|k: int| 0 <= k < i ==> !is_unit_char(#[trigger] t@[k]),
        decreases t.len() - i,
    {
        let c = t[i];
        let ghost before = t@.take(i as int);
        let ghost after = t@.take(i + 1);
        assert(after.drop_last() =~= before);
        assert(after.last() == c);
        if char_is_digit(c) || c == '.' {
            if seen_unit {
                proof {
                    assert(0 <= unit_at < i as int && is_unit_char(t@[unit_at]) && is_number_char(t@[i as int]));
                }
                let trimmed = string_of(t.as_slice());
                return Err(QuantityError::Invalid(trimmed));
            }
            number.push(c);
            proof {
                assert forall|a: int, b: int| #![trigger after[a], after[b]] 0 <= a < b < after.len() && is_unit_char(after[a]) implies !is_number_char(after[b]) by {
                    assert(after[a] == t@[a]);
                }
            }
        } else if !char_is_space(c) {
            unit.push(c);
            if !seen_unit {
                proof { unit_at = i as int; }
            }
            seen_unit = true;
            proof {
                assert forall|a: int, b: int| #![trigger after[a], after[b]] 0 <= a < b < after.len() && is_unit_char(after[a]) implies !is_number_char(after[b]) by {
                    if b < i {
                        assert(before[a] == after[a] && before[b] == after[b]);
                    }
                }
            }
        } else {
            proof {
                assert forall|a: int, b: int| #![trigger after[a], after[b]] 0 <= a < b < after.len() && is_unit_char(after[a]) implies !is_number_char(after[b]) by {
                    if b < i {
                        assert(before[a] == after[a] && before[b] == after[b]);
                    }
                }
            }
        }
        i += 1;
    }
    assert(t@.take(t.len() as int) =~= t@);
    Ok(Split { trimmed: t, number, unit })
}

proof fn lemma_first_dot_at(n: Seq<char>, d: int)
    requires
        0 <= d <= n.len(),
        forall|k: int| 0 <= k < d ==> n[k] != '.',
        d < n.len() ==> n[d] == '.',
    ensures
        first_dot(n) == d,
    decreases d,
{
    if d > 0 {
        lemma_first_dot_at(n.drop_first(), d - 1);
    }
}

proof fn lemma_number_chars_shape(s: Seq<char>)
    ensures
        forall|k: int| 0 <= k < number_chars(s).len() ==> is_number_char(#[trigger] number_chars(s)[k]),
    decreases s.len(),
{
    if s.len() > 0 {
        lemma_number_chars_shape(s.drop_last());
        let prev = number_chars(s.drop_last());
        if is_number_char(s.last()) {
            assert forall|k: int| 0 <= k < prev.push(s.last()).len() implies is_number_char(#[trigger] prev.push(s.last())[k]) by {
                if k < prev.len() {
                    assert(prev.push(s.last())[k] == prev[k]);
                }
            }
        }
    }
}

/// The integer and fractional digits of a decimal numeral, or `None` when the
/// numeral is malformed.
fn decimal_split(n: &[char]) -> (r: Option<(Vec<char>, Vec<char>)>)
    requires
        forall|k: int| 0 <= k < n@.len() ==> is_number_char(#[trigger] n@[k]),
    ensures
        r is Some <==> decimal_ok(n@),
        r matches Some((i, f)) ==> {
            &&& i@ == int_digits(n@)
            &&& f@ == frac_digits(n@)
            &&& all_digits(i@)
            &&& all_digits(f@)
        },
{
    let mut dot: Option<usize> = None;
    let mut has_digit = false;
    let ghost mut digit_at: int = 0;
    let mut i: usize = 0;
    while i < n.len()
        invariant
            i <= n.len(),
            forall|k: int| 0 <= k < n@.len() ==> is_number_char(#[trigger] n@[k]),
            dot matches Some(d) ==> d < i && n@[d as int] == '.' && forall|k: int| 0 <= k < i && k != d ==> #[trigger] n@[k] != '.',
            dot is None ==> forall|k: int| 0 <= k < i ==> #[trigger] n@[k] != '.',
            has_digit ==> 0 <= digit_at < i && n@[digit_at] != '.',
            !has_digit ==> forall|k: int| 0 <= k < i ==> #[trigger] n@[k] == '.',
        decreases n.len() - i,
    {
        if n[i] == '.' {
            if let Some(d) = dot {
                assert(0 <= d < i < n@.len() && n@[d as int] == '.' && n@[i as int] == '.');
                return None;
            }
            dot = Some(i);
        } else {
            if !has_digit {
                proof { digit_at = i as int; }
            }
            has_digit = true;
        }
        i += 1;
    }
    if !has_digit {
        assert(!decimal_ok(n@)) by {
            assert forall|k: int| 0 <= k < n@.len() implies #[trigger] n@[k] == '.' by {}
        }
        return None;
    }
    let cut: usize = match dot {
        Some(d) => d,
        None => n.len(),
    };
    proof {
        lemma_first_dot_at(n@, cut as int);
        assert(0 <= digit_at < n@.len() && n@[digit_at] != '.');
    }
    let mut int_part: Vec<char> = Vec::new();
    let mut k: usize = 0;
    while k < cut
        invariant
            cut <= n.len(),
            k <= cut,
            int_part@ == n@.take(k as int),
        decreases cut - k,
    {
        int_part.push(n[k]);
        assert(n@.take(k + 1) =~= n@.take(k as int).push(n@[k as int]));
        k += 1;
    }
    let mut frac: Vec<char> = Vec::new();
    if cut < n.len() {
        let mut j: usize = cut + 1;
        while j < n.len()
            invariant
                cut < n.len(),
                cut + 1 <= j <= n.len(),
                frac@ == n@.subrange(cut + 1, j as int),
            decreases n.len() - j,
        {
            frac.push(n[j]);
            assert(n@.subrange(cut + 1, j + 1) =~= n@.subrange(cut + 1, j as int).push(n@[j as int]));
            j += 1;
        }
        assert(n@.subrange(cut + 1, n.len() as int) =~= n@.skip(cut + 1));
    }
    proof {
        assert(int_part@ == int_digits(n@));
        assert forall|q: int| 0 <= q < int_part@.len() implies is_digit(#[trigger] int_part@[q]) by {
            assert(int_part@[q] == n@[q]);
            assert(is_number_char(n@[q]));
        }
        assert forall|q: int| 0 <= q < frac@.len() implies is_digit(#[trigger] frac@[q]) by {
            assert(frac@[q] == n@[cut + 1 + q]);
            assert(is_number_char(n@[cut + 1 + q]));
        }
        if cut == n.len() {
            assert(frac@ =~= frac_digits(n@));
        }
    }
    Some((int_part, frac))
}

/// The byte scale of a lower-cased size unit.
fn size_unit_scale(u: &[char]) -> (r: Option<u64>)
    ensures
        r matches Some(m) ==> size_scale(u@) == Some(m as nat),
        r is None ==> size_scale(u@) is None,
{
    if u.len() == 0 {
        assert(u@ =~= Seq::<char>::empty());
        return Some(1);
    }
    let w0: [char; 1] = ['b'];
    assert(w0@ =~= seq!['b']);
    if seq_eq(u, &w0) {
        return Some(1);
    }
    let w1: [char; 1] = ['k'];
    assert(w1@ =~= seq!['k']);
    let w2: [char; 2] = ['k', 'b'];
    assert(w2@ =~= seq!['k', 'b']);
    if seq_eq(u, &w1) || seq_eq(u, &w2) {
        return Some(1000);
    }
    let w3: [char; 1] = ['m'];
    assert(w3@ =~= seq!['m']);
    let w4: [char; 2] = ['m', 'b'];
    assert(w4@ =~= seq!['m', 'b']);
    if seq_eq(u, &w3) || seq_eq(u, &w4) {
        return Some(1000000);
    }
    let w5: [char; 1] = ['g'];
    assert(w5@ =~= seq!['g']);
    let w6: [char; 2] = ['g', 'b'];
    assert(w6@ =~= seq!['g', 'b']);
    if seq_eq(u, &w5) || seq_eq(u, &w6) {
        return Some(1000000000);
    }
    let w7: [char; 1] = ['t'];
    assert(w7@ =~= seq!['t']);
    let w8: [char; 2] = ['t', 'b'];
    assert(w8@ =~= seq!['t', 'b']);
    if seq_eq(u, &w7) || seq_eq(u, &w8) {
        return Some(1000000000000);
    }
    let w9: [char; 2] = ['k', 'i'];
    assert(w9@ =~= seq!['k', 'i']);
    let w10: [char; 3] = ['k', 'i', 'b'];
    assert(w10@ =~= seq!['k', 'i', 'b']);
    if seq_eq(u, &w9) || seq_eq(u, &w10) {
        return Some(1024);
    }
    let w11: [char; 2] = ['m', 'i'];
    assert(w11@ =~= seq!['m', 'i']);
    let w12: [char; 3] = ['m', 'i', 'b'];
    assert(w12@ =~= seq!['m', 'i', 'b']);
    if seq_eq(u, &w11) || seq_eq(u, &w12) {
        return Some(1048576);
    }
    let w13: [char; 2] = ['g', 'i'];
    assert(w13@ =~= seq!['g', 'i']);
    let w14: [char; 3] = ['g', 'i', 'b'];
    assert(w14@ =~= seq!['g', 'i', 'b']);
    if seq_eq(u, &w13) || seq_eq(u, &w14) {
        return Some(1073741824);
    }
    let w15: [char; 2] = ['t', 'i'];
    assert(w15@ =~= seq!['t', 'i']);
    let w16: [char; 3] = ['t', 'i', 'b'];
    assert(w16@ =~= seq!['t', 'i', 'b']);
    if seq_eq(u, &w15) || seq_eq(u, &w16) {
        return Some(1099511627776);
    }
    None
}

/// The second scale of a lower-cased duration unit.
fn duration_unit_scale(u: &[char]) -> (r: Option<u64>)
    ensures
        r matches Some(m) ==> duration_scale(u@) == Some(m as nat),
        r is None ==> duration_scale(u@) is None,
{
    if u.len() == 0 {
        assert(u@ =~= Seq::<char>::empty());
        return Some(1);
    }
    let w0: [char; 1] = ['s'];
    assert(w0@ =~= seq!['s']);
    let w1: [char; 3] = ['s', 'e', 'c'];
    assert(w1@ =~= seq!['s', 'e', 'c']);
    let w2: [char; 4] = ['s', 'e', 'c', 's'];
    assert(w2@ =~= seq!['s', 'e', 'c', 's']);
    let w3: [char; 6] = ['s', 'e', 'c', 'o', 'n', 'd'];
    assert(w3@ =~= seq!['s', 'e', 'c', 'o', 'n', 'd']);
    let w4: [char; 7] = ['s', 'e', 'c', 'o', 'n', 'd', 's'];
    assert(w4@ =~= seq!['s', 'e', 'c', 'o', 'n', 'd', 's']);
    if seq_eq(u, &w0) || seq_eq(u, &w1) || seq_eq(u, &w2) || seq_eq(u, &w3) || seq_eq(u, &w4) {
        return Some(1);
    }
    let w5: [char; 1] = ['m'];
    assert(w5@ =~= seq!['m']);
    let w6: [char; 3] = ['m', 'i', 'n'];
    assert(w6@ =~= seq!['m', 'i', 'n']);
    let w7: [char; 4] = ['m', 'i', 'n', 's'];
    assert(w7@ =~= seq!['m', 'i', 'n', 's']);
    let w8: [char; 6] = ['m', 'i', 'n', 'u', 't', 'e'];
    assert(w8@ =~= seq!['m', 'i', 'n', 'u', 't', 'e']);
    let w9: [char; 7] = ['m', 'i', 'n', 'u', 't', 'e', 's'];
    assert(w9@ =~= seq!['m', 'i', 'n', 'u', 't', 'e', 's']);
    if seq_eq(u, &w5) || seq_eq(u, &w6) || seq_eq(u, &w7) || seq_eq(u, &w8) || seq_eq(u, &w9) {
        return Some(60);
    }
    let w10: [char; 1] = ['h'];
    assert(w10@ =~= seq!['h']);
    let w11: [char; 2] = ['h', 'r'];
    assert(w11@ =~= seq!['h', 'r']);
    let w12: [char; 3] = ['h', 'r', 's'];
    assert(w12@ =~= seq!['h', 'r', 's']);
    let w13: [char; 4] = ['h', 'o', 'u', 'r'];
    assert(w13@ =~= seq!['h', 'o', 'u', 'r']);
    let w14: [char; 5] = ['h', 'o', 'u', 'r', 's'];
    assert(w14@ =~= seq!['h', 'o', 'u', 'r', 's']);
    if seq_eq(u, &w10) || seq_eq(u, &w11) || seq_eq(u, &w12) || seq_eq(u, &w13) || seq_eq(u, &w14) {
        return Some(3600);
    }
    None
}

/// Parses a human-readable size such as `25 MB` or `1.5MiB` into bytes.
///
/// Units (case-insensitive): none or `b`; decimal `k`/`kb`, `m`/`mb`, `g`/`gb`,
/// `t`/`tb`; binary `ki`/`kib`, `mi`/`mib`, `gi`/`gib`, `ti`/`tib`.
pub fn parse_size(input: &str) -> (r: Result<u64, QuantityError>)
    ensures
        outcome_view(r) == size_reading(input@),
{
    let sp = match split_quantity(input) {
        Ok(sp) => sp,
        Err(e) => return Err(e),
    };
    proof { lemma_number_chars_shape(trim(input@)); }
    let (ip, fp) = match decimal_split(sp.number.as_slice()) {
        Some(parts) => parts,
        None => return Err(QuantityError::Invalid(string_of(sp.trimmed.as_slice()))),
    };
    let lowered = lower_ascii(sp.unit.as_slice());
    let m = match size_unit_scale(lowered.as_slice()) {
        Some(m) => m,
        None => return Err(QuantityError::UnknownUnit(string_of(sp.unit.as_slice()))),
    };
    let v = scale_decimal(ip.as_slice(), fp.as_slice(), m);
    if v > u64::MAX as u128 {
        Ok(u64::MAX)
    } else {
        Ok(v as u64)
    }
}

/// Parses a human-readable duration such as `60s`, `2m` or `1.5 hours` into
/// nanoseconds (saturating at `u128::MAX`).
///
/// Units (case-insensitive): none, `s`, `sec`, `secs`, `second`, `seconds`;
/// `m`, `min`, `mins`, `minute`, `minutes`; `h`, `hr`, `hrs`, `hour`, `hours`.
pub fn parse_duration_nanos(input: &str) -> (r: Result<u128, QuantityError>)
    ensures
        outcome_view(r) == duration_nanos_reading(input@),
{
    let sp = match split_quantity(input) {
        Ok(sp) => sp,
        Err(e) => return Err(e),
    };
    proof { lemma_number_chars_shape(trim(input@)); }
    let (ip, fp) = match decimal_split(sp.number.as_slice()) {
        Some(parts) => parts,
        None => return Err(QuantityError::Invalid(string_of(sp.trimmed.as_slice()))),
    };
    let lowered = lower_ascii(sp.unit.as_slice());
    let secs = match duration_unit_scale(lowered.as_slice()) {
        Some(m) => m,
        None => return Err(QuantityError::UnknownUnit(string_of(sp.unit.as_slice()))),
    };
    Ok(scale_decimal(ip.as_slice(), fp.as_slice(), secs * 1_000_000_000))
}

/// What `Duration::new(secs, nanos)` returns.
pub uninterp spec fn duration_of(secs: u64, nanos: u32) -> Duration;

/// Calls `std::time::Duration::new`; a sub-second `nanos` is kept as given, so
/// the call neither carries into the seconds nor panics.
#[verifier::external_body]
fn duration_new(secs: u64, nanos: u32) -> (d: Duration)
    requires
        nanos < 1_000_000_000,
    ensures
        d == duration_of(secs, nanos),
{
    Duration::new(secs, nanos)
}

/// The readings `parse_duration` accepts without overflowing a `Duration`.
pub open spec fn duration_fits(input: Seq<char>) -> bool {
    duration_nanos_reading(input) matches Ok(n) ==> (n as nat) / nanos_per_second() <= u64::MAX
}

/// Parses a human-readable duration such as `60s` or `2m`.
pub fn parse_duration(input: &str) -> (r: Result<Duration, QuantityError>)
    requires
        duration_fits(input@),
    ensures
        match (r, duration_nanos_reading(input@)) {
            (Ok(d), Ok(n)) => d == duration_of(
                ((n as nat) / nanos_per_second()) as u64,
                ((n as nat) % nanos_per_second()) as u32,
            ),
            (Err(e), Err(v)) => e.view() == v,
            _ => false,
        },
{
    match parse_duration_nanos(input) {
        Ok(n) => {
            let secs = (n / 1_000_000_000) as u64;
            let nanos = (n % 1_000_000_000) as u32;
            Ok(duration_new(secs, nanos))
        },
        Err(e) => Err(e),
    }
}

} // verus!
