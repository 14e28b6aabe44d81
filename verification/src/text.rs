//! Character-level helpers shared by the parsers and builders of this crate.

use vstd::prelude::*;

verus! {

/// `String::push` appends the character to the string, as its documentation
/// says; this contract is trusted, not proved.
pub assume_specification[ String::push ](s: &mut String, ch: char)
    ensures
        final(s)@ == old(s)@.push(ch),
;

// ---------------------------------------------------------------------------
// Character classes
// ---------------------------------------------------------------------------

/// `0`..=`9`.
pub open spec fn is_digit(c: char) -> bool {
    '0' <= c <= '9'
}

/// The Unicode `White_Space` characters, as `char::is_whitespace` and
/// `str::trim` recognise them.
pub open spec fn is_space(c: char) -> bool {
    let u = c as u32;
    ||| 0x09 <= u <= 0x0d
    ||| u == 0x20
    ||| u == 0x85
    ||| u == 0xa0
    ||| u == 0x1680
    ||| 0x2000 <= u <= 0x200a
    ||| u == 0x2028
    ||| u == 0x2029
    ||| u == 0x202f
    ||| u == 0x205f
    ||| u == 0x3000
}

/// ASCII upper-case letters mapped to lower case; every other character kept.
pub open spec fn ascii_lower(c: char) -> char {
    if 'A' <= c <= 'Z' {
        ((c as u32) + 32) as char
    } else {
        c
    }
}

/// Whether `c` is a decimal digit.
pub fn char_is_digit(c: char) -> (b: bool)
    ensures
        b == is_digit(c),
{
    c >= '0' && c <= '9'
}

/// Whether `c` is white space.
pub fn char_is_space(c: char) -> (b: bool)
    ensures
        b == is_space(c),
{
    let u = c as u32;
    (0x09 <= u && u <= 0x0d) || u == 0x20 || u == 0x85 || u == 0xa0 || u == 0x1680 || (0x2000 <= u
        && u <= 0x200a) || u == 0x2028 || u == 0x2029 || u == 0x202f || u == 0x205f || u == 0x3000
}

/// `c` in lower case if it is an ASCII capital.
pub fn char_ascii_lower(c: char) -> (l: char)
    ensures
        l == ascii_lower(c),
{
    if c >= 'A' && c <= 'Z' {
        let b = (c as u8) + 32;
        b as char
    } else {
        c
    }
}

// ---------------------------------------------------------------------------
// Conversions between strings and character vectors
// ---------------------------------------------------------------------------

/// The characters of a string slice, in order.
pub fn chars_of(s: &str) -> (v: Vec<char>)
    ensures
        v@ == s@,
{
    let mut out: Vec<char> = Vec::new();
    for c in it: s.chars()
        invariant
            out@ == it.seq().take(it.index() as int),
    {
        out.push(c);
    }
    out
}

/// A string holding exactly the given characters.
pub fn string_of(chars: &[char]) -> (s: String)
    ensures
        s@ == chars@,
{
    let mut out = String::new();
    let mut i: usize = 0;
    while i < chars.len()
        invariant
            i <= chars.len(),
            out@ == chars@.take(i as int),
        decreases chars.len() - i,
    {
        out.push(chars[i]);
        assert(chars@.take(i + 1) =~= chars@.take(i as int).push(chars@[i as int]));
        i += 1;
    }
    assert(chars@.take(chars.len() as int) =~= chars@);
    out
}

/// A string holding the characters of `chars` from index `a` up to `b`.
pub fn string_of_range(chars: &[char], a: usize, b: usize) -> (s: String)
    requires
        a <= b <= chars.len(),
    ensures
        s@ == chars@.subrange(a as int, b as int),
{
    let mut out = String::new();
    let mut i: usize = a;
    while i < b
        invariant
            a <= i <= b <= chars.len(),
            out@ == chars@.subrange(a as int, i as int),
        decreases b - i,
    {
        out.push(chars[i]);
        assert(chars@.subrange(a as int, i + 1) =~= chars@.subrange(a as int, i as int).push(chars@[i as int]));
        i += 1;
    }
    out
}

/// Appends every character of `tail` to `out`.
pub fn push_all(out: &mut String, tail: &[char])
    ensures
        final(out)@ == old(out)@ + tail@,
{
    let mut i: usize = 0;
    while i < tail.len()
        invariant
            i <= tail.len(),
            out@ == old(out)@ + tail@.take(i as int),
        decreases tail.len() - i,
    {
        out.push(tail[i]);
        assert(tail@.take(i + 1) =~= tail@.take(i as int).push(tail@[i as int]));
        i += 1;
    }
    assert(tail@.take(tail.len() as int) =~= tail@);
}

/// Appends every character of `tail` to `out`.
pub fn push_str(out: &mut String, tail: &str)
    ensures
        final(out)@ == old(out)@ + tail@,
{
    let chars = chars_of(tail);
    push_all(out, chars.as_slice());
}

/// A fresh string equal to `s`.
pub fn owned(s: &str) -> (r: String)
    ensures
        r@ == s@,
{
    let mut out = String::new();
    push_str(&mut out, s);
    assert(out@ =~= s@);
    out
}

/// The concatenation of two strings.
pub fn concat2(a: &str, b: &str) -> (r: String)
    ensures
        r@ == a@ + b@,
{
    let mut out = owned(a);
    push_str(&mut out, b);
    out
}

/// The concatenation of three strings.
pub fn concat3(a: &str, b: &str, c: &str) -> (r: String)
    ensures
        r@ == a@ + b@ + c@,
{
    let mut out = concat2(a, b);
    push_str(&mut out, c);
    out
}

// ---------------------------------------------------------------------------
// Sequence predicates
// ---------------------------------------------------------------------------

/// Whether `s` begins with `prefix`.
pub open spec fn starts_with(s: Seq<char>, prefix: Seq<char>) -> bool {
    prefix.len() <= s.len() && s.take(prefix.len() as int) == prefix
}

/// Whether `s` ends with `suffix`.
pub open spec fn ends_with(s: Seq<char>, suffix: Seq<char>) -> bool {
    suffix.len() <= s.len() && s.skip(s.len() - suffix.len()) == suffix
}

/// Whether `needle` occurs in `s` starting at index `i`.
pub open spec fn occurs_at(s: Seq<char>, needle: Seq<char>, i: int) -> bool {
    0 <= i && i + needle.len() <= s.len() && s.subrange(i, i + needle.len()) == needle
}

/// Whether `needle` occurs anywhere in `s`.
pub open spec fn contains_seq(s: Seq<char>, needle: Seq<char>) -> bool {
    exists|i: int| #[trigger] occurs_at(s, needle, i)
}

/// Whether `s` begins with `prefix`.
pub fn seq_starts_with(s: &[char], prefix: &[char]) -> (b: bool)
    ensures
        b == starts_with(s@, prefix@),
{
    if prefix.len() > s.len() {
        return false;
    }
    let mut i: usize = 0;
    while i < prefix.len()
        invariant
            prefix.len() <= s.len(),
            i <= prefix.len(),
            forall|k: int| 0 <= k < i ==> s@[k] == prefix@[k],
        decreases prefix.len() - i,
    {
        if s[i] != prefix[i] {
            assert(s@.take(prefix@.len() as int)[i as int] != prefix@[i as int]);
            return false;
        }
        i += 1;
    }
    assert(s@.take(prefix@.len() as int) =~= prefix@);
    true
}

/// Whether `needle` occurs in `s` at index `at`.
pub fn seq_occurs_at(s: &[char], needle: &[char], at: usize) -> (b: bool)
    ensures
        b == occurs_at(s@, needle@, at as int),
{
    if at > s.len() || needle.len() > s.len() - at {
        return false;
    }
    let mut i: usize = 0;
    while i < needle.len()
        invariant
            at + needle.len() <= s.len(),
            i <= needle.len(),
            forall|k: int| 0 <= k < i ==> s@[at + k] == needle@[k],
        decreases needle.len() - i,
    {
        if s[at + i] != needle[i] {
            assert(s@.subrange(at as int, at + needle@.len())[i as int] != needle@[i as int]);
            return false;
        }
        i += 1;
    }
    assert(s@.subrange(at as int, at + needle@.len()) =~= needle@);
    true
}

/// Whether `needle` occurs anywhere in `s`.
pub fn seq_contains(s: &[char], needle: &[char]) -> (b: bool)
    ensures
        b == contains_seq(s@, needle@),
{
    if needle.len() > s.len() {
        assert forall|i: int| !occurs_at(s@, needle@, i) by {}
        return false;
    }
    let last = s.len() - needle.len();
    let mut i: usize = 0;
    loop
        invariant
            needle.len() <= s.len(),
            last == s.len() - needle.len(),
            i <= last,
            forall|k: int| 0 <= k < i ==> !occurs_at(s@, needle@, k),
        ensures
            forall|k: int| 0 <= k <= last ==> !occurs_at(s@, needle@, k),
        decreases last - i,
    {
        if seq_occurs_at(s, needle, i) {
            return true;
        }
        if i == last {
            break;
        }
        i += 1;
    }
    assert forall|k: int| !occurs_at(s@, needle@, k) by {
        if 0 <= k <= last {
        }
    }
    false
}

// ---------------------------------------------------------------------------
// Trimming
// ---------------------------------------------------------------------------

/// `s` without its leading white space.
pub open spec fn trim_start(s: Seq<char>) -> Seq<char>
    decreases s.len(),
{
    if s.len() > 0 && is_space(s[0]) {
        trim_start(s.drop_first())
    } else {
        s
    }
}

/// `s` without its trailing white space.
pub open spec fn trim_end(s: Seq<char>) -> Seq<char>
    decreases s.len(),
{
    if s.len() > 0 && is_space(s.last()) {
        trim_end(s.drop_last())
    } else {
        s
    }
}

/// `s` without leading and trailing white space, as `str::trim` computes it.
pub open spec fn trim(s: Seq<char>) -> Seq<char> {
    trim_end(trim_start(s))
}

proof fn lemma_trim_start_skip(s: Seq<char>, i: int)
    requires
        0 <= i <= s.len(),
        forall|k: int| 0 <= k < i ==> is_space(s[k]),
    ensures
        trim_start(s) == trim_start(s.skip(i)),
    decreases i,
{
    if i > 0 {
        assert(is_space(s[0]));
        assert(s.drop_first().skip(i - 1) =~= s.skip(i));
        lemma_trim_start_skip(s.drop_first(), i - 1);
    } else {
        assert(s.skip(0) =~= s);
    }
}

proof fn lemma_trim_end_take(s: Seq<char>, j: int)
    requires
        0 <= j <= s.len(),
        forall|k: int| j <= k < s.len() ==> is_space(s[k]),
    ensures
        trim_end(s) == trim_end(s.take(j)),
    decreases s.len() - j,
{
    if j < s.len() {
        assert(is_space(s[s.len() - 1]));
        assert(s.drop_last().take(j) =~= s.take(j));
        lemma_trim_end_take(s.drop_last(), j);
    } else {
        assert(s.take(j) =~= s);
    }
}

/// `s` without leading and trailing white space.
pub fn trim_chars(s: &[char]) -> (r: Vec<char>)
    ensures
        r@ == trim(s@),
{
    let mut a: usize = 0;
    while a < s.len() && char_is_space(s[a])
        invariant
            a <= s.len(),
            forall|k: int| 0 <= k < a ==> is_space(s@[k]),
        decreases s.len() - a,
    {
        a += 1;
    }
    proof { lemma_trim_start_skip(s@, a as int); }
    let ghost rest = s@.skip(a as int);
    assert(trim_start(s@) == rest);
    let mut b: usize = s.len();
    while b > a && char_is_space(s[b - 1])
        invariant
            a <= b <= s.len(),
            forall|k: int| b <= k < s.len() ==> is_space(s@[k]),
        decreases b,
    {
        b -= 1;
    }
    proof {
        lemma_trim_end_take(rest, (b - a) as int);
        assert(rest.take((b - a) as int) =~= s@.subrange(a as int, b as int));
        let t = s@.subrange(a as int, b as int);
        if t.len() > 0 {
            assert(t.last() == s@[b - 1]);
        }
    }
    let mut out: Vec<char> = Vec::new();
    let mut i: usize = a;
    while i < b
        invariant
            a <= i <= b <= s.len(),
            out@ == s@.subrange(a as int, i as int),
        decreases b - i,
    {
        out.push(s[i]);
        assert(s@.subrange(a as int, i + 1) =~= s@.subrange(a as int, i as int).push(s@[i as int]));
        i += 1;
    }
    out
}

/// `s` with every ASCII upper-case letter in lower case.
pub fn lower_ascii(s: &[char]) -> (r: Vec<char>)
    ensures
        r@ == s@.map_values(|c: char| ascii_lower(c)),
{
    let mut out: Vec<char> = Vec::new();
    let mut i: usize = 0;
    while i < s.len()
        invariant
            i <= s.len(),
            out@ == s@.take(i as int).map_values(|c: char| ascii_lower(c)),
        decreases s.len() - i,
    {
        out.push(char_ascii_lower(s[i]));
        assert(s@.take(i + 1).map_values(|c: char| ascii_lower(c)) =~= s@.take(i as int).map_values(
            |c: char| ascii_lower(c),
        ).push(ascii_lower(s@[i as int])));
        i += 1;
    }
    assert(s@.take(s.len() as int) =~= s@);
    out
}

/// Whether two character slices are equal.
pub fn seq_eq(a: &[char], b: &[char]) -> (r: bool)
    ensures
        r == (a@ == b@),
{
    if a.len() != b.len() {
        return false;
    }
    let mut i: usize = 0;
    while i < a.len()
        invariant
            a.len() == b.len(),
            i <= a.len(),
            forall|k: int| 0 <= k < i ==> a@[k] == b@[k],
        decreases a.len() - i,
    {
        if a[i] != b[i] {
            return false;
        }
        i += 1;
    }
    assert(a@ =~= b@);
    true
}

/// Whether two strings are equal.
pub fn str_eq(a: &str, b: &str) -> (r: bool)
    ensures
        r == (a@ == b@),
{
    let x = chars_of(a);
    let y = chars_of(b);
    seq_eq(x.as_slice(), y.as_slice())
}

// ---------------------------------------------------------------------------
// Splitting
// ---------------------------------------------------------------------------

/// The index of the first `c` in `s`, or the length of `s` when there is none.
pub open spec fn first_index_of(s: Seq<char>, c: char) -> int
    decreases s.len(),
{
    if s.len() == 0 || s[0] == c {
        0
    } else {
        1 + first_index_of(s.drop_first(), c)
    }
}

/// Where the first `c` lies, and that none lies before it.
pub proof fn lemma_first_index_of(s: Seq<char>, c: char)
    ensures
        0 <= first_index_of(s, c) <= s.len(),
        first_index_of(s, c) < s.len() ==> s[first_index_of(s, c)] == c,
        forall|m: int| 0 <= m < first_index_of(s, c) ==> s[m] != c,
    decreases s.len(),
{
    if s.len() > 0 && s[0] != c {
        lemma_first_index_of(s.drop_first(), c);
        assert forall|m: int| 0 <= m < first_index_of(s, c) implies s[m] != c by {
            if m > 0 {
                assert(s[m] == s.drop_first()[m - 1]);
            }
        }
    }
}

/// An index with no `c` before it and `c` at it (or the end) is the first index of `c`.
pub proof fn lemma_first_index_of_is(s: Seq<char>, c: char, k: int)
    requires
        0 <= k <= s.len(),
        forall|m: int| 0 <= m < k ==> s[m] != c,
        k < s.len() ==> s[k] == c,
    ensures
        first_index_of(s, c) == k,
    decreases k,
{
    if k > 0 {
        assert(s[0] != c);
        assert forall|m: int| 0 <= m < k - 1 implies s.drop_first()[m] != c by {
            assert(s.drop_first()[m] == s[m + 1]);
        }
        lemma_first_index_of_is(s.drop_first(), c, k - 1);
    }
}

/// The pieces of `s` between the occurrences of `c`, as `str::split` yields them.
pub open spec fn split_on(s: Seq<char>, c: char) -> Seq<Seq<char>>
    decreases s.len(),
{
    let k = first_index_of(s, c);
    if k >= s.len() {
        seq![s]
    } else {
        proof { lemma_first_index_of(s, c); }
        seq![s.take(k)] + split_on(s.skip(k + 1), c)
    }
}

/// The pieces of `s` between the occurrences of `sep`.
pub fn split_chars(s: &[char], sep: char) -> (pieces: Vec<Vec<char>>)
    ensures
        pieces@.map_values(|p: Vec<char>| p@) == split_on(s@, sep),
{
    let mut pieces: Vec<Vec<char>> = Vec::new();
    let mut current: Vec<char> = Vec::new();
    let mut start: usize = 0;
    let mut i: usize = 0;
    proof {
        assert(s@.skip(0) =~= s@);
        assert(pieces@.map_values(|p: Vec<char>| p@) =~= Seq::<Seq<char>>::empty());
        assert(Seq::<Seq<char>>::empty() + split_on(s@, sep) =~= split_on(s@, sep));
        assert(current@ =~= s@.subrange(0, 0));
    }
    while i < s.len()
        invariant
            start <= i <= s.len(),
            current@ == s@.subrange(start as int, i as int),
            forall|m: int| start <= m < i ==> s@[m] != sep,
            pieces@.map_values(|p: Vec<char>| p@) + split_on(s@.skip(start as int), sep) == split_on(s@, sep),
        decreases s.len() - i,
    {
        if s[i] == sep {
            let ghost rest = s@.skip(start as int);
            proof {
                lemma_first_index_of_is(rest, sep, (i - start) as int);
                assert(rest.take((i - start) as int) =~= current@);
                assert(rest.skip((i - start) as int + 1) =~= s@.skip(i + 1));
            }
            let ghost before = pieces@.map_values(|p: Vec<char>| p@);
            pieces.push(current);
            proof {
                assert(pieces@.map_values(|p: Vec<char>| p@) =~= before.push(s@.subrange(start as int, i as int)));
                assert(split_on(rest, sep) == seq![s@.subrange(start as int, i as int)] + split_on(s@.skip(i + 1), sep));
                assert(before.push(s@.subrange(start as int, i as int)) + split_on(s@.skip(i + 1), sep)
                    =~= before + split_on(rest, sep));
            }
            current = Vec::new();
            start = i + 1;
            assert(current@ =~= s@.subrange(start as int, start as int));
        } else {
            current.push(s[i]);
            assert(current@ =~= s@.subrange(start as int, i + 1));
        }
        i += 1;
    }
    let ghost rest = s@.skip(start as int);
    proof {
        lemma_first_index_of_is(rest, sep, rest.len() as int);
        assert(rest =~= current@);
    }
    let ghost before = pieces@.map_values(|p: Vec<char>| p@);
    pieces.push(current);
    assert(pieces@.map_values(|p: Vec<char>| p@) =~= before + split_on(rest, sep));
    pieces
}

/// `s` without `prefix`, when it begins with it.
pub fn strip_prefix_chars(s: &[char], prefix: &[char]) -> (rest: Option<Vec<char>>)
    ensures
        match rest {
            Some(r) => starts_with(s@, prefix@) && r@ == s@.skip(prefix@.len() as int),
            None => !starts_with(s@, prefix@),
        },
{
    if seq_starts_with(s, prefix) {
        let mut out: Vec<char> = Vec::new();
        let mut i: usize = prefix.len();
        while i < s.len()
            invariant
                prefix.len() <= i <= s.len(),
                out@ == s@.subrange(prefix.len() as int, i as int),
            decreases s.len() - i,
        {
            out.push(s[i]);
            assert(out@ =~= s@.subrange(prefix.len() as int, i + 1));
            i += 1;
        }
        assert(out@ =~= s@.skip(prefix@.len() as int));
        Some(out)
    } else {
        None
    }
}

// ---------------------------------------------------------------------------
// Optional strings and lists of strings
// ---------------------------------------------------------------------------

/// The characters of an optional string.
pub open spec fn opt_text(o: Option<String>) -> Option<Seq<char>> {
    match o {
        Some(s) => Some(s@),
        None => None,
    }
}

/// A copy of an optional string.
pub fn clone_opt(o: &Option<String>) -> (r: Option<String>)
    ensures
        opt_text(r) == opt_text(*o),
{
    match o {
        Some(s) => Some(s.clone()),
        None => None,
    }
}

/// The characters of each string of a list.
pub open spec fn strings_text(v: Seq<String>) -> Seq<Seq<char>> {
    v.map_values(|s: String| s@)
}

/// A copy of a list of strings.
pub fn clone_strings(v: &Vec<String>) -> (r: Vec<String>)
    ensures
        strings_text(r@) == strings_text(v@),
{
    let mut out: Vec<String> = Vec::new();
    let mut i: usize = 0;
    while i < v.len()
        invariant
            i <= v.len(),
            strings_text(out@) == strings_text(v@.take(i as int)),
        decreases v.len() - i,
    {
        let ghost before = out@;
        out.push(v[i].clone());
        assert(strings_text(out@) =~= strings_text(before).push(v@[i as int]@));
        assert(strings_text(v@.take(i + 1)) =~= strings_text(v@.take(i as int)).push(v@[i as int]@));
        i += 1;
    }
    assert(v@.take(v.len() as int) =~= v@);
    out
}

/// Whether two lists hold the same strings in the same order.
pub fn strings_equal(a: &Vec<String>, b: &Vec<String>) -> (r: bool)
    ensures
        r == (strings_text(a@) == strings_text(b@)),
{
    if a.len() != b.len() {
        assert(strings_text(a@).len() != strings_text(b@).len());
        return false;
    }
    let mut i: usize = 0;
    while i < a.len()
        invariant
            a.len() == b.len(),
            i <= a.len(),
            forall|k: int| 0 <= k < i ==> a@[k]@ == b@[k]@,
        decreases a.len() - i,
    {
        if !str_eq(a[i].as_str(), b[i].as_str()) {
            assert(strings_text(a@)[i as int] != strings_text(b@)[i as int]);
            return false;
        }
        i += 1;
    }
    assert(strings_text(a@) =~= strings_text(b@));
    true
}

/// Whether one of the strings of `v` equals `s`.
pub fn contains_string(v: &Vec<String>, s: &str) -> (r: bool)
    ensures
        r == strings_text(v@).contains(s@),
{
    let mut i: usize = 0;
    while i < v.len()
        invariant
            i <= v.len(),
            forall|j: int| 0 <= j < i ==> v@[j]@ != s@,
        decreases v.len() - i,
    {
        if str_eq(v[i].as_str(), s) {
            assert(strings_text(v@)[i as int] == s@);
            return true;
        }
        i += 1;
    }
    assert(!strings_text(v@).contains(s@)) by {
        if strings_text(v@).contains(s@) {
            let j = choose|j: int| 0 <= j < strings_text(v@).len() && strings_text(v@)[j] == s@;
            assert(v@[j]@ == s@);
        }
    }
    false
}

/// Whether `s` ends with `suffix`.
pub fn seq_ends_with(s: &[char], suffix: &[char]) -> (b: bool)
    ensures
        b == ends_with(s@, suffix@),
{
    if suffix.len() > s.len() {
        return false;
    }
    let off = s.len() - suffix.len();
    let mut i: usize = 0;
    while i < suffix.len()
        invariant
            off + suffix.len() == s.len(),
            i <= suffix.len(),
            forall|k: int| 0 <= k < i ==> s@[off + k] == suffix@[k],
        decreases suffix.len() - i,
    {
        if s[off + i] != suffix[i] {
            assert(s@.skip(off as int)[i as int] != suffix@[i as int]);
            return false;
        }
        i += 1;
    }
    assert(s@.skip(off as int) =~= suffix@);
    true
}

/// The strings of `s` joined with `sep` between them.
pub open spec fn joined_with(s: Seq<Seq<char>>, sep: Seq<char>) -> Seq<char>
    decreases s.len(),
{
    if s.len() == 0 {
        Seq::empty()
    } else if s.len() == 1 {
        s[0]
    } else {
        joined_with(s.drop_last(), sep) + sep + s.last()
    }
}

/// The strings of `v` joined with `sep` between them.
pub fn join_strings(v: &Vec<String>, sep: &str) -> (r: String)
    ensures
        r@ == joined_with(strings_text(v@), sep@),
{
    let mut out = String::new();
    let mut i: usize = 0;
    while i < v.len()
        invariant
            i <= v.len(),
            out@ == joined_with(strings_text(v@.take(i as int)), sep@),
        decreases v.len() - i,
    {
        assert(strings_text(v@.take(i + 1)).drop_last() =~= strings_text(v@.take(i as int)));
        if i > 0 {
            push_str(&mut out, sep);
        }
        push_str(&mut out, v[i].as_str());
        proof {
            if i == 0 {
                assert(out@ =~= strings_text(v@.take(1))[0]);
            }
        }
        i += 1;
    }
    assert(v@.take(v.len() as int) =~= v@);
    out
}

} // verus!
