//! Name components: sanitised, truncated and hex-encoded pieces that go into
//! session names, mirror paths and labels.

use vstd::prelude::*;
use vstd::utf8::{encode_utf8, is_ascii_chars};
use crate::text::{chars_of, string_of};

verus! {

/// The lowercase hexadecimal digit for a value below 16.
pub open spec fn hex_digit(v: u8) -> char {
    if v < 10 {
        (48 + v) as char
    } else {
        (87 + v) as char
    }
}

/// The lowercase hexadecimal encoding of `bytes`, two digits per byte.
pub open spec fn hex_chars(bytes: Seq<u8>) -> Seq<char>
    decreases bytes.len(),
{
    if bytes.len() == 0 {
        Seq::empty()
    } else {
        let b = bytes.last();
        hex_chars(bytes.drop_last()).push(hex_digit(b / 16)).push(hex_digit(b % 16))
    }
}

/// The first `n` hexadecimal digits of `bytes` (all of them when there are fewer).
pub open spec fn hex_prefix_of(bytes: Seq<u8>, n: nat) -> Seq<char> {
    if n >= 2 * bytes.len() {
        hex_chars(bytes)
    } else {
        hex_chars(bytes).take(n as int)
    }
}

proof fn lemma_hex_len(bytes: Seq<u8>)
    ensures
        hex_chars(bytes).len() == 2 * bytes.len(),
    decreases bytes.len(),
{
    if bytes.len() > 0 {
        lemma_hex_len(bytes.drop_last());
    }
}

fn nibble_char(v: u8) -> (c: char)
    requires
        v < 16,
    ensures
        c == hex_digit(v),
{
    if v < 10 {
        (48 + v) as char
    } else {
        (87 + v) as char
    }
}

/// The first `chars` lowercase hexadecimal digits of `bytes`.
pub fn hex_prefix(bytes: &[u8], chars: usize) -> (hex: String)
    ensures
        hex@ == hex_prefix_of(bytes@, chars as nat),
{
    let mut out: Vec<char> = Vec::new();
    let mut i: usize = 0;
    proof {
        lemma_hex_len(bytes@);
        assert(bytes@.take(bytes.len() as int) =~= bytes@);
    }
    while i < bytes.len()
        invariant
            i <= bytes.len(),
            bytes@.take(bytes.len() as int) == bytes@,
            hex_chars(bytes@).len() == 2 * bytes@.len(),
            out@.len() <= chars,
            out@.len() < chars ==> out@.len() == 2 * i && out@ == hex_chars(bytes@.take(i as int)),
            out@.len() == chars ==> out@ == hex_prefix_of(bytes@, chars as nat),
        ensures
            out@ == hex_prefix_of(bytes@, chars as nat),
        decreases bytes.len() - i,
    {
        if out.len() >= chars {
            break;
        }
        let b = bytes[i];
        proof {
            lemma_hex_prefix_step(bytes@, i as int);
        }
        out.push(nibble_char(b / 16));
        if out.len() >= chars {
            proof { lemma_hex_prefix_take(bytes@, i as int, chars as nat); }
            break;
        }
        out.push(nibble_char(b % 16));
        proof {
            if out@.len() == chars {
                lemma_hex_prefix_take(bytes@, i as int, chars as nat);
            }
        }
        i += 1;
    }
    string_of(out.as_slice())
}

proof fn lemma_hex_prefix_step(bytes: Seq<u8>, i: int)
    requires
        0 <= i < bytes.len(),
    ensures
        hex_chars(bytes.take(i + 1)) == hex_chars(bytes.take(i)).push(hex_digit(bytes[i] / 16)).push(
            hex_digit(bytes[i] % 16),
        ),
{
    assert(bytes.take(i + 1).drop_last() =~= bytes.take(i));
}

/// The hex digits of a prefix of `bytes` begin the hex digits of `bytes`.
proof fn lemma_hex_prefix_extends(bytes: Seq<u8>, i: int)
    requires
        0 <= i <= bytes.len(),
    ensures
        hex_chars(bytes).take(2 * i) == hex_chars(bytes.take(i)),
    decreases bytes.len() - i,
{
    lemma_hex_len(bytes);
    lemma_hex_len(bytes.take(i));
    if i < bytes.len() {
        lemma_hex_prefix_extends(bytes.drop_last(), i);
        assert(bytes.drop_last().take(i) =~= bytes.take(i));
        lemma_hex_len(bytes.drop_last());
        assert(hex_chars(bytes).take(2 * i) =~= hex_chars(bytes.drop_last()).take(2 * i));
    } else {
        assert(bytes.take(i) =~= bytes);
        assert(hex_chars(bytes).take(2 * i) =~= hex_chars(bytes));
    }
}

proof fn lemma_hex_prefix_take(bytes: Seq<u8>, i: int, n: nat)
    requires
        0 <= i < bytes.len(),
        2 * i < n <= 2 * i + 2,
    ensures
        hex_prefix_of(bytes, n) == (if n == 2 * i + 1 {
            hex_chars(bytes.take(i)).push(hex_digit(bytes[i] / 16))
        } else {
            hex_chars(bytes.take(i + 1))
        }),
{
    lemma_hex_len(bytes);
    lemma_hex_prefix_extends(bytes, i + 1);
    lemma_hex_prefix_step(bytes, i);
    lemma_hex_len(bytes.take(i));
    if n == 2 * i + 1 {
        assert(hex_chars(bytes).take(n as int) =~= hex_chars(bytes).take(2 * (i + 1)).take(n as int));
        assert(hex_chars(bytes.take(i + 1)).take(n as int) =~= hex_chars(bytes.take(i)).push(
            hex_digit(bytes[i] / 16),
        ));
    } else {
        if n >= 2 * bytes.len() {
            assert(bytes.take(i + 1) =~= bytes);
        }
    }
}

// ---------------------------------------------------------------------------
// Sanitising
// ---------------------------------------------------------------------------

/// Bytes kept as they are in a name component: ASCII letters and digits, `.`,
/// `_` and `-`.
pub open spec fn is_name_byte(b: u8) -> bool {
    ||| 48 <= b <= 57
    ||| 65 <= b <= 90
    ||| 97 <= b <= 122
    ||| b == 46
    ||| b == 95
    ||| b == 45
}

/// A byte as it appears in a name component: itself when kept, `-` otherwise.
pub open spec fn name_char(b: u8) -> char {
    if is_name_byte(b) {
        b as char
    } else {
        '-'
    }
}

/// `s` without leading `-`.
pub open spec fn trim_dash_start(s: Seq<char>) -> Seq<char>
    decreases s.len(),
{
    if s.len() > 0 && s[0] == '-' {
        trim_dash_start(s.drop_first())
    } else {
        s
    }
}

/// `s` without trailing `-`.
pub open spec fn trim_dash_end(s: Seq<char>) -> Seq<char>
    decreases s.len(),
{
    if s.len() > 0 && s.last() == '-' {
        trim_dash_end(s.drop_last())
    } else {
        s
    }
}

/// `input` as a name component: each UTF-8 byte that is not an ASCII letter,
/// digit, `.`, `_` or `-` becomes `-`, then leading and trailing `-` are removed.
pub open spec fn sanitized(input: Seq<char>) -> Seq<char> {
    trim_dash_end(trim_dash_start(encode_utf8(input).map_values(|b: u8| name_char(b))))
}

proof fn lemma_trim_dash_start_skip(s: Seq<char>, i: int)
    requires
        0 <= i <= s.len(),
        forall|k: int| 0 <= k < i ==> s[k] == '-',
    ensures
        trim_dash_start(s) == trim_dash_start(s.skip(i)),
    decreases i,
{
    if i > 0 {
        assert(s[0] == '-');
        assert(s.drop_first().skip(i - 1) =~= s.skip(i));
        lemma_trim_dash_start_skip(s.drop_first(), i - 1);
    } else {
        assert(s.skip(0) =~= s);
    }
}

proof fn lemma_trim_dash_end_take(s: Seq<char>, j: int)
    requires
        0 <= j <= s.len(),
        forall|k: int| j <= k < s.len() ==> s[k] == '-',
    ensures
        trim_dash_end(s) == trim_dash_end(s.take(j)),
    decreases s.len() - j,
{
    if j < s.len() {
        assert(s[s.len() - 1] == '-');
        assert(s.drop_last().take(j) =~= s.take(j));
        lemma_trim_dash_end_take(s.drop_last(), j);
    } else {
        assert(s.take(j) =~= s);
    }
}

fn byte_is_name_byte(b: u8) -> (r: bool)
    ensures
        r == is_name_byte(b),
{
    (48 <= b && b <= 57) || (65 <= b && b <= 90) || (97 <= b && b <= 122) || b == 46 || b == 95 || b == 45
}

fn name_chars(bytes: &[u8]) -> (m: Vec<char>)
    ensures
        m@ == bytes@.map_values(|b: u8| name_char(b)),
{
    let mut m: Vec<char> = Vec::new();
    let mut i: usize = 0;
    while i < bytes.len()
        invariant
            i <= bytes.len(),
            m@ == bytes@.take(i as int).map_values(|b: u8| name_char(b)),
        decreases bytes.len() - i,
    {
        let b = bytes[i];
        if byte_is_name_byte(b) {
            m.push(b as char);
        } else {
            m.push('-');
        }
        assert(bytes@.take(i + 1).map_values(|b: u8| name_char(b)) =~= bytes@.take(i as int).map_values(
            |b: u8| name_char(b),
        ).push(name_char(b)));
        i += 1;
    }
    assert(bytes@.take(bytes.len() as int) =~= bytes@);
    m
}

fn trim_dashes(m: &[char]) -> (out: Vec<char>)
    ensures
        out@ == trim_dash_end(trim_dash_start(m@)),
{
    let mut a: usize = 0;
    while a < m.len() && m[a] == '-'
        invariant
            a <= m.len(),
            forall|k: int| 0 <= k < a ==> m@[k] == '-',
        decreases m.len() - a,
    {
        a += 1;
    }
    proof { lemma_trim_dash_start_skip(m@, a as int); }
    let ghost rest = m@.skip(a as int);
    proof {
        if a < m.len() {
            assert(trim_dash_start(rest) == rest);
        } else {
            assert(rest.len() == 0);
        }
    }
    let mut b: usize = m.len();
    while b > a && m[b - 1] == '-'
        invariant
            a <= b <= m.len(),
            forall|k: int| b <= k < m.len() ==> m@[k] == '-',
        decreases b,
    {
        b -= 1;
    }
    proof {
        lemma_trim_dash_end_take(rest, (b - a) as int);
        assert(rest.take((b - a) as int) =~= m@.subrange(a as int, b as int));
    }
    let mut out: Vec<char> = Vec::new();
    let mut k: usize = a;
    while k < b
        invariant
            a <= k <= b <= m.len(),
            out@ == m@.subrange(a as int, k as int),
        decreases b - k,
    {
        out.push(m[k]);
        assert(m@.subrange(a as int, k + 1) =~= m@.subrange(a as int, k as int).push(m@[k as int]));
        k += 1;
    }
    proof {
        let t = m@.subrange(a as int, b as int);
        if t.len() > 0 {
            assert(t.last() == m@[b - 1]);
        }
    }
    out
}

/// `input` as a safe name component (see [`sanitized`]).
pub fn sanitize_component(input: &str) -> (out: String)
    ensures
        out@ == sanitized(input@),
{
    let bytes = input.as_bytes();
    let m = name_chars(bytes);
    let t = trim_dashes(m.as_slice());
    string_of(t.as_slice())
}

/// The first `max_chars` characters of `input` (all of it when shorter).
pub open spec fn truncated(input: Seq<char>, max_chars: nat) -> Seq<char> {
    if max_chars >= input.len() {
        input
    } else {
        input.take(max_chars as int)
    }
}

/// The first `max_chars` characters of `input`.
pub fn truncate_component(input: &str, max_chars: usize) -> (out: String)
    ensures
        out@ == truncated(input@, max_chars as nat),
{
    let chars = chars_of(input);
    let n = if max_chars < chars.len() { max_chars } else { chars.len() };
    let mut out: Vec<char> = Vec::new();
    let mut i: usize = 0;
    while i < n
        invariant
            n <= chars.len(),
            i <= n,
            out@ == chars@.take(i as int),
        decreases n - i,
    {
        out.push(chars[i]);
        assert(chars@.take(i + 1) =~= chars@.take(i as int).push(chars@[i as int]));
        i += 1;
    }
    assert(n == chars.len() ==> chars@.take(n as int) =~= chars@);
    string_of(out.as_slice())
}

// ---------------------------------------------------------------------------
// Facts about the components
// ---------------------------------------------------------------------------

proof fn lemma_trim_dash_start_ascii(s: Seq<char>)
    requires
        is_ascii_chars(s),
    ensures
        is_ascii_chars(trim_dash_start(s)),
    decreases s.len(),
{
    if s.len() > 0 && s[0] == '-' {
        assert forall|i: int| 0 <= i < s.drop_first().len() implies '\0' <= #[trigger] s.drop_first()[i] <= '\u{7f}' by {
            assert(s.drop_first()[i] == s[i + 1]);
        }
        lemma_trim_dash_start_ascii(s.drop_first());
    }
}

proof fn lemma_trim_dash_end_ascii(s: Seq<char>)
    requires
        is_ascii_chars(s),
    ensures
        is_ascii_chars(trim_dash_end(s)),
    decreases s.len(),
{
    if s.len() > 0 && s.last() == '-' {
        assert forall|i: int| 0 <= i < s.drop_last().len() implies '\0' <= #[trigger] s.drop_last()[i] <= '\u{7f}' by {
            assert(s.drop_last()[i] == s[i]);
        }
        lemma_trim_dash_end_ascii(s.drop_last());
    }
}

/// A sanitised component is plain ASCII.
pub proof fn lemma_sanitized_name_chars(input: Seq<char>)
    ensures
        is_ascii_chars(sanitized(input)),
{
    let m = encode_utf8(input).map_values(|b: u8| name_char(b));
    assert forall|i: int| 0 <= i < m.len() implies '\0' <= #[trigger] m[i] <= '\u{7f}' by {
        let b = encode_utf8(input)[i];
        assert(m[i] == name_char(b));
    }
    lemma_trim_dash_start_ascii(m);
    lemma_trim_dash_end_ascii(trim_dash_start(m));
}

proof fn lemma_hex_chars_ascii(bytes: Seq<u8>)
    ensures
        is_ascii_chars(hex_chars(bytes)),
    decreases bytes.len(),
{
    if bytes.len() > 0 {
        lemma_hex_chars_ascii(bytes.drop_last());
        let b = bytes.last();
        let h = hex_chars(bytes.drop_last());
        let t = h.push(hex_digit(b / 16)).push(hex_digit(b % 16));
        assert forall|i: int| 0 <= i < t.len() implies '\0' <= #[trigger] t[i] <= '\u{7f}' by {
            if i < h.len() {
                assert(t[i] == h[i]);
            }
        }
    }
}

/// A hex prefix has at most the digits asked for, all ASCII.
pub proof fn lemma_hex_prefix_len(bytes: Seq<u8>, n: nat)
    ensures
        hex_prefix_of(bytes, n).len() <= n,
        hex_prefix_of(bytes, n).len() == if n <= 2 * bytes.len() { n } else { 2 * bytes.len() },
        is_ascii_chars(hex_prefix_of(bytes, n)),
{
    lemma_hex_len(bytes);
    lemma_hex_chars_ascii(bytes);
    let h = hex_chars(bytes);
    if n < 2 * bytes.len() {
        assert forall|i: int| 0 <= i < h.take(n as int).len() implies '\0' <= #[trigger] h.take(n as int)[i] <= '\u{7f}' by {
            assert(h.take(n as int)[i] == h[i]);
        }
    }
}

} // verus!
