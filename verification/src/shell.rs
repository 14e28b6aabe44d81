//! Quoting for POSIX shells and AppleScript string literals.

use vstd::prelude::*;
use crate::text::{chars_of, string_of};

verus! {

/// The body of a single-quoted shell word: every `'` becomes `'\''`.
pub open spec fn quote_body(s: Seq<char>) -> Seq<char>
    decreases s.len(),
{
    if s.len() == 0 {
        Seq::empty()
    } else {
        let head = if s[0] == '\'' { seq!['\'', '\\', '\'', '\''] } else { seq![s[0]] };
        head + quote_body(s.drop_first())
    }
}

/// `s` as a single shell word: wrapped in single quotes, with each embedded `'`
/// written as `'\''`; the empty string becomes `''`.
pub open spec fn shell_quoted(s: Seq<char>) -> Seq<char> {
    if s.len() == 0 {
        seq!['\'', '\'']
    } else {
        seq!['\''] + quote_body(s) + seq!['\'']
    }
}

proof fn lemma_quote_body_push(s: Seq<char>, c: char)
    ensures
        quote_body(s.push(c)) == quote_body(s) + (if c == '\'' { seq!['\'', '\\', '\'', '\''] } else { seq![c] }),
    decreases s.len(),
{
    if s.len() == 0 {
        assert(s.push(c).drop_first() =~= Seq::<char>::empty());
        assert(quote_body(Seq::<char>::empty()) =~= Seq::<char>::empty());
        let head = if c == '\'' { seq!['\'', '\\', '\'', '\''] } else { seq![c] };
        assert(head + Seq::<char>::empty() =~= head);
        assert(Seq::<char>::empty() + head =~= head);
    } else {
        assert(s.push(c).drop_first() =~= s.drop_first().push(c));
        lemma_quote_body_push(s.drop_first(), c);
        let head = if s[0] == '\'' { seq!['\'', '\\', '\'', '\''] } else { seq![s[0]] };
        let tail = if c == '\'' { seq!['\'', '\\', '\'', '\''] } else { seq![c] };
        assert(head + (quote_body(s.drop_first()) + tail) =~= (head + quote_body(s.drop_first())) + tail);
    }
}

/// Quotes `value` as one shell word.
pub fn shell_quote(value: &str) -> (quoted: String)
    ensures
        quoted@ == shell_quoted(value@),
{
    let chars = chars_of(value);
    if chars.len() == 0 {
        let q: [char; 2] = ['\'', '\''];
        assert(q@ =~= seq!['\'', '\'']);
        return string_of(&q);
    }
    let mut out: Vec<char> = Vec::new();
    out.push('\'');
    let mut i: usize = 0;
    while i < chars.len()
        invariant
            i <= chars.len(),
            out@ == seq!['\''] + quote_body(chars@.take(i as int)),
        decreases chars.len() - i,
    {
        let c = chars[i];
        proof {
            assert(chars@.take(i + 1) =~= chars@.take(i as int).push(c));
            lemma_quote_body_push(chars@.take(i as int), c);
        }
        if c == '\'' {
            let esc: [char; 4] = ['\'', '\\', '\'', '\''];
            assert(esc@ =~= seq!['\'', '\\', '\'', '\'']);
            let ghost before = out@;
            let mut k: usize = 0;
            while k < 4
                invariant
                    k <= 4,
                    esc@ == seq!['\'', '\\', '\'', '\''],
                    out@ == before + esc@.take(k as int),
                decreases 4 - k,
            {
                out.push(esc[k]);
                assert(esc@.take(k + 1) =~= esc@.take(k as int).push(esc@[k as int]));
                k += 1;
            }
            assert(esc@.take(4) =~= esc@);
            assert(out@ =~= seq!['\''] + quote_body(chars@.take(i + 1)));
        } else {
            out.push(c);
            assert(out@ =~= seq!['\''] + quote_body(chars@.take(i + 1)));
        }
        i += 1;
    }
    out.push('\'');
    assert(chars@.take(chars.len() as int) =~= chars@);
    string_of(out.as_slice())
}

// ---------------------------------------------------------------------------
// Reading a quoted word back
// ---------------------------------------------------------------------------

/// How a POSIX shell reads a word made of unquoted characters, backslash
/// escapes and single-quoted runs. `quoted` tells whether the reader is inside
/// single quotes; `None` means the word is malformed (unterminated quote or a
/// trailing backslash).
pub open spec fn shell_read(w: Seq<char>, quoted: bool) -> Option<Seq<char>>
    decreases w.len(),
{
    if w.len() == 0 {
        if quoted { None } else { Some(Seq::empty()) }
    } else if quoted {
        if w[0] == '\'' {
            shell_read(w.drop_first(), false)
        } else {
            match shell_read(w.drop_first(), true) {
                Some(r) => Some(seq![w[0]] + r),
                None => None,
            }
        }
    } else if w[0] == '\'' {
        shell_read(w.drop_first(), true)
    } else if w[0] == '\\' {
        if w.len() < 2 {
            None
        } else {
            match shell_read(w.skip(2), false) {
                Some(r) => Some(seq![w[1]] + r),
                None => None,
            }
        }
    } else {
        match shell_read(w.drop_first(), false) {
            Some(r) => Some(seq![w[0]] + r),
            None => None,
        }
    }
}

proof fn lemma_read_body(s: Seq<char>, rest: Seq<char>)
    ensures
        shell_read(quote_body(s) + rest, true) == match shell_read(rest, true) {
            Some(r) => Some(s + r),
            None => None::<Seq<char>>,
        },
    decreases s.len(),
{
    if s.len() == 0 {
        assert(quote_body(s) + rest =~= rest);
        match shell_read(rest, true) {
            Some(r) => { assert(s + r =~= r); },
            None => {},
        }
    } else {
        lemma_read_body(s.drop_first(), rest);
        let w = quote_body(s) + rest;
        let inner = quote_body(s.drop_first()) + rest;
        if s[0] == '\'' {
            let w1 = w.drop_first();
            let w2 = w1.skip(2);
            assert(w =~= seq!['\'', '\\', '\'', '\''] + inner);
            assert(w1 =~= seq!['\\', '\'', '\''] + inner);
            assert(w2 =~= seq!['\''] + inner);
            assert(w2.drop_first() =~= inner);
            assert(shell_read(w, true) == shell_read(w1, false));
            assert(w1[0] == '\\' && w1[1] == '\'');
            assert(shell_read(w1, false) == match shell_read(w2, false) {
                Some(r) => Some(seq![w1[1]] + r),
                None => None::<Seq<char>>,
            });
            assert(shell_read(w2, false) == shell_read(inner, true));
            match shell_read(rest, true) {
                Some(r) => { assert(seq!['\''] + (s.drop_first() + r) =~= s + r); },
                None => {},
            }
        } else {
            assert(w =~= seq![s[0]] + inner);
            assert(w.drop_first() =~= inner);
            assert(w[0] == s[0]);
            assert(shell_read(w, true) == match shell_read(inner, true) {
                Some(r) => Some(seq![w[0]] + r),
                None => None::<Seq<char>>,
            });
            match shell_read(rest, true) {
                Some(r) => { assert(seq![s[0]] + (s.drop_first() + r) =~= s + r); },
                None => {},
            }
        }
    }
}

/// A shell reads the quoted word back as exactly the original value.
pub proof fn lemma_shell_quote_round_trip(value: Seq<char>)
    ensures
        shell_read(shell_quoted(value), false) == Some(value),
{
    if value.len() == 0 {
        let w = seq!['\'', '\''];
        assert(shell_quoted(value) == w);
        assert(w.drop_first() =~= seq!['\'']);
        assert(w.drop_first().drop_first() =~= Seq::<char>::empty());
        assert(shell_read(w, false) == shell_read(w.drop_first(), true));
        assert(shell_read(w.drop_first(), true) == shell_read(w.drop_first().drop_first(), false));
        assert(value =~= Seq::<char>::empty());
    } else {
        let w = shell_quoted(value);
        let close = seq!['\''];
        assert(w[0] == '\'');
        assert(w.drop_first() =~= quote_body(value) + close);
        assert(shell_read(w, false) == shell_read(w.drop_first(), true));
        lemma_read_body(value, close);
        assert(close.drop_first() =~= Seq::<char>::empty());
        assert(shell_read(close, true) == shell_read(close.drop_first(), false));
        assert(shell_read(Seq::<char>::empty(), false) == Some(Seq::<char>::empty()));
        assert(value + Seq::<char>::empty() =~= value);
    }
}

// ---------------------------------------------------------------------------
// AppleScript
// ---------------------------------------------------------------------------

/// `s` with `\` written as `\\` and `"` as `\"`.
pub open spec fn applescript_escaped(s: Seq<char>) -> Seq<char>
    decreases s.len(),
{
    if s.len() == 0 {
        Seq::empty()
    } else {
        let head = if s[0] == '\\' {
            seq!['\\', '\\']
        } else if s[0] == '"' {
            seq!['\\', '"']
        } else {
            seq![s[0]]
        };
        head + applescript_escaped(s.drop_first())
    }
}

proof fn lemma_applescript_push(s: Seq<char>, c: char)
    ensures
        applescript_escaped(s.push(c)) == applescript_escaped(s) + (if c == '\\' {
            seq!['\\', '\\']
        } else if c == '"' {
            seq!['\\', '"']
        } else {
            seq![c]
        }),
    decreases s.len(),
{
    let tail = if c == '\\' {
        seq!['\\', '\\']
    } else if c == '"' {
        seq!['\\', '"']
    } else {
        seq![c]
    };
    if s.len() == 0 {
        assert(s.push(c).drop_first() =~= Seq::<char>::empty());
        assert(applescript_escaped(Seq::<char>::empty()) =~= Seq::<char>::empty());
        assert(tail + Seq::<char>::empty() =~= tail);
        assert(Seq::<char>::empty() + tail =~= tail);
    } else {
        assert(s.push(c).drop_first() =~= s.drop_first().push(c));
        lemma_applescript_push(s.drop_first(), c);
        let head = if s[0] == '\\' {
            seq!['\\', '\\']
        } else if s[0] == '"' {
            seq!['\\', '"']
        } else {
            seq![s[0]]
        };
        assert(head + (applescript_escaped(s.drop_first()) + tail) =~= (head + applescript_escaped(s.drop_first())) + tail);
    }
}

/// Escapes `value` for use inside a double-quoted AppleScript string.
pub fn applescript_escape(value: &str) -> (escaped: String)
    ensures
        escaped@ == applescript_escaped(value@),
{
    let chars = chars_of(value);
    let mut out: Vec<char> = Vec::new();
    let mut i: usize = 0;
    while i < chars.len()
        invariant
            i <= chars.len(),
            out@ == applescript_escaped(chars@.take(i as int)),
        decreases chars.len() - i,
    {
        let c = chars[i];
        proof {
            assert(chars@.take(i + 1) =~= chars@.take(i as int).push(c));
            lemma_applescript_push(chars@.take(i as int), c);
        }
        if c == '\\' {
            out.push('\\');
            out.push('\\');
        } else if c == '"' {
            out.push('\\');
            out.push('"');
        } else {
            out.push(c);
        }
        assert(out@ =~= applescript_escaped(chars@.take(i + 1)));
        i += 1;
    }
    assert(chars@.take(chars.len() as int) =~= chars@);
    string_of(out.as_slice())
}

} // verus!
