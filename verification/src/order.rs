//! The order of strings by their characters' code points, which is the order
//! of `String`'s `Ord`, and sorting by it.

use vstd::prelude::*;
use crate::text::{chars_of, strings_text};

verus! {

/// Whether `a` comes strictly before `b`: at the first position where they
/// differ `a` has the smaller code point, or `a` is a proper prefix of `b`.
pub open spec fn str_lt(a: Seq<char>, b: Seq<char>) -> bool
    decreases a.len(),
{
    if a.len() == 0 {
        b.len() > 0
    } else if b.len() == 0 {
        false
    } else if a[0] != b[0] {
        a[0] < b[0]
    } else {
        str_lt(a.drop_first(), b.drop_first())
    }
}

/// Whether `a` comes before `b` or equals it.
pub open spec fn str_le(a: Seq<char>, b: Seq<char>) -> bool {
    str_lt(a, b) || a == b
}

/// No string comes before itself.
pub proof fn lemma_str_lt_irreflexive(a: Seq<char>)
    ensures
        !str_lt(a, a),
    decreases a.len(),
{
    if a.len() > 0 {
        lemma_str_lt_irreflexive(a.drop_first());
    }
}

/// Of two different strings one comes before the other, and never both.
pub proof fn lemma_str_lt_total(a: Seq<char>, b: Seq<char>)
    ensures
        a != b ==> (str_lt(a, b) || str_lt(b, a)),
        !(str_lt(a, b) && str_lt(b, a)),
    decreases a.len(),
{
    if a.len() > 0 && b.len() > 0 {
        lemma_str_lt_total(a.drop_first(), b.drop_first());
        if a[0] == b[0] && a.drop_first() == b.drop_first() {
            assert forall|i: int| 0 < i < a.len() implies a[i] == b[i] by {
                assert(a[i] == a.drop_first()[i - 1]);
                assert(b[i] == b.drop_first()[i - 1]);
            }
            assert(a =~= b);
        }
    } else if a.len() == 0 && b.len() == 0 {
        assert(a =~= b);
    }
}

/// The order is transitive.
pub proof fn lemma_str_lt_transitive(a: Seq<char>, b: Seq<char>, c: Seq<char>)
    requires
        str_lt(a, b),
        str_lt(b, c),
    ensures
        str_lt(a, c),
    decreases a.len(),
{
    if a.len() > 0 && b.len() > 0 && c.len() > 0 {
        if a[0] == b[0] && b[0] == c[0] {
            lemma_str_lt_transitive(a.drop_first(), b.drop_first(), c.drop_first());
        }
    }
}

proof fn lemma_str_lt_common_prefix(a: Seq<char>, b: Seq<char>, i: int)
    requires
        0 <= i <= a.len(),
        i <= b.len(),
        a.take(i) == b.take(i),
    ensures
        str_lt(a, b) == str_lt(a.skip(i), b.skip(i)),
    decreases i,
{
    if i > 0 {
        assert(a[0] == a.take(i)[0]);
        assert(b[0] == b.take(i)[0]);
        assert(a.drop_first().take(i - 1) =~= a.take(i).drop_first());
        assert(b.drop_first().take(i - 1) =~= b.take(i).drop_first());
        lemma_str_lt_common_prefix(a.drop_first(), b.drop_first(), i - 1);
        assert(a.drop_first().skip(i - 1) =~= a.skip(i));
        assert(b.drop_first().skip(i - 1) =~= b.skip(i));
    } else {
        assert(a.skip(0) =~= a);
        assert(b.skip(0) =~= b);
    }
}

/// Whether `a` comes strictly before `b`.
pub fn chars_less(a: &[char], b: &[char]) -> (r: bool)
    ensures
        r == str_lt(a@, b@),
{
    let mut i: usize = 0;
    while i < a.len() && i < b.len() && a[i] == b[i]
        invariant
            i <= a.len(),
            i <= b.len(),
            a@.take(i as int) == b@.take(i as int),
        decreases a.len() - i,
    {
        assert(a@.take(i + 1) =~= a@.take(i as int).push(a@[i as int]));
        assert(b@.take(i + 1) =~= b@.take(i as int).push(b@[i as int]));
        i += 1;
    }
    proof { lemma_str_lt_common_prefix(a@, b@, i as int); }
    if i == a.len() {
        i < b.len()
    } else if i == b.len() {
        false
    } else {
        proof {
            assert(a@.skip(i as int)[0] == a@[i as int]);
            assert(b@.skip(i as int)[0] == b@[i as int]);
        }
        a[i] < b[i]
    }
}

/// Whether the string `a` comes strictly before `b`.
pub fn str_less(a: &str, b: &str) -> (r: bool)
    ensures
        r == str_lt(a@, b@),
{
    let x = chars_of(a);
    let y = chars_of(b);
    chars_less(x.as_slice(), y.as_slice())
}

// ---------------------------------------------------------------------------
// Sorting
// ---------------------------------------------------------------------------

/// Whether `s` is in ascending order.
pub open spec fn ascending(s: Seq<Seq<char>>) -> bool {
    forall|i: int, j: int| 0 <= i < j < s.len() ==> str_le(s[i], s[j])
}

/// The index at which `x` goes into the ascending `s` after every string that
/// does not come after it.
pub open spec fn insertion_point(s: Seq<Seq<char>>, x: Seq<char>, k: int) -> bool {
    &&& 0 <= k <= s.len()
    &&& forall|j: int| 0 <= j < k ==> !str_lt(x, #[trigger] s[j])
    &&& k < s.len() ==> str_lt(x, s[k])
}

/// Inserting a string at its insertion point keeps a sequence ascending.
pub proof fn lemma_insert_ascending(s: Seq<Seq<char>>, x: Seq<char>, k: int)
    requires
        ascending(s),
        insertion_point(s, x, k),
    ensures
        ascending(s.insert(k, x)),
{
    let t = s.insert(k, x);
    assert forall|i: int, j: int| 0 <= i < j < t.len() implies str_le(t[i], t[j]) by {
        if j < k {
            assert(t[i] == s[i] && t[j] == s[j]);
        } else if j == k {
            assert(t[i] == s[i]);
            assert(!str_lt(x, s[i]));
            lemma_str_lt_total(x, s[i]);
        } else if i == k {
            assert(t[j] == s[j - 1]);
            if j - 1 == k {
            } else {
                assert(str_le(s[k], s[j - 1]));
                if str_lt(s[k], s[j - 1]) {
                    lemma_str_lt_transitive(x, s[k], s[j - 1]);
                }
            }
        } else if i < k {
            assert(t[i] == s[i] && t[j] == s[j - 1]);
        } else {
            assert(t[i] == s[i - 1] && t[j] == s[j - 1]);
        }
    }
}

/// The strings of `v` in ascending order, each as often as in `v`.
pub fn sort_strings(v: &[String]) -> (sorted: Vec<String>)
    ensures
        ascending(strings_text(sorted@)),
        strings_text(sorted@).to_multiset() == strings_text(v@).to_multiset(),
{
    let mut out: Vec<String> = Vec::new();
    let mut i: usize = 0;
    assert(strings_text(out@) =~= strings_text(v@.take(0)));
    while i < v.len()
        invariant
            i <= v.len(),
            ascending(strings_text(out@)),
            strings_text(out@).to_multiset() == strings_text(v@.take(i as int)).to_multiset(),
        decreases v.len() - i,
    {
        let x = v[i].clone();
        let mut k: usize = 0;
        while k < out.len() && !str_less(x.as_str(), out[k].as_str())
            invariant
                k <= out.len(),
                forall|j: int| 0 <= j < k ==> !str_lt(x@, #[trigger] strings_text(out@)[j]),
            decreases out.len() - k,
        {
            k += 1;
        }
        let ghost xv = x@;
        let ghost before = out@;
        proof {
            assert(insertion_point(strings_text(out@), x@, k as int));
            lemma_insert_ascending(strings_text(out@), x@, k as int);
            assert(strings_text(v@.take(i + 1)) =~= strings_text(v@.take(i as int)).push(x@));
        }
        out.insert(k, x);
        proof {
            assert(strings_text(out@) =~= strings_text(before).insert(k as int, xv));
            vstd::seq_lib::to_multiset_insert(strings_text(before), k as int, xv);
            vstd::seq_lib::to_multiset_build(strings_text(v@.take(i as int)), xv);
        }
        i += 1;
    }
    assert(v@.take(v.len() as int) =~= v@);
    out
}

} // verus!
