//! Wildcard matching of configuration keys against canonical target strings.
//!
//! `*` matches any run of bytes (path separators included) and `?` matches one
//! byte. Matching works on the UTF-8 bytes of both strings.

use vstd::prelude::*;
use vstd::string::StringSliceAdditionalSpecFns;

verus! {

/// The byte of `*`.
pub open spec fn star() -> u8 {
    42u8
}

/// The byte of `?`.
pub open spec fn any_one() -> u8 {
    63u8
}

/// Textbook glob semantics: `p[i..]` matches `t[j..]`.
pub open spec fn glob_from(p: Seq<u8>, t: Seq<u8>, i: int, j: int) -> bool
    decreases p.len() - i + t.len() - j,
    when 0 <= i <= p.len() && 0 <= j <= t.len()
{
    if i == p.len() {
        j == t.len()
    } else if p[i] == star() {
        glob_from(p, t, i + 1, j) || (j < t.len() && glob_from(p, t, i, j + 1))
    } else {
        j < t.len() && (p[i] == any_one() || p[i] == t[j]) && glob_from(p, t, i + 1, j + 1)
    }
}

/// Whether the whole pattern `p` matches the whole text `t` as a glob.
pub open spec fn glob(p: Seq<u8>, t: Seq<u8>) -> bool {
    glob_from(p, t, 0, 0)
}

/// Every byte of `p` from `i` on is `*`.
pub open spec fn only_stars_from(p: Seq<u8>, i: int) -> bool {
    forall|k: int| i <= k < p.len() ==> p[k] == star()
}

/// The single-backtrack scan that `wildcard_match` performs: `pi`/`ti` are the
/// current pattern and text positions, `last_star` the most recent pattern star,
/// and `retry` the text position that star currently absorbs up to. A pattern
/// `*` is always taken as a star, whatever the text holds.
pub open spec fn scan(p: Seq<u8>, t: Seq<u8>, pi: int, ti: int, last_star: Option<int>, retry: int) -> bool
    decreases t.len() - retry, t.len() - ti, p.len() - pi,
    when 0 <= retry <= ti <= t.len() && 0 <= pi <= p.len() && (last_star matches Some(s) ==> 0 <= s < p.len())
{
    if ti == t.len() {
        only_stars_from(p, pi)
    } else if pi < p.len() && p[pi] == star() {
        scan(p, t, pi + 1, ti, Some(pi), ti)
    } else if pi < p.len() && (p[pi] == any_one() || p[pi] == t[ti]) {
        scan(p, t, pi + 1, ti + 1, last_star, retry)
    } else {
        match last_star {
            Some(s) => scan(p, t, s + 1, retry + 1, last_star, retry + 1),
            None => false,
        }
    }
}

/// Whether `pattern` matches `text`: `*` matches any run of bytes and `?` any
/// single byte, compared on the UTF-8 bytes of both strings.
pub fn wildcard_match(pattern: &str, text: &str) -> (matched: bool)
    ensures
        matched == glob(pattern.spec_bytes(), text.spec_bytes()),
{
    let p = pattern.as_bytes();
    let t = text.as_bytes();
    let ghost gp = p@;
    let ghost gt = t@;
    let mut pi: usize = 0;
    let mut ti: usize = 0;
    let mut last_star: Option<usize> = None;
    let mut retry: usize = 0;
    while ti < t.len()
        invariant
            p@ == gp,
            t@ == gt,
            gp == pattern.spec_bytes(),
            gt == text.spec_bytes(),
            retry <= ti <= t.len(),
            pi <= p.len(),
            last_star matches Some(s) ==> s < p.len(),
            scan(gp, gt, pi as int, ti as int, match last_star { Some(s) => Some(s as int), None => None }, retry as int)
                == scan(gp, gt, 0, 0, None, 0),
        decreases t.len() - retry, t.len() - ti, p.len() - pi,
    {
        if pi < p.len() && p[pi] == 42u8 {
            last_star = Some(pi);
            retry = ti;
            pi += 1;
        } else if pi < p.len() && (p[pi] == 63u8 || p[pi] == t[ti]) {
            pi += 1;
            ti += 1;
        } else if let Some(s) = last_star {
            pi = s + 1;
            retry += 1;
            ti = retry;
        } else {
            proof {
                assert(scan(gp, gt, pi as int, ti as int, None, retry as int) == false);
                lemma_scan_agrees_with_glob(gp, gt);
            }
            return false;
        }
    }
    let ghost at_end = pi;
    while pi < p.len() && p[pi] == 42u8
        invariant
            p@ == gp,
            at_end <= pi <= p.len(),
            forall|k: int| at_end <= k < pi ==> gp[k] == star(),
        decreases p.len() - pi,
    {
        pi += 1;
    }
    proof { lemma_scan_agrees_with_glob(gp, gt); }
    pi == p.len()
}

// ---------------------------------------------------------------------------
// Correspondence between the scan and glob semantics.
// ---------------------------------------------------------------------------

/// Some text position `k` in `lo..=t.len()` lets `p[i..]` match `t[k..]`.
pub open spec fn some_match_from(p: Seq<u8>, t: Seq<u8>, i: int, lo: int) -> bool {
    exists|k: int| lo <= k <= t.len() && #[trigger] glob_from(p, t, i, k)
}

/// No `*` occurs in `p[a..b]`.
pub open spec fn star_free(p: Seq<u8>, a: int, b: int) -> bool {
    forall|k: int| a <= k < b ==> p[k] != star()
}

/// `p[a..a+len]` matches `t[c..c+len]` byte for byte, `?` matching anything.
pub open spec fn literal_match(p: Seq<u8>, a: int, t: Seq<u8>, c: int, len: int) -> bool {
    forall|x: int| #![trigger p[x]] a <= x < a + len ==> (p[x] == any_one() || p[x] == t[c + (x - a)])
}

proof fn lemma_literal_run(p: Seq<u8>, t: Seq<u8>, a: int, c: int, len: int)
    requires
        0 <= a,
        0 <= c,
        0 <= len,
        a + len <= p.len(),
        c + len <= t.len(),
        star_free(p, a, a + len),
        literal_match(p, a, t, c, len),
    ensures
        glob_from(p, t, a, c) == glob_from(p, t, a + len, c + len),
    decreases len,
{
    if len > 0 {
        lemma_literal_run(p, t, a + 1, c + 1, len - 1);
    }
}

proof fn lemma_star_free_run(p: Seq<u8>, t: Seq<u8>, a: int, b: int, k: int)
    requires
        0 <= a <= b <= p.len(),
        0 <= k <= t.len(),
        star_free(p, a, b),
        glob_from(p, t, a, k),
    ensures
        k + (b - a) <= t.len(),
        literal_match(p, a, t, k, b - a),
        glob_from(p, t, b, k + (b - a)),
    decreases b - a,
{
    if a < b {
        lemma_star_free_run(p, t, a + 1, b, k + 1);
        assert forall|x: int| #![trigger p[x]] a <= x < a + (b - a) implies (p[x] == any_one() || p[x] == t[k + (x - a)]) by {
            if x > a {
                assert(p[x] == any_one() || p[x] == t[(k + 1) + (x - (a + 1))]);
            }
        }
    }
}

proof fn lemma_star_absorbs(p: Seq<u8>, t: Seq<u8>, s: int, j: int)
    requires
        0 <= s < p.len(),
        0 <= j <= t.len(),
        p[s] == star(),
    ensures
        glob_from(p, t, s, j) == some_match_from(p, t, s + 1, j),
    decreases t.len() - j,
{
    let i = s + 1;
    if j < t.len() {
        lemma_star_absorbs(p, t, s, j + 1);
        assert(glob_from(p, t, s, j) == (glob_from(p, t, i, j) || glob_from(p, t, s, j + 1)));
        if glob_from(p, t, i, j) {
            assert(j <= j <= t.len() && glob_from(p, t, i, j));
        }
        if glob_from(p, t, s, j + 1) {
            let k = choose|k: int| j + 1 <= k <= t.len() && #[trigger] glob_from(p, t, i, k);
            assert(j <= k <= t.len() && glob_from(p, t, i, k));
        }
        if some_match_from(p, t, i, j) {
            let k = choose|k: int| j <= k <= t.len() && #[trigger] glob_from(p, t, i, k);
            if k > j {
                assert(j + 1 <= k <= t.len() && glob_from(p, t, i, k));
            }
        }
    } else {
        assert(glob_from(p, t, s, j) == glob_from(p, t, i, j));
        if glob_from(p, t, i, j) {
            assert(j <= j <= t.len() && glob_from(p, t, i, j));
        }
        if some_match_from(p, t, i, j) {
            let k = choose|k: int| j <= k <= t.len() && #[trigger] glob_from(p, t, i, k);
            assert(k == j);
        }
    }
}

proof fn lemma_tail_against_end(p: Seq<u8>, t: Seq<u8>, i: int)
    requires
        0 <= i <= p.len(),
    ensures
        glob_from(p, t, i, t.len() as int) == only_stars_from(p, i),
    decreases p.len() - i,
{
    if i < p.len() {
        lemma_tail_against_end(p, t, i + 1);
    }
}

/// The invariant of a scan state.
spec fn scan_state_ok(p: Seq<u8>, t: Seq<u8>, pi: int, ti: int, last_star: Option<int>, retry: int) -> bool {
    &&& 0 <= retry <= ti <= t.len()
    &&& 0 <= pi <= p.len()
    &&& match last_star {
        None => {
            &&& pi == ti
            &&& star_free(p, 0, pi)
            &&& literal_match(p, 0, t, 0, pi)
            &&& glob(p, t) == glob_from(p, t, pi, ti)
        },
        Some(s) => {
            &&& 0 <= s < pi
            &&& p[s] == star()
            &&& pi - (s + 1) == ti - retry
            &&& star_free(p, s + 1, pi)
            &&& literal_match(p, s + 1, t, retry, ti - retry)
            &&& glob(p, t) == some_match_from(p, t, s + 1, retry)
        },
    }
}

proof fn lemma_scan_step(p: Seq<u8>, t: Seq<u8>, pi: int, ti: int, last_star: Option<int>, retry: int)
    requires
        scan_state_ok(p, t, pi, ti, last_star, retry),
    ensures
        scan(p, t, pi, ti, last_star, retry) == glob(p, t),
    decreases t.len() - retry, t.len() - ti, p.len() - pi,
{
    if ti == t.len() {
        lemma_tail_against_end(p, t, pi);
        match last_star {
            None => {},
            Some(s) => {
                lemma_literal_run(p, t, s + 1, retry, ti - retry);
                if some_match_from(p, t, s + 1, retry) {
                    let i_k = s + 1;
                    let k = choose|k: int| retry <= k <= t.len() && #[trigger] glob_from(p, t, i_k, k);
                    lemma_star_free_run(p, t, s + 1, pi, k);
                    assert(k == retry);
                }
                if only_stars_from(p, pi) {
                    assert(retry <= retry <= t.len() && glob_from(p, t, s + 1, retry));
                }
            },
        }
    } else if pi < p.len() && p[pi] == star() {
        lemma_star_absorbs(p, t, pi, ti);
        match last_star {
            None => {},
            Some(s) => {
                lemma_literal_run(p, t, s + 1, retry, ti - retry);
                if some_match_from(p, t, s + 1, retry) {
                    let i_k = s + 1;
                    let k = choose|k: int| retry <= k <= t.len() && #[trigger] glob_from(p, t, i_k, k);
                    lemma_star_free_run(p, t, s + 1, pi, k);
                    lemma_star_absorbs(p, t, pi, k + (pi - (s + 1)));
                    let i_k2 = pi + 1;
                    let k2 = choose|k2: int| k + (pi - (s + 1)) <= k2 <= t.len() && #[trigger] glob_from(p, t, i_k2, k2);
                    assert(ti <= k2 <= t.len() && glob_from(p, t, pi + 1, k2));
                }
                if some_match_from(p, t, pi + 1, ti) {
                    assert(retry <= retry <= t.len() && glob_from(p, t, s + 1, retry));
                }
            },
        }
        lemma_scan_step(p, t, pi + 1, ti, Some(pi), ti);
    } else if pi < p.len() && (p[pi] == any_one() || p[pi] == t[ti]) {
        match last_star {
            None => {
                lemma_literal_run(p, t, pi, ti, 1);
            },
            Some(s) => {
                assert forall|x: int| #![trigger p[x]] s + 1 <= x < s + 1 + (ti + 1 - retry) implies (p[x] == any_one()
                    || p[x] == t[retry + (x - (s + 1))]) by {
                    if x < pi {
                    } else {
                        assert(x == pi);
                    }
                }
            },
        }
        lemma_scan_step(p, t, pi + 1, ti + 1, last_star, retry);
    } else {
        match last_star {
            Some(s) => {
                lemma_literal_run(p, t, s + 1, retry, ti - retry);
                assert(!glob_from(p, t, pi, ti));
                assert(!glob_from(p, t, s + 1, retry));
                if some_match_from(p, t, s + 1, retry) {
                    let i_k = s + 1;
                    let k = choose|k: int| retry <= k <= t.len() && #[trigger] glob_from(p, t, i_k, k);
                    assert(retry + 1 <= k <= t.len() && glob_from(p, t, s + 1, k));
                }
                lemma_scan_step(p, t, s + 1, retry + 1, last_star, retry + 1);
            },
            None => {},
        }
    }
}

/// The scan that `wildcard_match` performs decides exactly the textbook glob
/// semantics, on every pattern and text.
pub proof fn lemma_scan_agrees_with_glob(p: Seq<u8>, t: Seq<u8>)
    ensures
        scan(p, t, 0, 0, None, 0) == glob(p, t),
{
    lemma_scan_step(p, t, 0, 0, None, 0);
}

} // verus!
