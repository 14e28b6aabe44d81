//! Remote targets (`host:/absolute/path`), the local paths that mirror them and
//! the session names derived from them.

use vstd::prelude::*;
use vstd::utf8::encode_utf8;
use crate::text::{chars_of, string_of_range, concat3, owned, push_str};
use crate::naming::{sanitized, sanitize_component, hex_prefix, hex_prefix_of, lemma_hex_prefix_len};
use crate::hash::{sha256, sha256_digest};

verus! {

// ---------------------------------------------------------------------------
// Paths
// ---------------------------------------------------------------------------

/// `base` extended by `part` the way a path is pushed onto another: an
/// absolute `part` replaces `base`; otherwise a `/` is put between them unless
/// `base` is empty or already ends with one.
pub open spec fn path_joined(base: Seq<char>, part: Seq<char>) -> Seq<char> {
    if part.len() > 0 && part[0] == '/' {
        part
    } else if base.len() > 0 && base.last() != '/' {
        base + seq!['/'] + part
    } else {
        base + part
    }
}

/// `part` pushed onto the path `base` (see [`path_joined`]).
pub fn join_path(base: &str, part: &str) -> (joined: String)
    ensures
        joined@ == path_joined(base@, part@),
{
    let b = chars_of(base);
    let p = chars_of(part);
    if p.len() > 0 && p[0] == '/' {
        return owned(part);
    }
    let mut out = owned(base);
    if b.len() > 0 && b[b.len() - 1] != '/' {
        out.push('/');
    }
    push_str(&mut out, part);
    out
}

/// `path` without trailing `/`, except that a lone `/` is kept.
pub open spec fn normalized(path: Seq<char>) -> Seq<char>
    decreases path.len(),
{
    if path.len() > 1 && path.last() == '/' {
        normalized(path.drop_last())
    } else {
        path
    }
}

proof fn lemma_normalized_take(path: Seq<char>, n: int)
    requires
        1 <= n <= path.len(),
        forall|k: int| n <= k < path.len() ==> path[k] == '/',
    ensures
        normalized(path) == normalized(path.take(n)),
    decreases path.len() - n,
{
    if n < path.len() {
        assert(path.drop_last().take(n) =~= path.take(n));
        lemma_normalized_take(path.drop_last(), n);
    } else {
        assert(path.take(n) =~= path);
    }
}

/// Normalising a path twice changes nothing more than normalising it once.
pub proof fn lemma_normalized_idempotent(path: Seq<char>)
    ensures
        normalized(normalized(path)) == normalized(path),
    decreases path.len(),
{
    if path.len() > 1 && path.last() == '/' {
        lemma_normalized_idempotent(path.drop_last());
    }
}

proof fn lemma_normalized_prefix(path: Seq<char>)
    ensures
        normalized(path).len() <= path.len(),
        normalized(path) == path.take(normalized(path).len() as int),
        path.len() > 0 ==> normalized(path).len() > 0,
        path.len() > 0 ==> normalized(path)[0] == path[0],
    decreases path.len(),
{
    if path.len() > 1 && path.last() == '/' {
        lemma_normalized_prefix(path.drop_last());
        let n = normalized(path.drop_last()).len() as int;
        assert(path.drop_last().take(n) =~= path.take(n));
    } else {
        assert(path.take(path.len() as int) =~= path);
    }
}

fn normalize_chars(path: &[char]) -> (out: String)
    ensures
        out@ == normalized(path@),
{
    let mut n: usize = path.len();
    while n > 1 && path[n - 1] == '/'
        invariant
            n <= path.len(),
            path.len() > 0 ==> n >= 1,
            forall|k: int| n <= k < path.len() ==> path@[k] == '/',
        decreases n,
    {
        n -= 1;
    }
    proof {
        if path.len() > 0 {
            lemma_normalized_take(path@, n as int);
            let t = path@.take(n as int);
            if n > 1 {
                assert(t.last() == path@[n - 1]);
            }
        } else {
            assert(path@.take(0) =~= path@);
        }
    }
    let out = string_of_range(path, 0, n);
    assert(out@ =~= path@.take(n as int));
    out
}

/// `path` with trailing `/` removed (a lone `/` stays).
pub fn normalize_remote_path(path: &str) -> (out: String)
    ensures
        out@ == normalized(path@),
{
    let chars = chars_of(path);
    normalize_chars(chars.as_slice())
}

// ---------------------------------------------------------------------------
// Targets
// ---------------------------------------------------------------------------

/// A remote directory: the ssh host and the absolute path on it.
#[derive(Clone, Debug)]
pub struct Target {
    pub host: String,
    pub path: String,
}

/// Why a target could not be read.
#[derive(Debug, PartialEq, Eq, Structural)]
pub enum TargetError {
    /// There is no `:/` between a host and an absolute path.
    MissingSeparator,
    /// Nothing stands before the `:/`.
    EmptyHost,
    /// The path holds a NUL character.
    NulByte,
}

/// The message shown for a target error.
pub open spec fn target_error_text(e: TargetError) -> Seq<char> {
    match e {
        TargetError::MissingSeparator => "target must use scp-style syntax: host:/absolute/path"@,
        TargetError::EmptyHost => "target host cannot be empty"@,
        TargetError::NulByte => "target path contains a NUL byte"@,
    }
}

impl TargetError {
    /// The message shown for this error.
    pub fn message(&self) -> (m: String)
        ensures
            m@ == target_error_text(*self),
    {
        match self {
            TargetError::MissingSeparator => owned("target must use scp-style syntax: host:/absolute/path"),
            TargetError::EmptyHost => owned("target host cannot be empty"),
            TargetError::NulByte => owned("target path contains a NUL byte"),
        }
    }
}

/// Whether `:/` occurs in `s` at index `i`.
pub open spec fn sep_at(s: Seq<char>, i: int) -> bool {
    0 <= i && i + 1 < s.len() && s[i] == ':' && s[i + 1] == '/'
}

/// Whether index `i` holds the first `:/` of `s`.
pub open spec fn first_sep_at(s: Seq<char>, i: int) -> bool {
    sep_at(s, i) && forall|j: int| 0 <= j < i ==> !sep_at(s, j)
}

/// The host and path that `Target::parse` reads from `s`, or why it refuses:
/// the host is what precedes the first `:/`, the path what follows its `:`,
/// normalised.
pub open spec fn target_reading(s: Seq<char>) -> Result<(Seq<char>, Seq<char>), TargetError> {
    if exists|i: int| first_sep_at(s, i) {
        let i = choose|i: int| first_sep_at(s, i);
        let host = s.take(i);
        let path = s.skip(i + 1);
        if host.len() == 0 {
            Err(TargetError::EmptyHost)
        } else if path.contains('\0') {
            Err(TargetError::NulByte)
        } else {
            Ok((host, normalized(path)))
        }
    } else {
        Err(TargetError::MissingSeparator)
    }
}

/// The text of a target: host, `:`, path.
pub open spec fn target_text(host: Seq<char>, path: Seq<char>) -> Seq<char> {
    host + seq![':'] + path
}

proof fn lemma_first_sep_unique(s: Seq<char>, i: int, j: int)
    requires
        first_sep_at(s, i),
        first_sep_at(s, j),
    ensures
        i == j,
{
    if i < j {
        assert(!sep_at(s, i));
    } else if j < i {
        assert(!sep_at(s, j));
    }
}

impl Target {
    /// Reads `host:/absolute/path`; the path loses its trailing `/`.
    pub fn parse(input: &str) -> (r: Result<Target, TargetError>)
        ensures
            match (r, target_reading(input@)) {
                (Ok(t), Ok((host, path))) => t.host@ == host && t.path@ == path,
                (Err(e), Err(f)) => e == f,
                _ => false,
            },
    {
        let s = chars_of(input);
        let mut i: usize = 0;
        let mut found = false;
        while s.len() > 0 && i < s.len() - 1
            invariant
                i <= s.len(),
                s@ == input@,
                forall|j: int| 0 <= j < i ==> !sep_at(s@, j),
                found ==> first_sep_at(s@, i as int),
            ensures
                found ==> first_sep_at(s@, i as int),
                !found ==> forall|j: int| !sep_at(s@, j),
            decreases s.len() - i,
        {
            if s[i] == ':' && s[i + 1] == '/' {
                found = true;
                break;
            }
            i += 1;
        }
        if !found {
            assert(!exists|j: int| first_sep_at(s@, j));
            return Err(TargetError::MissingSeparator);
        }
        proof {
            let k = choose|k: int| first_sep_at(s@, k);
            lemma_first_sep_unique(s@, i as int, k);
        }
        if i == 0 {
            assert(s@.take(0).len() == 0);
            return Err(TargetError::EmptyHost);
        }
        let mut k: usize = i + 1;
        while k < s.len()
            invariant
                i + 1 <= k <= s.len(),
                s@ == input@,
                i > 0,
                first_sep_at(s@, i as int),
                (choose|j: int| first_sep_at(s@, j)) == i,
                forall|m: int| i + 1 <= m < k ==> s@[m] != '\0',
            decreases s.len() - k,
        {
            if s[k] == '\0' {
                assert(s@.skip(i + 1)[k - i - 1] == '\0');
                assert(s@.skip(i + 1).contains('\0'));
                return Err(TargetError::NulByte);
            }
            k += 1;
        }
        let ghost rest = s@.skip(i + 1);
        assert(!rest.contains('\0')) by {
            if rest.contains('\0') {
                let m = choose|m: int| 0 <= m < rest.len() && rest[m] == '\0';
                assert(s@[m + i + 1] == '\0');
            }
        }
        let host = string_of_range(s.as_slice(), 0, i);
        assert(host@ =~= s@.take(i as int));
        let tail = string_of_range(s.as_slice(), i + 1, s.len());
        assert(tail@ =~= rest);
        let path = normalize_remote_path(tail.as_str());
        Ok(Target { host, path })
    }

    /// The target as text: `host:path`.
    pub fn to_string(&self) -> (s: String)
        ensures
            s@ == target_text(self.host@, self.path@),
    {
        let r = concat3(self.host.as_str(), ":", self.path.as_str());
        proof { reveal_strlit(":"); }
        assert(r@ =~= target_text(self.host@, self.path@));
        r
    }
}

/// Reading the text of a parsed target gives the same target back.
pub proof fn lemma_parse_text_round_trip(s: Seq<char>)
    requires
        target_reading(s) is Ok,
    ensures
        target_reading(target_text(target_reading(s)->Ok_0.0, target_reading(s)->Ok_0.1))
            == target_reading(s),
{
    assert(exists|i: int| first_sep_at(s, i));
    let i = choose|i: int| first_sep_at(s, i);
    assert(first_sep_at(s, i));
    let host = s.take(i);
    let path = s.skip(i + 1);
    let np = normalized(path);
    lemma_normalized_prefix(path);
    lemma_normalized_idempotent(path);
    let t = target_text(host, np);
    assert(path[0] == '/');
    assert(np[0] == '/');
    let h = host.len() as int;
    assert forall|j: int| 0 <= j < h implies !sep_at(t, j) by {
        if j + 1 < h {
            assert(!sep_at(s, j));
            assert(t[j] == s[j] && t[j + 1] == s[j + 1]);
        } else {
            assert(t[j + 1] == ':');
        }
    }
    assert(t[h] == ':');
    assert(t[h + 1] == np[0]);
    assert(first_sep_at(t, h));
    let k = choose|k: int| first_sep_at(t, k);
    lemma_first_sep_unique(t, h, k);
    assert(t.take(h) =~= host);
    assert(t.skip(h + 1) =~= np);
    assert(!np.contains('\0')) by {
        if np.contains('\0') {
            let m = choose|m: int| 0 <= m < np.len() && np[m] == '\0';
            assert(path[m] == '\0');
        }
    }
}

// ---------------------------------------------------------------------------
// Local mirror paths and session names
// ---------------------------------------------------------------------------

/// The non-empty `/`-separated components of `path`, each pushed onto `base`.
pub open spec fn pushed_components(base: Seq<char>, path: Seq<char>) -> Seq<char>
    decreases path.len(),
{
    if path.len() == 0 {
        base
    } else {
        proof { lemma_component_end(path, 0); }
        let k = component_end(path, 0);
        let next = if k > 0 { path_joined(base, path.take(k)) } else { base };
        if k < path.len() {
            pushed_components(next, path.skip(k + 1))
        } else {
            next
        }
    }
}

/// The index of the first `/` in `path` at or after `from`, or its length.
pub open spec fn component_end(path: Seq<char>, from: int) -> int
    decreases path.len() - from,
{
    if from >= path.len() || path[from] == '/' {
        from
    } else {
        component_end(path, from + 1)
    }
}

/// Where the component that starts at `from` ends, and that no `/` lies before.
pub proof fn lemma_component_end(path: Seq<char>, from: int)
    requires
        0 <= from <= path.len(),
    ensures
        from <= component_end(path, from) <= path.len(),
        component_end(path, from) < path.len() ==> path[component_end(path, from)] == '/',
        forall|m: int| from <= m < component_end(path, from) ==> path[m] != '/',
    decreases path.len() - from,
{
    if from < path.len() && path[from] != '/' {
        lemma_component_end(path, from + 1);
    }
}

/// The local mirror of `host`/`path` under `local_root`: the sanitised host,
/// then each non-empty component of the path.
pub open spec fn local_path_of(local_root: Seq<char>, host: Seq<char>, path: Seq<char>) -> Seq<char> {
    pushed_components(path_joined(local_root, sanitized(host)), path)
}

proof fn lemma_component_end_shift(path: Seq<char>, from: int, d: int)
    requires
        0 <= d <= from <= path.len(),
    ensures
        component_end(path.skip(d), from - d) == component_end(path, from) - d,
    decreases path.len() - from,
{
    if from < path.len() && path[from] != '/' {
        lemma_component_end_shift(path, from + 1, d);
    }
}

/// The local mirror directory of `target` under `local_root`.
pub fn local_path_for_target(local_root: &str, target: &Target) -> (path: String)
    ensures
        path@ == local_path_of(local_root@, target.host@, target.path@),
{
    let host = sanitize_component(target.host.as_str());
    let mut out = join_path(local_root, host.as_str());
    let p = chars_of(target.path.as_str());
    let mut start: usize = 0;
    proof {
        assert(p@.skip(0) =~= p@);
    }
    while start < p.len()
        invariant
            start <= p.len(),
            pushed_components(out@, p@.skip(start as int)) == local_path_of(
                local_root@,
                target.host@,
                target.path@,
            ),
            p@ == target.path@,
        decreases p.len() - start,
    {
        let ghost rest = p@.skip(start as int);
        let mut end: usize = start;
        while end < p.len() && p[end] != '/'
            invariant
                start <= end <= p.len(),
                forall|m: int| start <= m < end ==> p@[m] != '/',
            decreases p.len() - end,
        {
            end += 1;
        }
        proof {
            lemma_component_end(rest, 0);
            lemma_component_end_shift(p@, start as int, start as int);
            lemma_component_end(p@, start as int);
            let ce = component_end(p@, start as int);
            if ce < end {
                assert(p@[ce] != '/');
            }
            if end < ce {
                assert(p@[end as int] != '/');
            }
            assert(ce == end);
        }
        let ghost k = (end - start) as int;
        assert(rest.take(k) =~= p@.subrange(start as int, end as int));
        if end > start {
            let piece = string_of_range(p.as_slice(), start, end);
            out = join_path(out.as_str(), piece.as_str());
        }
        if end < p.len() {
            assert(rest.skip(k + 1) =~= p@.skip(end + 1));
            start = end + 1;
        } else {
            start = end;
            assert(p@.skip(start as int).len() == 0);
        }
    }
    out
}

/// The directory under `local_root` that holds session records.
pub fn metadata_dir(local_root: &str) -> (dir: String)
    ensures
        dir@ == path_joined(local_root@, ".editr-sessions"@),
{
    join_path(local_root, ".editr-sessions")
}

/// The session name of a target: `editr-`, the sanitised host, `-`, and the
/// first twelve hex digits of the SHA-256 digest of the target's text.
pub open spec fn session_name_of(host: Seq<char>, path: Seq<char>) -> Seq<char> {
    "editr-"@ + sanitized(host) + "-"@ + hex_prefix_of(sha256(encode_utf8(target_text(host, path))), 12)
}

/// The session name derived from `target` (see [`session_name_of`]).
pub fn session_name_for_target(target: &Target) -> (name: String)
    ensures
        name@ == session_name_of(target.host@, target.path@),
        name@.len() == "editr-"@.len() + sanitized(target.host@).len() + 1 + 12,
{
    let text = target.to_string();
    let bytes = text.as_str().as_bytes();
    let digest = sha256_digest(bytes);
    let hash = hex_prefix(digest.as_slice(), 12);
    proof {
        lemma_hex_prefix_len(digest@, 12);
        reveal_strlit("-");
    }
    let host = sanitize_component(target.host.as_str());
    let mut name = concat3("editr-", host.as_str(), "-");
    push_str(&mut name, hash.as_str());
    name
}

/// The session a selector names: the session of the target it reads as, or
/// the selector itself when it is no target.
pub open spec fn selected_session(selector: Seq<char>) -> Seq<char> {
    match target_reading(selector) {
        Ok((host, path)) => session_name_of(host, path),
        Err(_) => selector,
    }
}

/// The session that `selector` (a target or a session name) refers to.
pub fn selector_to_session(selector: &str) -> (session: String)
    ensures
        session@ == selected_session(selector@),
{
    match Target::parse(selector) {
        Ok(target) => session_name_for_target(&target),
        Err(_) => owned(selector),
    }
}

} // verus!
