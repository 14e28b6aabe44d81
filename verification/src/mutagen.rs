//! What is handed to Mutagen: session labels and the arguments that create a
//! synchronisation session.

use vstd::prelude::*;
use vstd::utf8::{encode_utf8, is_ascii_chars, is_ascii_chars_encode_utf8};
use crate::text::{chars_of, owned, concat3, strings_text};
use crate::naming::{sanitized, sanitize_component, hex_prefix, hex_prefix_of, truncated, truncate_component, lemma_sanitized_name_chars, lemma_hex_prefix_len};
use crate::hash::{sha256, sha256_digest};

verus! {

/// The role a session plays.
#[derive(Clone, Copy, Debug, PartialEq, Eq, Structural)]
pub enum SessionKind {
    /// The steady two-way mirror of a project.
    Project,
    /// A one-shot copy from the remote side.
    Bootstrap,
    /// A single hydrated file.
    Hydration,
}

/// The label value that names a session kind.
pub open spec fn kind_label(kind: SessionKind) -> Seq<char> {
    match kind {
        SessionKind::Project => "project"@,
        SessionKind::Bootstrap => "bootstrap"@,
        SessionKind::Hydration => "hydration"@,
    }
}

/// The label value for `kind`.
pub fn session_kind_label(kind: SessionKind) -> (label: &'static str)
    ensures
        label@ == kind_label(kind),
{
    match kind {
        SessionKind::Project => "project",
        SessionKind::Bootstrap => "bootstrap",
        SessionKind::Hydration => "hydration",
    }
}

/// The longest label value Mutagen accepts.
pub const MAX_LABEL_VALUE_LEN: usize = 63;

/// `value` as a label value: its sanitised form when that is short enough;
/// otherwise its first fifty characters, `-`, and twelve hex digits of the
/// SHA-256 digest of `value`.
pub open spec fn label_value(value: Seq<char>) -> Seq<char> {
    let s = sanitized(value);
    if s.len() <= 63 {
        s
    } else {
        truncated(s, 50) + "-"@ + hex_prefix_of(sha256(encode_utf8(value)), 12)
    }
}

/// `value` made fit for a Mutagen label value (see [`label_value`]).
pub fn mutagen_label_value(value: &str) -> (label: String)
    ensures
        label@ == label_value(value@),
        label@.len() <= MAX_LABEL_VALUE_LEN,
        sanitized(value@).len() > MAX_LABEL_VALUE_LEN ==> label@.len() == MAX_LABEL_VALUE_LEN,
{
    let s = sanitize_component(value);
    let n = chars_of(s.as_str()).len();
    if n <= MAX_LABEL_VALUE_LEN {
        return s;
    }
    let digest = sha256_digest(value.as_bytes());
    let hash = hex_prefix(digest.as_slice(), 12);
    proof {
        lemma_hex_prefix_len(digest@, 12);
        reveal_strlit("-");
    }
    let prefix = truncate_component(s.as_str(), MAX_LABEL_VALUE_LEN - 12 - 1);
    concat3(prefix.as_str(), "-", hash.as_str())
}

/// A label value is at most 63 bytes long and plain ASCII.
pub proof fn lemma_label_value_fits(value: Seq<char>)
    ensures
        is_ascii_chars(label_value(value)),
        encode_utf8(label_value(value)).len() <= 63,
{
    let s = sanitized(value);
    lemma_sanitized_name_chars(value);
    if s.len() > 63 {
        let d = sha256(encode_utf8(value));
        lemma_hex_prefix_len(d, 12);
        reveal_strlit("-");
        let h = hex_prefix_of(d, 12);
        let t = truncated(s, 50);
        let l = t + "-"@ + h;
        assert(t.len() == 50);
        assert forall|i: int| 0 <= i < l.len() implies '\0' <= #[trigger] l[i] <= '\u{7f}' by {
            if i < 50 {
                assert(l[i] == s[i]);
            } else if i == 50 {
            } else {
                assert(l[i] == h[i - 51]);
            }
        }
        is_ascii_chars_encode_utf8(l);
    } else {
        is_ascii_chars_encode_utf8(s);
    }
}

/// The labels of a session: `editr=true`, its name, its kind, and the project
/// it belongs to when there is one.
pub open spec fn labels_of(session: Seq<char>, kind: SessionKind, project: Option<Seq<char>>) -> Seq<(Seq<char>, Seq<char>)> {
    let base = seq![
        ("editr"@, "true"@),
        ("editr.session"@, label_value(session)),
        ("editr.kind"@, kind_label(kind)),
    ];
    match project {
        Some(p) => base.push(("editr.project"@, label_value(p))),
        None => base,
    }
}

/// The characters of each label.
pub open spec fn labels_text(labels: Seq<(String, String)>) -> Seq<(Seq<char>, Seq<char>)> {
    labels.map_values(|l: (String, String)| (l.0@, l.1@))
}

/// The labels Mutagen gets for a session (see [`labels_of`]).
pub fn mutagen_labels(session_name: &str, kind: SessionKind, project_session: Option<&str>) -> (labels: Vec<(String, String)>)
    ensures
        labels_text(labels@) == labels_of(
            session_name@,
            kind,
            match project_session { Some(p) => Some(p@), None => None },
        ),
{
    let mut labels: Vec<(String, String)> = Vec::new();
    labels.push((owned("editr"), owned("true")));
    labels.push((owned("editr.session"), mutagen_label_value(session_name)));
    labels.push((owned("editr.kind"), owned(session_kind_label(kind))));
    if let Some(p) = project_session {
        labels.push((owned("editr.project"), mutagen_label_value(p)));
    }
    assert(labels_text(labels@) =~= labels_of(
        session_name@,
        kind,
        match project_session { Some(p) => Some(p@), None => None },
    ));
    labels
}

/// `--label key=value` for each label, in order.
pub open spec fn label_args(labels: Seq<(Seq<char>, Seq<char>)>) -> Seq<Seq<char>>
    decreases labels.len(),
{
    if labels.len() == 0 {
        Seq::empty()
    } else {
        let l = labels.last();
        label_args(labels.drop_last()) + seq!["--label"@, l.0 + "="@ + l.1]
    }
}

/// `-i pattern` for each ignore pattern, in order.
pub open spec fn ignore_args(patterns: Seq<Seq<char>>) -> Seq<Seq<char>>
    decreases patterns.len(),
{
    if patterns.len() == 0 {
        Seq::empty()
    } else {
        ignore_args(patterns.drop_last()) + seq!["-i"@, patterns.last()]
    }
}

/// The arguments of `mutagen` that create a synchronisation session named
/// `name` from `alpha` to `beta`.
pub open spec fn create_args(
    name: Seq<char>,
    mode: Seq<char>,
    sync_vcs: bool,
    patterns: Seq<Seq<char>>,
    labels: Seq<(Seq<char>, Seq<char>)>,
    alpha: Seq<char>,
    beta: Seq<char>,
) -> Seq<Seq<char>> {
    seq!["sync"@, "create"@, "--name"@, name, "--mode"@, mode] + label_args(labels) + seq![
        if sync_vcs { "--no-ignore-vcs"@ } else { "--ignore-vcs"@ },
    ] + ignore_args(patterns) + seq![alpha, beta]
}

/// The arguments of `mutagen` that create a session (see [`create_args`]).
pub fn mutagen_create_command(
    name: &str,
    mode: &str,
    sync_vcs: bool,
    ignore_patterns: &Vec<String>,
    labels: &Vec<(String, String)>,
    alpha: &str,
    beta: &str,
) -> (args: Vec<String>)
    ensures
        strings_text(args@) == create_args(
            name@,
            mode@,
            sync_vcs,
            strings_text(ignore_patterns@),
            labels_text(labels@),
            alpha@,
            beta@,
        ),
{
    let mut args: Vec<String> = Vec::new();
    args.push(owned("sync"));
    args.push(owned("create"));
    args.push(owned("--name"));
    args.push(owned(name));
    args.push(owned("--mode"));
    args.push(owned(mode));
    let ghost head = strings_text(args@);
    assert(head =~= seq!["sync"@, "create"@, "--name"@, name@, "--mode"@, mode@]);
    let mut i: usize = 0;
    assert(labels_text(labels@.take(0)) =~= Seq::<(Seq<char>, Seq<char>)>::empty());
    while i < labels.len()
        invariant
            i <= labels.len(),
            strings_text(args@) == head + label_args(labels_text(labels@.take(i as int))),
        decreases labels.len() - i,
    {
        let ghost before = strings_text(args@);
        args.push(owned("--label"));
        args.push(concat3(labels[i].0.as_str(), "=", labels[i].1.as_str()));
        proof {
            assert(labels_text(labels@.take(i + 1)) =~= labels_text(labels@.take(i as int)).push(
                (labels@[i as int].0@, labels@[i as int].1@),
            ));
            assert(labels_text(labels@.take(i + 1)).drop_last() =~= labels_text(labels@.take(i as int)));
            assert(strings_text(args@) =~= before + seq!["--label"@, labels@[i as int].0@ + "="@ + labels@[i as int].1@]);
        }
        i += 1;
    }
    assert(labels@.take(labels.len() as int) =~= labels@);
    if sync_vcs {
        args.push(owned("--no-ignore-vcs"));
    } else {
        args.push(owned("--ignore-vcs"));
    }
    let ghost mid = strings_text(args@);
    let mut k: usize = 0;
    assert(strings_text(ignore_patterns@.take(0)) =~= Seq::<Seq<char>>::empty());
    while k < ignore_patterns.len()
        invariant
            k <= ignore_patterns.len(),
            strings_text(args@) == mid + ignore_args(strings_text(ignore_patterns@.take(k as int))),
        decreases ignore_patterns.len() - k,
    {
        let ghost before = strings_text(args@);
        args.push(owned("-i"));
        args.push(ignore_patterns[k].clone());
        proof {
            assert(strings_text(ignore_patterns@.take(k + 1)).drop_last() =~= strings_text(
                ignore_patterns@.take(k as int),
            ));
            assert(strings_text(args@) =~= before + seq!["-i"@, ignore_patterns@[k as int]@]);
        }
        k += 1;
    }
    assert(ignore_patterns@.take(ignore_patterns.len() as int) =~= ignore_patterns@);
    let ghost tail = strings_text(args@);
    args.push(owned(alpha));
    args.push(owned(beta));
    assert(strings_text(args@) =~= tail + seq![alpha@, beta@]);
    args
}

} // verus!
