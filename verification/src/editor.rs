//! Launching the editor: its shell command, its environment, and what is
//! reported once the session is wound down after it exits.

use vstd::prelude::*;
use crate::text::{chars_of, owned, concat2, concat3, push_str, string_of, trim, trim_chars, starts_with, occurs_at, contains_seq, seq_occurs_at, seq_contains};
use crate::shell::{shell_quoted, shell_quote};
use crate::context::EditrContext;

verus! {

/// `s` with every occurrence of the non-empty `pat` replaced by `rep`, the
/// occurrences taken from left to right without overlapping, as `str::replace`
/// does.
pub open spec fn replaced(s: Seq<char>, pat: Seq<char>, rep: Seq<char>) -> Seq<char>
    decreases s.len(),
{
    if s.len() == 0 {
        Seq::empty()
    } else if pat.len() > 0 && starts_with(s, pat) {
        rep + replaced(s.skip(pat.len() as int), pat, rep)
    } else {
        seq![s[0]] + replaced(s.drop_first(), pat, rep)
    }
}

proof fn lemma_occurs_at_skip(s: Seq<char>, pat: Seq<char>, i: int)
    requires
        0 <= i <= s.len(),
    ensures
        occurs_at(s, pat, i) == starts_with(s.skip(i), pat),
{
    if occurs_at(s, pat, i) {
        assert(s.skip(i).take(pat.len() as int) =~= s.subrange(i, i + pat.len()));
    }
    if starts_with(s.skip(i), pat) {
        assert(s.skip(i).take(pat.len() as int) =~= s.subrange(i, i + pat.len()));
    }
}

/// `s` with every occurrence of `pat` replaced by `rep` (see [`replaced`]).
pub fn replace_all(s: &[char], pat: &[char], rep: &[char]) -> (out: Vec<char>)
    requires
        pat@.len() > 0,
    ensures
        out@ == replaced(s@, pat@, rep@),
{
    let mut out: Vec<char> = Vec::new();
    let mut i: usize = 0;
    assert(s@.skip(0) =~= s@);
    assert(out@ + replaced(s@.skip(0), pat@, rep@) =~= replaced(s@, pat@, rep@));
    while i < s.len()
        invariant
            i <= s.len(),
            pat@.len() > 0,
            out@ + replaced(s@.skip(i as int), pat@, rep@) == replaced(s@, pat@, rep@),
        decreases s.len() - i,
    {
        let ghost before = out@;
        let ghost rest = s@.skip(i as int);
        proof { lemma_occurs_at_skip(s@, pat@, i as int); }
        if seq_occurs_at(s, pat, i) {
            let mut k: usize = 0;
            while k < rep.len()
                invariant
                    k <= rep.len(),
                    out@ == before + rep@.take(k as int),
                decreases rep.len() - k,
            {
                out.push(rep[k]);
                assert(rep@.take(k + 1) =~= rep@.take(k as int).push(rep@[k as int]));
                k += 1;
            }
            assert(rep@.take(rep.len() as int) =~= rep@);
            assert(rest.skip(pat@.len() as int) =~= s@.skip(i + pat.len()));
            assert(out@ + replaced(s@.skip(i + pat.len()), pat@, rep@) =~= before + replaced(rest, pat@, rep@));
            i += pat.len();
        } else {
            out.push(s[i]);
            assert(rest.drop_first() =~= s@.skip(i + 1));
            assert(rest[0] == s@[i as int]);
            assert(out@ + replaced(s@.skip(i + 1), pat@, rep@) =~= before + replaced(rest, pat@, rep@));
            i += 1;
        }
    }
    assert(s@.skip(i as int) =~= Seq::<char>::empty());
    assert(out@ =~= out@ + replaced(s@.skip(i as int), pat@, rep@));
    out
}

/// The shell command that opens `path_arg` in `editor`: the trimmed editor
/// command with each `{path}` replaced by the quoted path, or with the quoted
/// path appended after a space when it has no `{path}`.
pub open spec fn editor_command_text(editor: Seq<char>, path_arg: Seq<char>) -> Seq<char> {
    let e = trim(editor);
    let q = shell_quoted(path_arg);
    if contains_seq(e, "{path}"@) {
        replaced(e, "{path}"@, q)
    } else {
        e + " "@ + q
    }
}

/// The shell command that opens `path_arg` in `editor` (see
/// [`editor_command_text`]).
pub fn editor_shell_command(editor: &str, path_arg: &str) -> (command: String)
    ensures
        command@ == editor_command_text(editor@, path_arg@),
{
    let placeholder: [char; 6] = ['{', 'p', 'a', 't', 'h', '}'];
    proof {
        reveal_strlit("{path}");
    }
    assert(placeholder@ =~= "{path}"@);
    let ec = chars_of(editor);
    let e = trim_chars(ec.as_slice());
    let quoted = shell_quote(path_arg);
    let qc = chars_of(quoted.as_str());
    if seq_contains(e.as_slice(), &placeholder) {
        let r = replace_all(e.as_slice(), &placeholder, qc.as_slice());
        string_of(r.as_slice())
    } else {
        let mut out = string_of(e.as_slice());
        push_str(&mut out, " ");
        push_str(&mut out, quoted.as_str());
        out
    }
}

/// The labels of a pair list.
pub open spec fn pairs_text(pairs: Seq<(String, String)>) -> Seq<(Seq<char>, Seq<char>)> {
    pairs.map_values(|p: (String, String)| (p.0@, p.1@))
}

/// The environment the editor runs in.
pub open spec fn editor_env(c: &EditrContext) -> Seq<(Seq<char>, Seq<char>)> {
    seq![
        ("EDITR"@, "1"@),
        ("EDITR_CONTEXT"@, c.context_file@),
        ("EDITR_SESSION"@, c.session_name@),
        ("EDITR_REMOTE_TARGET"@, c.target@),
        ("EDITR_REMOTE_HOST"@, c.host@),
        ("EDITR_REMOTE_PATH"@, c.remote_path@),
        ("EDITR_LOCAL_PATH"@, c.local_path@),
        ("EDITR_BIN"@, c.editr_bin@),
    ]
}

/// The environment variables set for the editor (see [`editor_env`]).
pub fn editor_environment(context: &EditrContext) -> (env: Vec<(String, String)>)
    ensures
        pairs_text(env@) == editor_env(context),
{
    let mut env: Vec<(String, String)> = Vec::new();
    env.push((owned("EDITR"), owned("1")));
    env.push((owned("EDITR_CONTEXT"), context.context_file.clone()));
    env.push((owned("EDITR_SESSION"), context.session_name.clone()));
    env.push((owned("EDITR_REMOTE_TARGET"), context.target.clone()));
    env.push((owned("EDITR_REMOTE_HOST"), context.host.clone()));
    env.push((owned("EDITR_REMOTE_PATH"), context.remote_path.clone()));
    env.push((owned("EDITR_LOCAL_PATH"), context.local_path.clone()));
    env.push((owned("EDITR_BIN"), context.editr_bin.clone()));
    assert(pairs_text(env@) =~= editor_env(context));
    env
}

/// What winding down a session after the editor reports, given how the final
/// flush and the termination went (each error as text, if it failed).
pub open spec fn cleanup_report(flush_error: Option<Seq<char>>, terminate_error: Option<Seq<char>>) -> Option<Seq<char>> {
    match (flush_error, terminate_error) {
        (None, None) => None,
        (Some(f), None) => Some(
            "final Mutagen flush failed, so the session was terminated and the local mirror was retained for recovery: "@
                + f,
        ),
        (None, Some(t)) => Some("final Mutagen flush succeeded, but terminating the session failed: "@ + t),
        (Some(f), Some(t)) => Some(
            "final Mutagen flush failed and terminating the session also failed: "@ + f + "; "@ + t,
        ),
    }
}

/// The outcome of winding down a session: `Ok` when both the final flush and
/// the termination succeeded (the session's files may then be removed),
/// otherwise the error to report.
pub fn cleanup_outcome(flush_error: Option<String>, terminate_error: Option<String>) -> (r: Result<(), String>)
    ensures
        match r {
            Ok(()) => cleanup_report(crate::text::opt_text(flush_error), crate::text::opt_text(terminate_error)) is None,
            Err(m) => cleanup_report(crate::text::opt_text(flush_error), crate::text::opt_text(terminate_error))
                == Some(m@),
        },
{
    match (flush_error, terminate_error) {
        (None, None) => Ok(()),
        (Some(f), None) => Err(
            concat2(
                "final Mutagen flush failed, so the session was terminated and the local mirror was retained for recovery: ",
                f.as_str(),
            ),
        ),
        (None, Some(t)) => Err(concat2("final Mutagen flush succeeded, but terminating the session failed: ", t.as_str())),
        (Some(f), Some(t)) => {
            let mut m = concat3(
                "final Mutagen flush failed and terminating the session also failed: ",
                f.as_str(),
                "; ",
            );
            push_str(&mut m, t.as_str());
            Err(m)
        },
    }
}

} // verus!
