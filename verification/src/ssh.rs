//! The remote side, reached over ssh: the commands sent and how their output
//! is read.

use vstd::prelude::*;
use crate::text::{chars_of, owned, concat2, concat3, string_of, trim, trim_chars, starts_with, strip_prefix_chars, seq_eq, strings_text, is_digit, char_is_digit};
use crate::shell::{shell_quoted, shell_quote};
use crate::target::{Target, target_text, normalized, normalize_remote_path};
use crate::decimal::{digits_value, all_digits, digits_to_u128};

verus! {

/// The options that keep an ssh probe from prompting or hanging.
pub open spec fn probe_options() -> Seq<Seq<char>> {
    seq![
        "-o"@,
        "BatchMode=yes"@,
        "-o"@,
        "ConnectTimeout=10"@,
        "-o"@,
        "ServerAliveInterval=5"@,
        "-o"@,
        "ServerAliveCountMax=1"@,
    ]
}

/// The arguments of `ssh` that probe `host`: the probe options, then the host.
pub fn ssh_probe_command(host: &str) -> (args: Vec<String>)
    ensures
        strings_text(args@) == probe_options().push(host@),
{
    let mut args: Vec<String> = Vec::new();
    args.push(owned("-o"));
    args.push(owned("BatchMode=yes"));
    args.push(owned("-o"));
    args.push(owned("ConnectTimeout=10"));
    args.push(owned("-o"));
    args.push(owned("ServerAliveInterval=5"));
    args.push(owned("-o"));
    args.push(owned("ServerAliveCountMax=1"));
    args.push(owned(host));
    assert(strings_text(args@) =~= probe_options().push(host@));
    args
}

/// The remote command that creates (or only checks) the target directory.
pub open spec fn directory_command(path: Seq<char>, create: bool) -> Seq<char> {
    if create {
        "mkdir -p "@ + shell_quoted(path)
    } else {
        "test -d "@ + shell_quoted(path)
    }
}

/// The remote command that creates or checks `target`'s directory.
pub fn remote_directory_command(target: &Target, create: bool) -> (command: String)
    ensures
        command@ == directory_command(target.path@, create),
{
    let q = shell_quote(target.path.as_str());
    if create {
        concat2("mkdir -p ", q.as_str())
    } else {
        concat2("test -d ", q.as_str())
    }
}

/// What the directory step is called in progress messages.
pub fn remote_directory_description(create: bool) -> (d: &'static str)
    ensures
        d@ == if create { "create remote directory"@ } else { "check remote directory"@ },
{
    if create {
        "create remote directory"
    } else {
        "check remote directory"
    }
}

/// The message shown when the directory step fails.
pub fn remote_directory_failure(target: &Target, create: bool) -> (m: String)
    ensures
        m@ == if create {
            "failed to create remote directory: "@ + target_text(target.host@, target.path@)
        } else {
            "remote directory does not exist: "@ + target_text(target.host@, target.path@)
                + "\ncreate it remotely first, or pass --create-remote intentionally"@
        },
{
    let text = target.to_string();
    if create {
        concat2("failed to create remote directory: ", text.as_str())
    } else {
        concat3(
            "remote directory does not exist: ",
            text.as_str(),
            "\ncreate it remotely first, or pass --create-remote intentionally",
        )
    }
}

/// The part of the size probe that follows the quoted path.
pub open spec fn size_probe_tail() -> Seq<char> {
    "; if [ -d \"$p\" ]; then printf 'directory\\n'; exit 3; fi; if [ ! -e \"$p\" ]; then printf 'missing\\n'; exit 2; fi; printf 'file\\t'; (stat -c %s \"$p\" 2>/dev/null || stat -f %z \"$p\" 2>/dev/null || wc -c < \"$p\")"@
}

/// The remote command that reports whether `remote_path` is a directory, is
/// missing, or is a file of some size.
pub fn remote_size_command(remote_path: &str) -> (command: String)
    ensures
        command@ == "p="@ + shell_quoted(remote_path@) + size_probe_tail(),
{
    let q = shell_quote(remote_path);
    concat3(
        "p=",
        q.as_str(),
        "; if [ -d \"$p\" ]; then printf 'directory\\n'; exit 3; fi; if [ ! -e \"$p\" ]; then printf 'missing\\n'; exit 2; fi; printf 'file\\t'; (stat -c %s \"$p\" 2>/dev/null || stat -f %z \"$p\" 2>/dev/null || wc -c < \"$p\")",
    )
}

/// Why the size of a remote file could not be had.
#[derive(Debug)]
pub enum RemoteStatError {
    /// The path is a directory; carries the path.
    IsDirectory(String),
    /// Nothing exists at the path.
    Missing(String),
    /// The probe failed otherwise.
    Failed(String),
}

/// The mathematical content of a [`RemoteStatError`].
pub enum RemoteStatErrorView {
    IsDirectory(Seq<char>),
    Missing(Seq<char>),
    Failed(Seq<char>),
}

impl RemoteStatError {
    /// The mathematical content of this error.
    pub open spec fn view(&self) -> RemoteStatErrorView {
        match self {
            RemoteStatError::IsDirectory(p) => RemoteStatErrorView::IsDirectory(p@),
            RemoteStatError::Missing(p) => RemoteStatErrorView::Missing(p@),
            RemoteStatError::Failed(p) => RemoteStatErrorView::Failed(p@),
        }
    }

    /// The message shown for this error.
    pub fn message(&self) -> (m: String)
        ensures
            m@ == match self.view() {
                RemoteStatErrorView::IsDirectory(p) => "remote path is a directory: "@ + p,
                RemoteStatErrorView::Missing(p) => "remote path does not exist: "@ + p,
                RemoteStatErrorView::Failed(p) => "failed to stat remote path: "@ + p,
            },
    {
        match self {
            RemoteStatError::IsDirectory(p) => concat2("remote path is a directory: ", p.as_str()),
            RemoteStatError::Missing(p) => concat2("remote path does not exist: ", p.as_str()),
            RemoteStatError::Failed(p) => concat2("failed to stat remote path: ", p.as_str()),
        }
    }
}

/// The number `text` spells as `str::parse::<u64>` reads it: an optional `+`,
/// then at least one decimal digit, the value fitting in 64 bits.
pub open spec fn u64_reading(text: Seq<char>) -> Option<u64> {
    let digits = if text.len() > 0 && text[0] == '+' { text.drop_first() } else { text };
    if digits.len() > 0 && all_digits(digits) && digits_value(digits) <= u64::MAX {
        Some(digits_value(digits) as u64)
    } else {
        None
    }
}

/// Reads a `u64` the way `str::parse::<u64>` does (see [`u64_reading`]).
pub fn parse_u64(text: &[char]) -> (r: Option<u64>)
    ensures
        r == u64_reading(text@),
{
    let start: usize = if text.len() > 0 && text[0] == '+' { 1 } else { 0 };
    let mut digits: Vec<char> = Vec::new();
    let mut i: usize = start;
    while i < text.len()
        invariant
            start <= i <= text.len(),
            digits@ == text@.subrange(start as int, i as int),
        decreases text.len() - i,
    {
        digits.push(text[i]);
        assert(digits@ =~= text@.subrange(start as int, i + 1));
        i += 1;
    }
    assert(start == 1 ==> digits@ =~= text@.drop_first());
    assert(start == 0 ==> digits@ =~= text@);
    let ghost spelled = if text@.len() > 0 && text@[0] == '+' { text@.drop_first() } else { text@ };
    assert(digits@ == spelled);
    if digits.len() == 0 {
        return None;
    }
    let mut k: usize = 0;
    while k < digits.len()
        invariant
            k <= digits.len(),
            digits@ == spelled,
            spelled == (if text@.len() > 0 && text@[0] == '+' { text@.drop_first() } else { text@ }),
            forall|m: int| 0 <= m < k ==> is_digit(#[trigger] digits@[m]),
        decreases digits.len() - k,
    {
        if !char_is_digit(digits[k]) {
            assert(!all_digits(digits@));
            return None;
        }
        k += 1;
    }
    match digits_to_u128(digits.as_slice()) {
        Some(v) => {
            if v <= u64::MAX as u128 {
                Some(v as u64)
            } else {
                None
            }
        },
        None => None,
    }
}

/// What the size probe's outcome says: on failure, whether the path is a
/// directory, is missing, or could not be examined; on success, the size after
/// `file` and a tab, when the output has that shape and the size is a number.
pub open spec fn size_reading(remote_path: Seq<char>, success: bool, stdout: Seq<char>) -> Result<Option<u64>, RemoteStatErrorView> {
    let out = trim(stdout);
    if !success {
        if out == "directory"@ {
            Err(RemoteStatErrorView::IsDirectory(remote_path))
        } else if out == "missing"@ {
            Err(RemoteStatErrorView::Missing(remote_path))
        } else {
            Err(RemoteStatErrorView::Failed(remote_path))
        }
    } else if starts_with(out, "file\t"@) {
        Ok(u64_reading(trim(out.skip(5))))
    } else {
        Ok(None)
    }
}

/// The size of `remote_path` as the size probe reports it, given whether the
/// probe succeeded and what it printed.
pub fn remote_file_size(remote_path: &str, success: bool, stdout: &str) -> (r: Result<Option<u64>, RemoteStatError>)
    ensures
        match (r, size_reading(remote_path@, success, stdout@)) {
            (Ok(a), Ok(b)) => a == b,
            (Err(e), Err(v)) => e.view() == v,
            _ => false,
        },
{
    let c = chars_of(stdout);
    let out = trim_chars(c.as_slice());
    if !success {
        let directory: [char; 9] = ['d', 'i', 'r', 'e', 'c', 't', 'o', 'r', 'y'];
        let missing: [char; 7] = ['m', 'i', 's', 's', 'i', 'n', 'g'];
        proof {
            reveal_strlit("directory");
            reveal_strlit("missing");
        }
        assert(directory@ =~= "directory"@);
        assert(missing@ =~= "missing"@);
        if seq_eq(out.as_slice(), &directory) {
            return Err(RemoteStatError::IsDirectory(owned(remote_path)));
        }
        if seq_eq(out.as_slice(), &missing) {
            return Err(RemoteStatError::Missing(owned(remote_path)));
        }
        return Err(RemoteStatError::Failed(owned(remote_path)));
    }
    let file_tab: [char; 5] = ['f', 'i', 'l', 'e', '\t'];
    proof {
        reveal_strlit("file\t");
    }
    assert(file_tab@ =~= "file\t"@);
    match strip_prefix_chars(out.as_slice(), &file_tab) {
        Some(rest) => {
            let t = trim_chars(rest.as_slice());
            Ok(parse_u64(t.as_slice()))
        },
        None => Ok(None),
    }
}

/// The remote command that prints the physical path of `remote_path`.
pub fn remote_physical_path_command(remote_path: &str) -> (command: String)
    ensures
        command@ == "cd "@ + shell_quoted(remote_path@) + " 2>/dev/null && pwd -P"@,
{
    let q = shell_quote(remote_path);
    concat3("cd ", q.as_str(), " 2>/dev/null && pwd -P")
}

/// The physical path the probe printed: nothing when it failed or printed
/// nothing but white space, else its trimmed output, normalised.
pub open spec fn physical_reading(success: bool, stdout: Seq<char>) -> Option<Seq<char>> {
    if !success || trim(stdout).len() == 0 {
        None
    } else {
        Some(normalized(trim(stdout)))
    }
}

/// The physical path of a remote directory as the probe reports it.
pub fn remote_physical_path(success: bool, stdout: &str) -> (path: Option<String>)
    ensures
        crate::text::opt_text(path) == physical_reading(success, stdout@),
{
    if !success {
        return None;
    }
    let c = chars_of(stdout);
    let t = trim_chars(c.as_slice());
    if t.len() == 0 {
        return None;
    }
    let s = string_of(t.as_slice());
    Some(normalize_remote_path(s.as_str()))
}

} // verus!
