//! Running local programs: the probe for a program on `PATH`, and how a
//! failed run is reported.

use vstd::prelude::*;
use crate::text::{chars_of, concat2, concat3, push_str, string_of, trim, trim_chars};
use crate::shell::{shell_quoted, shell_quote};

verus! {

/// The shell script that succeeds when `name` is a program on `PATH`.
pub fn command_probe_script(name: &str) -> (script: String)
    ensures
        script@ == "command -v "@ + shell_quoted(name@) + " >/dev/null 2>&1"@,
{
    let q = shell_quote(name);
    concat3("command -v ", q.as_str(), " >/dev/null 2>&1")
}

/// The message shown when a required program is missing.
pub fn missing_command_message(name: &str) -> (m: String)
    ensures
        m@ == name@ + " is required but was not found on PATH"@,
{
    concat2(name, " is required but was not found on PATH")
}

/// What is reported when a program run as `description` ends with status
/// `status`: when its output was captured, the trimmed output and error
/// output that are not empty follow, one per line.
pub open spec fn failure_text(description: Seq<char>, status: Seq<char>, stdout: Seq<char>, stderr: Seq<char>, captured: bool) -> Seq<char> {
    let head = description + " failed with status "@ + status;
    let out = trim(stdout);
    let err = trim(stderr);
    let details = if out.len() > 0 && err.len() > 0 {
        out + "\n"@ + err
    } else if out.len() > 0 {
        out
    } else {
        err
    };
    if !captured || details.len() == 0 {
        head
    } else {
        head + ":\n"@ + details
    }
}

/// The message for a failed run (see [`failure_text`]).
pub fn command_failure_message(description: &str, status: &str, stdout: &str, stderr: &str, captured: bool) -> (m: String)
    ensures
        m@ == failure_text(description@, status@, stdout@, stderr@, captured),
{
    let mut head = concat3(description, " failed with status ", status);
    if !captured {
        return head;
    }
    let oc = chars_of(stdout);
    let out = trim_chars(oc.as_slice());
    let ec = chars_of(stderr);
    let err = trim_chars(ec.as_slice());
    let details = if out.len() > 0 && err.len() > 0 {
        let mut d = string_of(out.as_slice());
        d.push('\n');
        let e = string_of(err.as_slice());
        push_str(&mut d, e.as_str());
        proof { reveal_strlit("\n"); }
        assert(d@ =~= out@ + "\n"@ + err@);
        d
    } else if out.len() > 0 {
        string_of(out.as_slice())
    } else {
        string_of(err.as_slice())
    };
    if chars_of(details.as_str()).len() == 0 {
        return head;
    }
    push_str(&mut head, ":\n");
    push_str(&mut head, details.as_str());
    head
}

} // verus!
