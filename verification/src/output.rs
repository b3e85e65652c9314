//! What a finished command left behind, and the one-line summary of a failed one.
use vstd::prelude::*;
use crate::text::{chars_of, contains_seq, contains_chars, push_chars, push_str, slice_chars, trim, trim_bounds, string_from_chars};

verus! {

broadcast use vstd::string::group_string_axioms;

/// The outcome of running a command: whether it exited successfully, its exit status as text,
/// and its standard output and error (decoded lossily as UTF-8).
#[derive(Debug)]
pub struct CommandOutput {
    pub success: bool,
    pub status: String,
    pub stdout: String,
    pub stderr: String,
}

/// The message of a failed command: its trimmed standard error, or its trimmed standard output
/// when standard error holds only whitespace.
pub open spec fn failure_message(stdout: Seq<char>, stderr: Seq<char>) -> Seq<char> {
    if trim(stderr).len() == 0 {
        trim(stdout)
    } else {
        trim(stderr)
    }
}

/// `<action> exited with <status>: <message>`.
pub open spec fn exit_summary(action: Seq<char>, output: CommandOutput) -> Seq<char> {
    action + " exited with "@ + output.status@ + ": "@ + failure_message(
        output.stdout@,
        output.stderr@,
    )
}

/// The trimmed text of `s`.
pub fn trimmed(s: &str) -> (res: Vec<char>)
    ensures
        res@ == trim(s@),
{
    let v = chars_of(s);
    let (a, b) = trim_bounds(&v, 0, v.len());
    assert(v@.subrange(0, v.len() as int) =~= v@);
    slice_chars(&v, a, b)
}

/// The characters of `<action> exited with <status>: <message>` for a finished command.
pub fn exit_summary_chars(action: &str, output: &CommandOutput) -> (res: Vec<char>)
    ensures
        res@ == exit_summary(action@, *output),
{
    let stderr = trimmed(output.stderr.as_str());
    let message = if stderr.len() == 0 {
        trimmed(output.stdout.as_str())
    } else {
        stderr
    };
    let mut out = chars_of(action);
    push_str(&mut out, " exited with ");
    push_str(&mut out, output.status.as_str());
    push_str(&mut out, ": ");
    push_chars(&mut out, &message);
    out
}

/// `<action> exited with <status>: <message>`, where the message is the trimmed standard
/// error, or the trimmed standard output when standard error is blank.
pub fn output_summary(action: &str, output: &CommandOutput) -> (res: String)
    ensures
        res@ == exit_summary(action@, *output),
{
    let out = exit_summary_chars(action, output);
    string_from_chars(&out)
}

/// Whether the command's standard output followed by its standard error contains `needle`.
pub fn output_contains(output: &CommandOutput, needle: &str) -> (res: bool)
    ensures
        res == contains_seq(output.stdout@ + output.stderr@, needle@),
{
    let mut text = chars_of(output.stdout.as_str());
    let err = chars_of(output.stderr.as_str());
    push_chars(&mut text, &err);
    let n = chars_of(needle);
    contains_chars(&text, &n)
}

} // verus!
