use vstd::prelude::*;

use crate::text::{format_signed, signed_decimal};
use crate::tools::args::{missing_argument_message, ToolArgs};

verus! {

/// The tool that runs a shell command.
pub struct RunCommandTool;

impl RunCommandTool {
    /// The tool's name.
    pub fn name(&self) -> (r: &'static str)
        ensures
            r@ == "run_command"@,
    {
        "run_command"
    }

    /// The tool's description for the model.
    pub fn description(&self) -> (r: &'static str)
        ensures
            r@ == "Execute a shell command and return stdout and stderr."@,
    {
        "Execute a shell command and return stdout and stderr."
    }
}

/// Reads the required argument `command`.
pub fn command_request(args: &ToolArgs) -> (r: Result<String, String>)
    ensures
        match r {
            Ok(c) => args.field("command"@) == Some(c@),
            Err(e) => args.field("command"@) is None && e@ == missing_argument_message("command"@),
        },
{
    args.require_str("command")
}

/// The output and error streams of a command, joined: standard output first,
/// then "[stderr]" and the error output on a line of their own.
pub open spec fn streams_text(stdout: Seq<char>, stderr: Seq<char>) -> Seq<char> {
    let a = stdout;
    if stderr.len() == 0 {
        a
    } else if a.len() == 0 {
        "[stderr]\n"@ + stderr
    } else {
        a + "\n"@ + "[stderr]\n"@ + stderr
    }
}

/// What the command tool reports for a command that printed `stdout` and
/// `stderr` and ended with `success`, and with exit code `code` when there is one.
pub open spec fn command_report_spec(stdout: Seq<char>, stderr: Seq<char>, success: bool, code: Option<i32>) -> Seq<char> {
    let t = streams_text(stdout, stderr);
    let body = if t.len() == 0 { "(no output)"@ } else { t };
    if success {
        body
    } else {
        "[exit code: "@ + signed_decimal(match code { Some(c) => c as int, None => -1 }) + "]\n"@ + body
    }
}

/// What the command tool reports (see `command_report_spec`).
pub fn command_report(stdout: &str, stderr: &str, success: bool, code: Option<i32>) -> (r: String)
    ensures
        r@ == command_report_spec(stdout@, stderr@, success, code),
{
    let mut result = String::new();
    if !stdout.is_empty() {
        result.append(stdout);
    }
    if !stderr.is_empty() {
        if !result.as_str().is_empty() {
            result.append("\n");
        }
        result.append("[stderr]\n");
        result.append(stderr);
    }
    proof {
        reveal_strlit("[stderr]\n");
    }
    assert(result@ =~= streams_text(stdout@, stderr@));
    if result.as_str().is_empty() {
        result = "(no output)".to_owned();
    }
    if !success {
        let c: i64 = match code {
            Some(c) => c as i64,
            None => -1,
        };
        let mut r = String::new();
        r.append("[exit code: ");
        let digits = format_signed(c);
        r.append(digits.as_str());
        r.append("]\n");
        r.append(result.as_str());
        return r;
    }
    result
}

/// A failed command is reported as "[exit code: N]", a line break, and then
/// exactly what the same output would be reported as had it succeeded; the
/// code is -1 when the command ended without one.
pub proof fn lemma_failure_report_prefixes_the_output(stdout: Seq<char>, stderr: Seq<char>, code: Option<i32>)
    ensures
        command_report_spec(stdout, stderr, false, code) == "[exit code: "@ + signed_decimal(
            match code {
                Some(c) => c as int,
                None => -1,
            },
        ) + "]\n"@ + command_report_spec(stdout, stderr, true, code),
{
}

/// The report of a successful command begins with its standard output and
/// ends with its error output after a "[stderr]" line; with neither it is
/// "(no output)". Its length is that of the two streams and the separators.
pub proof fn lemma_success_report_holds_both_streams(stdout: Seq<char>, stderr: Seq<char>, code: Option<i32>)
    ensures
        ({
            let r = command_report_spec(stdout, stderr, true, code);
            let tail = "[stderr]\n"@ + stderr;
            &&& stdout.len() == 0 && stderr.len() == 0 ==> r == "(no output)"@
            &&& stdout.len() > 0 ==> r.len() >= stdout.len() && r.take(stdout.len() as int) == stdout
            &&& stderr.len() > 0 ==> r.len() >= tail.len() && r.skip(r.len() - tail.len()) == tail
            &&& stderr.len() == 0 && stdout.len() > 0 ==> r == stdout
            &&& stderr.len() > 0 && stdout.len() > 0 ==> r.len() == stdout.len() + 1 + tail.len()
                && r[stdout.len() as int] == '\n'
            &&& stderr.len() > 0 && stdout.len() == 0 ==> r == tail
        }),
{
    reveal_strlit("\n");
    reveal_strlit("[stderr]\n");
    let tail = "[stderr]\n"@ + stderr;
    let r = command_report_spec(stdout, stderr, true, code);
    if stdout.len() > 0 {
        if stderr.len() > 0 {
            assert(r == stdout + "\n"@ + tail);
            assert(r.take(stdout.len() as int) =~= stdout);
            assert(r.skip(r.len() - tail.len()) =~= tail);
        } else {
            assert(r.take(stdout.len() as int) =~= stdout);
        }
    } else if stderr.len() > 0 {
        assert(r.skip(r.len() - tail.len()) =~= tail);
    }
}

/// The error when the command could not be started; `error` is the system's message.
pub fn launch_failure(error: &str) -> (r: String)
    ensures
        r@ == "Failed to execute command: "@ + error@,
{
    let mut r = String::new();
    r.append("Failed to execute command: ");
    r.append(error);
    r
}

} // verus!
