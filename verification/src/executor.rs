//! Streaming executor data model and its pure logic. The child process, its
//! pipes and the read loop are driven by the embedding program; this module
//! fixes how a captured line becomes a delta, how captured lines form the
//! final output text, and how a missing exit status is reported.
use vstd::prelude::*;

verus! {

use vstd::string::StringExecFns;
use crate::process_manager::ProcessId;

/// Configuration of a one-shot execution: the command as one display
/// string, the child's environment and its working directory.
pub struct ExecutorConfig {
    pub command: String,
    pub env: Vec<(String, String)>,
    pub working_dir: String,
}

/// What a one-shot execution captured.
pub struct ExecutorOutput {
    pub stdout: String,
    pub stderr: String,
    pub exit_code: i32,
}

/// Configuration of a streaming execution: the program and its arguments are
/// handed to the child verbatim, with no shell interpretation.
pub struct StreamingExecutorConfig {
    pub cmd: String,
    pub args: Vec<String>,
    pub env: Vec<(String, String)>,
    pub working_dir: String,
    pub update_interval_millis: u64,
    pub output_file: String,
}

/// What a streaming execution reports when its task ends.
pub struct StreamingExecutorResult {
    pub process_id: ProcessId,
    pub exit_code: i32,
    pub stdout: String,
    pub stderr: String,
    pub completed: bool,
}

/// The delta one captured line contributes to its stream's accumulator: the
/// line with its trailing newline restored.
pub fn line_delta(line: &str) -> (r: String)
    ensures
        r@ == line@ + "\n"@,
{
    let mut s = line.to_owned();
    s.append("\n");
    s
}

/// Lines joined with single newlines, no trailing newline.
pub open spec fn spec_join_lines(lines: Seq<Seq<char>>) -> Seq<char>
    decreases lines.len(),
{
    if lines.len() == 0 {
        Seq::empty()
    } else if lines.len() == 1 {
        lines[0]
    } else {
        spec_join_lines(lines.drop_last()) + "\n"@ + lines.last()
    }
}

/// Joins captured lines into one text, separated by newlines.
pub fn join_lines(lines: &Vec<String>) -> (r: String)
    ensures
        r@ == spec_join_lines(lines.deep_view()),
{
    let n = lines.len();
    if n == 0 {
        return String::new();
    }
    let mut s = lines[0].clone();
    for i in 1..n
        invariant
            n == lines@.len(),
            1 <= n,
            s@ == spec_join_lines(lines.deep_view().take(i as int)),
    {
        s.append("\n");
        s.append(lines[i].as_str());
        proof {
            let full = lines.deep_view();
            assert(full.take(i + 1).drop_last() =~= full.take(i as int));
            assert(full.take(i + 1).last() == full[i as int]);
        }
    }
    proof {
        assert(lines.deep_view().take(n as int) =~= lines.deep_view());
    }
    s
}

/// The exit code recorded for a child: its own, or `-1` when it was
/// terminated without one.
pub fn exit_code_or_default(code: Option<i32>) -> (r: i32)
    ensures
        r as int == (match code {
            Some(c) => c as int,
            None => -1,
        }),
{
    match code {
        Some(c) => c,
        None => -1,
    }
}

} // verus!
