//! A command-execution proxy core: a process supervisor that tracks in-flight
//! commands, aggregates their output and publishes completion; the pure logic
//! of the streaming executor and the handler script runtime; and the
//! orchestration rules that turn a supervisor update into an execution result.
use vstd::prelude::*;

pub mod executor;
pub mod handler;
pub mod output;
pub mod process_manager;
pub mod runtime;
pub mod testing;
pub mod text;

verus! {

use std::collections::HashMap;
use vstd::string::StringExecFns;
use vstd::string::StrSliceExecFns;
use crate::process_manager::{ProcessId, ProcessState, ProcessUpdate};
use crate::runtime::PrepareResult;

/// The concatenation `cmd arg1 arg2 ...` with single spaces, used for display
/// and for naming output files.
pub open spec fn spec_command_string(cmd: Seq<char>, args: Seq<Seq<char>>) -> Seq<char>
    decreases args.len(),
{
    if args.len() == 0 {
        cmd
    } else {
        spec_command_string(cmd, args.drop_last()) + seq![' '] + args.last()
    }
}

/// The command and argument vector that were actually run, after any handler
/// rewrite, together with the environment and working directory handed to the
/// child.
pub struct ExecutedCommand {
    pub cmd: String,
    pub args: Vec<String>,
    pub env: Vec<(String, String)>,
    pub working_dir: String,
}

impl ExecutedCommand {
    /// The full command as a single display string.
    pub fn command(&self) -> (r: String)
        ensures
            r@ == spec_command_string(self.cmd@, self.args.deep_view()),
    {
        join_command_string(&self.cmd, &self.args)
    }
}

/// Joins a command name and its arguments with single spaces.
pub fn join_command_string(cmd: &String, args: &Vec<String>) -> (r: String)
    ensures
        r@ == spec_command_string(cmd@, args.deep_view()),
{
    let mut s = cmd.clone();
    let n = args.len();
    for i in 0..n
        invariant
            n == args.len(),
            s@ == spec_command_string(cmd@, args.deep_view().take(i as int)),
    {
        s.append(" ");
        s.append(args[i].as_str());
        proof {
            reveal_strlit(" ");
            assert(" "@ =~= seq![' ']);
            let full = args.deep_view();
            assert(full.take(i + 1).drop_last() =~= full.take(i as int));
            assert(full.take(i + 1).last() == full[i as int]);
        }
    }
    proof {
        assert(args.deep_view().take(n as int) =~= args.deep_view());
    }
    s
}

/// One execution request as the caller hands it in. `exact == true` disables
/// handler resolution: the command runs as given.
pub struct ExecuteRequest {
    pub cmd: String,
    pub args: Vec<String>,
    pub settings: HashMap<String, serde_json::Value>,
    pub exact: bool,
    pub working_dir: String,
    pub env: Vec<(String, String)>,
}

impl ExecuteRequest {
    /// The full command as a single display string.
    pub fn command(&self) -> (r: String)
        ensures
            r@ == spec_command_string(self.cmd@, self.args.deep_view()),
    {
        join_command_string(&self.cmd, &self.args)
    }
}

/// An action the caller may take on an execution that is still running.
#[derive(Debug, Clone, Copy, PartialEq, Eq, Structural)]
pub enum ProcessAction {
    Join,
    Cancel,
    Status,
}

/// What `execute` hands back: the summary, where the full output lives, the
/// exit code, and — for an execution still running — the process identifier
/// and the actions available on it.
pub struct ExecutionResult {
    pub summary: String,
    pub output_file: String,
    pub exit_code: i32,
    pub truncated: bool,
    pub truncation_reason: Option<String>,
    pub executed_command: ExecutedCommand,
    pub process_id: Option<ProcessId>,
    pub is_running: bool,
    pub available_actions: Vec<ProcessAction>,
}

/// Longest summary handed back without the fallback cap taking effect.
pub const SUMMARY_MAX_CHARS: usize = 10000;

/// Default timeout, in milliseconds, of an `execute` call.
pub fn default_timeout() -> (r: u64)
    ensures
        r == 10000,
{
    10000
}

/// Default timeout, in milliseconds, of a join call.
pub fn default_join_timeout() -> (r: u64)
    ensures
        r == 10000,
{
    10000
}

/// Whether a key occurs in an environment list.
pub open spec fn spec_env_has_key(env: Seq<(String, String)>, key: Seq<char>) -> bool {
    exists|i: int| 0 <= i < env.len() && (#[trigger] env[i]).0@ == key
}

/// The merge of the request's environment with the handler's: the handler
/// wins on every key it sets; the request's remaining entries stay, in
/// order, ahead of the handler's.
pub open spec fn spec_merged_env(
    request_env: Seq<(String, String)>,
    handler_env: Seq<(String, String)>,
) -> Seq<(String, String)> {
    request_env.filter(|p: (String, String)| !spec_env_has_key(handler_env, p.0@)) + handler_env
}

fn env_has_key(env: &Vec<(String, String)>, key: &String) -> (r: bool)
    ensures
        r == spec_env_has_key(env@, key@),
{
    let n = env.len();
    for i in 0..n
        invariant
            n == env@.len(),
            forall|k: int| 0 <= k < i ==> (#[trigger] env@[k]).0@ != key@,
    {
        if env[i].0 == *key {
            return true;
        }
    }
    false
}

/// Merges the request's environment with the entries a handler's `prepare`
/// returned; an entry of the handler overrides the request's entry of the
/// same key.
pub fn merge_env(request_env: &Vec<(String, String)>, handler_env: &Vec<(String, String)>) -> (r:
    Vec<(String, String)>)
    ensures
        r@ == spec_merged_env(request_env@, handler_env@),
{
    let ghost pred = |p: (String, String)| !spec_env_has_key(handler_env@, p.0@);
    let mut out: Vec<(String, String)> = Vec::new();
    let n = request_env.len();
    for i in 0..n
        invariant
            n == request_env@.len(),
            pred == (|p: (String, String)| !spec_env_has_key(handler_env@, p.0@)),
            out@ == request_env@.take(i as int).filter(pred),
    {
        let keep = !env_has_key(handler_env, &request_env[i].0);
        if keep {
            out.push((request_env[i].0.clone(), request_env[i].1.clone()));
        }
        proof {
            reveal(Seq::filter);
            let upto = request_env@.take(i + 1);
            assert(upto.drop_last() =~= request_env@.take(i as int));
            assert(upto.last() == request_env@[i as int]);
            assert(out@ == upto.filter(pred));
        }
    }
    proof {
        assert(request_env@.take(n as int) =~= request_env@);
    }
    let m = handler_env.len();
    for j in 0..m
        invariant
            m == handler_env@.len(),
            out@ == request_env@.filter(pred) + handler_env@.take(j as int),
            pred == (|p: (String, String)| !spec_env_has_key(handler_env@, p.0@)),
    {
        out.push((handler_env[j].0.clone(), handler_env[j].1.clone()));
        proof {
            assert(request_env@.filter(pred) + handler_env@.take(j + 1) =~= (request_env@.filter(
                pred,
            ) + handler_env@.take(j as int)).push(handler_env@[j as int]));
        }
    }
    proof {
        assert(handler_env@.take(m as int) =~= handler_env@);
    }
    out
}

/// The command that will actually run: the handler's rewrite when one
/// matched and prepared, else the request's own command; the environment is
/// the request's, with the handler's entries overriding.
pub fn resolve_command(request: &ExecuteRequest, prep: Option<&PrepareResult>) -> (r:
    ExecutedCommand)
    ensures
        (match prep {
            Some(p) => {
                &&& r.cmd@ == p.cmd@
                &&& r.args.deep_view() == p.args.deep_view()
                &&& r.env@ == spec_merged_env(request.env@, p.env@)
            },
            None => {
                &&& r.cmd@ == request.cmd@
                &&& r.args.deep_view() == request.args.deep_view()
                &&& r.env@ == spec_merged_env(request.env@, Seq::<(String, String)>::empty())
            },
        }),
        r.working_dir@ == request.working_dir@,
{
    match prep {
        Some(p) => ExecutedCommand {
            cmd: p.cmd.clone(),
            args: clone_string_vec(&p.args),
            env: merge_env(&request.env, &p.env),
            working_dir: request.working_dir.clone(),
        },
        None => {
            let empty: Vec<(String, String)> = Vec::new();
            ExecutedCommand {
                cmd: request.cmd.clone(),
                args: clone_string_vec(&request.args),
                env: merge_env(&request.env, &empty),
                working_dir: request.working_dir.clone(),
            }
        },
    }
}

/// The prefix of the summary handed back while the execution is still
/// running.
pub open spec fn spec_running_prefix() -> Seq<char> {
    "Command is still running - use join_process to continue monitoring\n"@
}

/// The note the fallback cap appends, pointing at the full output file.
pub open spec fn spec_truncation_note(output_file: Seq<char>) -> Seq<char> {
    "\n[Summary truncated; full output in "@ + output_file + "]"@
}

/// The summary before the fallback cap, by the state the join observed: a
/// running execution gets the standard prefix ahead of the incremental
/// summary; a completed one hands the incremental summary through, with a
/// `No output` fallback when it is empty; a cancelled one hands it through
/// bare; a failed one reports the recorded error.
pub open spec fn spec_base_summary(status: ProcessState, incremental: Seq<char>) -> Seq<char> {
    match status {
        ProcessState::Running => spec_running_prefix() + incremental,
        ProcessState::Completed { .. } => if incremental.len() == 0 {
            "No output"@
        } else {
            incremental
        },
        ProcessState::Cancelled => incremental,
        ProcessState::Failed { error } => error@,
    }
}

/// The fallback cap: when the handler did not itself report truncation and
/// the summary exceeds [`SUMMARY_MAX_CHARS`] characters, it is cut to exactly
/// that many and the note referencing the output file is appended.
pub open spec fn spec_capped_summary(
    base: Seq<char>,
    output_file: Seq<char>,
    handler_truncated: bool,
) -> Seq<char> {
    if !handler_truncated && base.len() > SUMMARY_MAX_CHARS {
        base.take(SUMMARY_MAX_CHARS as int) + spec_truncation_note(output_file)
    } else {
        base
    }
}

/// The exit code an execution result carries: the child's own code exactly
/// when the join observed `Completed`, and `-1` for every other state.
pub open spec fn spec_result_exit_code(status: ProcessState) -> int {
    match status {
        ProcessState::Completed { exit_code } => exit_code as int,
        _ => -1,
    }
}

/// The truncation reason an execution result carries.
pub open spec fn spec_truncation_reason(status: ProcessState, capped: bool) -> Option<Seq<char>> {
    if capped {
        Some("content_too_large"@)
    } else {
        match status {
            ProcessState::Running => Some("timeout"@),
            ProcessState::Completed { .. } => Some("ignore"@),
            _ => None,
        }
    }
}

/// Builds the execution result from what a join observed. The ensures pin
/// the whole result down: the exit code equals the child's exactly when the
/// state is `Completed` and is `-1` otherwise; actions are available exactly
/// when the execution is still running; the summary is the state's base
/// summary under the fallback cap.
pub fn conclude_execution(
    update: &ProcessUpdate,
    output_file: String,
    executed_command: ExecutedCommand,
    process_id: ProcessId,
    handler_truncated: bool,
) -> (r: ExecutionResult)
    ensures
        r.summary@ == spec_capped_summary(
            spec_base_summary(update.status, update.incremental_summary@),
            output_file@,
            handler_truncated,
        ),
        r.output_file == output_file,
        r.exit_code as int == spec_result_exit_code(update.status),
        update.status matches ProcessState::Completed { exit_code } ==> r.exit_code == exit_code,
        !(update.status is Completed) ==> r.exit_code == -1,
        r.is_running == (update.status is Running),
        r.available_actions@ == (if update.status is Running {
            seq![ProcessAction::Join, ProcessAction::Cancel, ProcessAction::Status]
        } else {
            Seq::<ProcessAction>::empty()
        }),
        (r.available_actions@.len() > 0) == r.is_running,
        r.executed_command == executed_command,
        r.process_id == Some(process_id),
        r.truncated == (!handler_truncated && spec_base_summary(
            update.status,
            update.incremental_summary@,
        ).len() > SUMMARY_MAX_CHARS),
        (match r.truncation_reason {
            Some(s) => spec_truncation_reason(update.status, r.truncated) == Some(s@),
            None => spec_truncation_reason(update.status, r.truncated) is None,
        }),
{
    let base: String = match &update.status {
        ProcessState::Running => {
            let mut s = "Command is still running - use join_process to continue monitoring\n".to_owned();
            s.append(update.incremental_summary.as_str());
            s
        },
        ProcessState::Completed { .. } => {
            if update.incremental_summary.as_str().is_empty() {
                "No output".to_owned()
            } else {
                update.incremental_summary.clone()
            }
        },
        ProcessState::Cancelled => update.incremental_summary.clone(),
        ProcessState::Failed { error } => error.clone(),
    };
    let ghost base_spec = spec_base_summary(update.status, update.incremental_summary@);
    let base_len = base.as_str().unicode_len();
    let capped = !handler_truncated && base_len > SUMMARY_MAX_CHARS;
    let summary: String;
    let truncated: bool;
    let truncation_reason: Option<String>;
    if capped {
        let mut s = base.as_str().substring_char(0, SUMMARY_MAX_CHARS).to_owned();
        s.append("\n[Summary truncated; full output in ");
        s.append(output_file.as_str());
        s.append("]");
        proof {
            assert(s@ =~= spec_capped_summary(base_spec, output_file@, handler_truncated));
        }
        summary = s;
        truncated = true;
        truncation_reason = Some("content_too_large".to_owned());
    } else {
        summary = base;
        truncated = false;
        truncation_reason = match &update.status {
            ProcessState::Running => Some("timeout".to_owned()),
            ProcessState::Completed { .. } => Some("ignore".to_owned()),
            ProcessState::Cancelled => None,
            ProcessState::Failed { .. } => None,
        };
    }
    let exit_code: i32 = match &update.status {
        ProcessState::Completed { exit_code } => *exit_code,
        _ => -1,
    };
    let is_running = matches!(&update.status, ProcessState::Running);
    let mut available_actions: Vec<ProcessAction> = Vec::new();
    if is_running {
        available_actions.push(ProcessAction::Join);
        available_actions.push(ProcessAction::Cancel);
        available_actions.push(ProcessAction::Status);
        proof {
            assert(available_actions@ =~= seq![
                ProcessAction::Join,
                ProcessAction::Cancel,
                ProcessAction::Status,
            ]);
        }
    }
    ExecutionResult {
        summary,
        output_file,
        exit_code,
        truncated,
        truncation_reason,
        executed_command,
        process_id: Some(process_id),
        is_running,
        available_actions,
    }
}

/// Copies a vector of strings.
pub fn clone_string_vec(v: &Vec<String>) -> (r: Vec<String>)
    ensures
        r.deep_view() == v.deep_view(),
{
    let mut out: Vec<String> = Vec::new();
    let n = v.len();
    for i in 0..n
        invariant
            n == v@.len(),
            out@.len() == i,
            forall|k: int| 0 <= k < i ==> (#[trigger] out@[k])@ == v@[k]@,
    {
        out.push(v[i].clone());
    }
    proof {
        assert forall|k: int| 0 <= k < n implies out.deep_view()[k] == v.deep_view()[k] by {
            assert(out@[k]@ == v@[k]@);
        }
        assert(out.deep_view() =~= v.deep_view());
    }
    out
}

} // verus!
