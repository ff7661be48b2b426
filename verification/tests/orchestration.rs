use std::collections::HashMap;
use shelly::process_manager::{ProcessId, ProcessState, ProcessUpdate};
use shelly::runtime::PrepareResult;
use shelly::{conclude_execution, default_join_timeout, default_timeout, merge_env,
    resolve_command, ExecuteRequest, ExecutedCommand, ProcessAction, SUMMARY_MAX_CHARS};

fn request(cmd: &str, args: &[&str]) -> ExecuteRequest {
    ExecuteRequest {
        cmd: cmd.to_string(),
        args: args.iter().map(|a| a.to_string()).collect(),
        settings: HashMap::new(),
        exact: false,
        working_dir: "/tmp".to_string(),
        env: Vec::new(),
    }
}

fn executed(cmd: &str, args: &[&str]) -> ExecutedCommand {
    ExecutedCommand {
        cmd: cmd.to_string(),
        args: args.iter().map(|a| a.to_string()).collect(),
        env: Vec::new(),
        working_dir: "/tmp".to_string(),
    }
}

fn pid() -> ProcessId {
    ProcessId("test-id".to_string())
}

#[test]
fn command_string_joins_cmd_and_args() {
    let req = request("git", &["commit", "-m", "test message"]);
    assert_eq!(req.command(), "git commit -m test message");
    let ex = executed("echo", &["hello"]);
    assert_eq!(ex.command(), "echo hello");
    let bare = executed("ls", &[]);
    assert_eq!(bare.command(), "ls");
}

#[test]
fn completed_result_carries_child_exit_code() {
    let update = ProcessUpdate {
        incremental_summary: "hello\n".to_string(),
        status: ProcessState::Completed { exit_code: 0 },
    };
    let r = conclude_execution(&update, "/tmp/f".to_string(), executed("echo", &["hello"]),
        pid(), false);
    assert_eq!(r.exit_code, 0);
    assert!(!r.is_running);
    assert!(r.available_actions.is_empty());
    assert!(r.summary.contains("hello"));
    assert_eq!(r.output_file, "/tmp/f");
    assert_eq!(r.truncation_reason, Some("ignore".to_string()));
    assert!(!r.truncated);
}

#[test]
fn running_result_offers_all_actions() {
    let update = ProcessUpdate {
        incremental_summary: "Starting\n".to_string(),
        status: ProcessState::Running,
    };
    let r = conclude_execution(&update, "/tmp/f".to_string(), executed("bash", &["-c", "x"]),
        pid(), false);
    assert_eq!(r.exit_code, -1);
    assert!(r.is_running);
    assert_eq!(r.available_actions, vec![ProcessAction::Join, ProcessAction::Cancel,
        ProcessAction::Status]);
    assert!(r.summary.starts_with(
        "Command is still running - use join_process to continue monitoring\n"));
    assert!(r.summary.contains("Starting"));
    assert_eq!(r.truncation_reason, Some("timeout".to_string()));
    assert_eq!(r.process_id, Some(pid()));
}

#[test]
fn cancelled_and_failed_results_use_default_exit_code() {
    let cancelled = ProcessUpdate {
        incremental_summary: String::new(),
        status: ProcessState::Cancelled,
    };
    let r = conclude_execution(&cancelled, "f".to_string(), executed("sleep", &["60"]), pid(),
        false);
    assert_eq!(r.exit_code, -1);
    assert!(!r.is_running);
    assert!(r.available_actions.is_empty());

    let failed = ProcessUpdate {
        incremental_summary: String::new(),
        status: ProcessState::Failed { error: "spawn failed".to_string() },
    };
    let r = conclude_execution(&failed, "f".to_string(), executed("nope", &[]), pid(), false);
    assert_eq!(r.exit_code, -1);
    assert!(!r.is_running);
    assert!(r.summary.contains("spawn failed"));
}

#[test]
fn empty_completed_summary_falls_back_to_no_output() {
    let update = ProcessUpdate {
        incremental_summary: String::new(),
        status: ProcessState::Completed { exit_code: 0 },
    };
    let r = conclude_execution(&update, "f".to_string(), executed("true", &[]), pid(), false);
    assert_eq!(r.summary, "No output");
    assert!(!r.truncated);
}

#[test]
fn oversized_summary_is_capped_with_note() {
    let long = "a".repeat(SUMMARY_MAX_CHARS + 500);
    let update = ProcessUpdate {
        incremental_summary: long,
        status: ProcessState::Completed { exit_code: 0 },
    };
    let r = conclude_execution(&update, "/tmp/full.txt".to_string(), executed("big", &[]),
        pid(), false);
    assert!(r.truncated);
    assert_eq!(r.truncation_reason, Some("content_too_large".to_string()));
    let body: String = r.summary.chars().take(SUMMARY_MAX_CHARS).collect();
    assert_eq!(body, "a".repeat(SUMMARY_MAX_CHARS));
    let note: String = r.summary.chars().skip(SUMMARY_MAX_CHARS).collect();
    assert!(note.starts_with("\n[Summary truncated"));
    assert!(note.contains("/tmp/full.txt"));
}

#[test]
fn handler_reported_truncation_disables_the_cap() {
    let long = "a".repeat(SUMMARY_MAX_CHARS + 500);
    let update = ProcessUpdate {
        incremental_summary: long.clone(),
        status: ProcessState::Completed { exit_code: 0 },
    };
    let r = conclude_execution(&update, "f".to_string(), executed("big", &[]), pid(), true);
    assert!(!r.truncated);
    assert_eq!(r.summary, long);
}

#[test]
fn handler_rewrite_replaces_command_and_args() {
    let req = request("shelly-test", &[]);
    let prep = PrepareResult {
        cmd: "echo".to_string(),
        args: vec!["Shelly".to_string(), "is".to_string(), "~NOT~".to_string(),
            "working!".to_string()],
        env: Vec::new(),
    };
    let ex = resolve_command(&req, Some(&prep));
    assert_eq!(ex.cmd, "echo");
    assert_eq!(ex.command(), "echo Shelly is ~NOT~ working!");
    assert_eq!(ex.working_dir, "/tmp");
}

#[test]
fn exact_mode_keeps_request_command() {
    let req = request("echo", &["hello"]);
    let ex = resolve_command(&req, None);
    assert_eq!(ex.cmd, "echo");
    assert_eq!(ex.args, vec!["hello".to_string()]);
}

#[test]
fn handler_env_overrides_request_env() {
    let request_env = vec![("A".to_string(), "1".to_string()),
        ("B".to_string(), "2".to_string())];
    let handler_env = vec![("B".to_string(), "3".to_string()),
        ("C".to_string(), "4".to_string())];
    let merged = merge_env(&request_env, &handler_env);
    assert_eq!(merged, vec![("A".to_string(), "1".to_string()),
        ("B".to_string(), "3".to_string()), ("C".to_string(), "4".to_string())]);
}

#[test]
fn default_timeouts_are_ten_seconds() {
    assert_eq!(default_timeout(), 10_000);
    assert_eq!(default_join_timeout(), 10_000);
}
