use shelly::process_manager::{ProcessManager, ProcessState, JOIN_SUMMARY_CHARS,
    RECORD_MAX_AGE_MILLIS};
use shelly::runtime::{passthrough_summary, SummaryResult, TruncationInfo};

fn no_summary() -> SummaryResult {
    SummaryResult { summary: None, truncation: None }
}

#[test]
fn echo_lifecycle_records_output_and_exit_code() {
    let mut pm = ProcessManager::new();
    let id = pm.start_process("echo hello".to_string(), "/tmp/out.txt".to_string(), 1000);
    assert_eq!(id.0.len(), 36);
    pm.register_handle(&id);

    let summary = passthrough_summary("hello\n", "");
    pm.update_process_output(&id, "hello\n", "", &summary);

    let write = pm.complete_process(&id, 0, 2000).expect("output file should be written");
    assert_eq!(write.0, "/tmp/out.txt");
    assert!(write.1.contains("Exit Code: 0"));
    assert!(write.1.contains("hello"));

    let update = pm.join_process(&id).expect("known id");
    assert_eq!(update.status, ProcessState::Completed { exit_code: 0 });
    assert_eq!(update.incremental_summary, "hello\n");
}

#[test]
fn output_file_text_matches_exact_format() {
    let mut pm = ProcessManager::new();
    let id = pm.start_process("x".to_string(), "f".to_string(), 0);
    pm.update_process_output(&id, "out\n", "err\n", &passthrough_summary("out\n", "err\n"));
    let write = pm.complete_process(&id, 3, 1).unwrap();
    assert_eq!(write.1, "Exit Code: 3\n\n=== STDOUT ===\nout\n\n\n=== STDERR ===\nerr\n");
}

#[test]
fn join_drains_pending_summary() {
    let mut pm = ProcessManager::new();
    let id = pm.start_process("cmd".to_string(), "f".to_string(), 0);
    pm.update_process_output(&id, "abc", "", &passthrough_summary("abc", ""));

    let first = pm.join_process(&id).unwrap();
    assert_eq!(first.incremental_summary, "abc");

    let second = pm.join_process(&id).unwrap();
    assert_eq!(second.incremental_summary, "");

    pm.update_process_output(&id, "def", "", &passthrough_summary("def", ""));
    let third = pm.join_process(&id).unwrap();
    assert_eq!(third.incremental_summary, "def");
}

#[test]
fn join_caps_summary_to_trailing_chars() {
    let mut pm = ProcessManager::new();
    let id = pm.start_process("cmd".to_string(), "f".to_string(), 0);
    let long: String = "x".repeat(JOIN_SUMMARY_CHARS + 50) + "tail";
    pm.update_process_output(&id, "", "", &passthrough_summary(&long, ""));
    let update = pm.join_process(&id).unwrap();
    assert_eq!(update.incremental_summary.chars().count(), JOIN_SUMMARY_CHARS);
    assert!(update.incremental_summary.ends_with("tail"));
}

#[test]
fn join_unknown_id_returns_nothing() {
    let mut pm = ProcessManager::new();
    let id = pm.start_process("cmd".to_string(), "f".to_string(), 0);
    let other = shelly::process_manager::ProcessId("not-a-real-id".to_string());
    assert!(pm.join_process(&other).is_none());
    assert!(pm.join_process(&id).is_some());
}

#[test]
fn cancel_returns_true_once_then_false() {
    let mut pm = ProcessManager::new();
    let id = pm.start_process("sleep 60".to_string(), "f".to_string(), 0);
    pm.register_handle(&id);
    assert!(pm.cancel_process(&id, 100));
    let status = pm.get_process_status(&id).unwrap();
    assert_eq!(status.state, ProcessState::Cancelled);
    assert!(!pm.cancel_process(&id, 200));
}

#[test]
fn cancel_without_registered_handle_fails() {
    let mut pm = ProcessManager::new();
    let id = pm.start_process("sleep 60".to_string(), "f".to_string(), 0);
    assert!(!pm.cancel_process(&id, 100));
    let status = pm.get_process_status(&id).unwrap();
    assert_eq!(status.state, ProcessState::Running);
}

#[test]
fn completed_record_ignores_late_transitions() {
    let mut pm = ProcessManager::new();
    let id = pm.start_process("cmd".to_string(), "f".to_string(), 0);
    pm.register_handle(&id);
    assert!(pm.complete_process(&id, 0, 10).is_some());
    assert!(!pm.cancel_process(&id, 20));
    assert!(pm.fail_process(&id, "late".to_string(), 30).is_none());
    let status = pm.get_process_status(&id).unwrap();
    assert_eq!(status.state, ProcessState::Completed { exit_code: 0 });
}

#[test]
fn status_is_read_only_after_terminal_transition() {
    let mut pm = ProcessManager::new();
    let id = pm.start_process("echo hi".to_string(), "f".to_string(), 42);
    pm.update_process_output(&id, "hi\n", "", &passthrough_summary("hi\n", ""));
    pm.complete_process(&id, 0, 50);
    let a = pm.get_process_status(&id).unwrap();
    let b = pm.get_process_status(&id).unwrap();
    assert_eq!(a.state, b.state);
    assert_eq!(a.command, b.command);
    assert_eq!(a.started_at, b.started_at);
    assert_eq!(a.stdout_length, b.stdout_length);
    assert_eq!(a.stderr_length, b.stderr_length);
    assert_eq!(a.output_file, b.output_file);
}

#[test]
fn status_reports_lengths_not_bodies() {
    let mut pm = ProcessManager::new();
    let id = pm.start_process("echo".to_string(), "f".to_string(), 0);
    pm.update_process_output(&id, "hello world from test\n", "",
        &passthrough_summary("hello world from test\n", ""));
    pm.complete_process(&id, 0, 1);
    let status = pm.get_process_status(&id).unwrap();
    assert!(status.stdout_length > 0);
    assert_eq!(status.stdout_length, "hello world from test\n".chars().count());
    assert_eq!(status.stderr_length, 0);
    assert_eq!(status.command, "echo");
}

#[test]
fn failed_spawn_reports_failed_state() {
    let mut pm = ProcessManager::new();
    let id = pm.start_process("nonexistent-command-that-should-not-exist".to_string(),
        "f".to_string(), 0);
    pm.register_handle(&id);
    let write = pm.fail_process(&id, "No such file or directory".to_string(), 5);
    assert!(write.is_some());
    let status = pm.get_process_status(&id).unwrap();
    assert!(matches!(status.state, ProcessState::Failed { .. }));
}

#[test]
fn failed_record_still_writes_captured_output() {
    let mut pm = ProcessManager::new();
    let id = pm.start_process("cmd".to_string(), "f".to_string(), 0);
    pm.update_process_output(&id, "partial\n", "", &passthrough_summary("partial\n", ""));
    let write = pm.fail_process(&id, "pipe broke".to_string(), 5).unwrap();
    assert!(write.1.contains("Exit Code: -1"));
    assert!(write.1.contains("partial"));
}

#[test]
fn final_summary_replaces_pending_summary() {
    let mut pm = ProcessManager::new();
    let id = pm.start_process("cargo build".to_string(), "f".to_string(), 0);
    pm.update_process_output(&id, "Compiling...\n", "", &no_summary());
    let final_summary = SummaryResult {
        summary: Some("1 error".to_string()),
        truncation: Some(TruncationInfo {
            truncated: true,
            reason: Some("filtered_noise".to_string()),
            description: None,
        }),
    };
    pm.final_process_summary(&id, &final_summary);
    assert!(pm.reported_truncation(&id));
    pm.complete_process(&id, 1, 1);
    let update = pm.join_process(&id).unwrap();
    assert_eq!(update.incremental_summary, "1 error");
}

#[test]
fn buffering_handler_leaves_summary_empty() {
    let mut pm = ProcessManager::new();
    let id = pm.start_process("cmd".to_string(), "f".to_string(), 0);
    pm.update_process_output(&id, "line\n", "", &no_summary());
    let (stdout, stderr) = pm.raw_output(&id).unwrap();
    assert_eq!(stdout, "line\n");
    assert_eq!(stderr, "");
    let update = pm.join_process(&id).unwrap();
    assert_eq!(update.incremental_summary, "");
}

#[test]
fn cleanup_evicts_only_stale_terminal_records() {
    let mut pm = ProcessManager::new();
    let old_done = pm.start_process("a".to_string(), "f".to_string(), 0);
    let fresh_done = pm.start_process("b".to_string(), "f".to_string(), 0);
    let running = pm.start_process("c".to_string(), "f".to_string(), 0);
    pm.complete_process(&old_done, 0, 1000);
    pm.complete_process(&fresh_done, 0, 5_000_000);
    let now = 1000 + RECORD_MAX_AGE_MILLIS + 1;
    pm.cleanup(now);
    assert!(pm.get_process_status(&old_done).is_none());
    assert!(pm.get_process_status(&fresh_done).is_some());
    assert!(pm.get_process_status(&running).is_some());
}

#[test]
fn status_of_unknown_id_is_nothing() {
    let mut pm = ProcessManager::new();
    let _ = pm.start_process("cmd".to_string(), "f".to_string(), 0);
    let other = shelly::process_manager::ProcessId("unknown".to_string());
    assert!(pm.get_process_status(&other).is_none());
    assert!(pm.raw_output(&other).is_none());
    assert!(!pm.reported_truncation(&other));
}

#[test]
fn process_ids_are_distinct() {
    let a = shelly::process_manager::ProcessId::new();
    let b = shelly::process_manager::ProcessId::new();
    assert_eq!(a.0.chars().count(), 36);
    assert_eq!(b.0.chars().count(), 36);
    assert_ne!(a.0, b.0);
}

#[test]
fn last_n_chars_keeps_trailing_characters() {
    assert_eq!(shelly::process_manager::last_n_chars("hello", 3), "llo");
    assert_eq!(shelly::process_manager::last_n_chars("hi", 5), "hi");
    assert_eq!(shelly::process_manager::last_n_chars("", 5), "");
    assert_eq!(shelly::process_manager::last_n_chars("abc", 0), "");
}
