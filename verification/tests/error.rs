//! The error type, its messages, and the bound on captured output.

use procpilot::error::{truncate_suffix, truncate_suffix_string};
use procpilot::os::{ExitStatus, IoError, IoErrorKind, OsText};
use procpilot::time::Duration;
use procpilot::{CmdDisplay, RunError, STREAM_SUFFIX_SIZE};

fn os(s: &str) -> OsText {
    OsText::from_str(s)
}

fn cd(prog: &str, args: &[&str]) -> CmdDisplay {
    CmdDisplay::new(os(prog), args.iter().map(|s| os(s)).collect(), false)
}

fn spawn_error() -> RunError {
    RunError::Spawn {
        command: cd("git", &["status"]),
        source: IoError::new(IoErrorKind::NotFound, "not found"),
    }
}

fn non_zero_exit(stderr: &str) -> RunError {
    RunError::NonZeroExit {
        command: cd("git", &["status"]),
        status: ExitStatus::from_raw(256),
        stdout: Vec::new(),
        stderr: stderr.to_string(),
        attempts: 1,
    }
}

fn timeout_error() -> RunError {
    RunError::Timeout {
        command: cd("git", &["fetch"]),
        elapsed: Duration::from_secs(30),
        stdout: Vec::new(),
        stderr: "Fetching origin".into(),
        attempts: 1,
    }
}

fn cancelled_error() -> RunError {
    RunError::Cancelled {
        command: cd("git", &["log"]),
        stdout: Vec::new(),
        stderr: "Working".into(),
        attempts: 1,
    }
}

/// How the platform renders an exit status, and seconds to one decimal place.
fn detail(err: &RunError) -> String {
    match err {
        RunError::NonZeroExit { status, .. } => format!("exit status: {}", status.code().unwrap()),
        RunError::Timeout { elapsed, .. } => format!("{:.1}", elapsed.nanos as f64 / 1e9),
        _ => String::new(),
    }
}

#[test]
fn program_returns_name() {
    assert_eq!(spawn_error().program(), &os("git"));
    assert_eq!(non_zero_exit("").program(), &os("git"));
    assert_eq!(timeout_error().program(), &os("git"));
    assert_eq!(cancelled_error().program(), &os("git"));
}

#[test]
fn stderr_only_for_completed_or_killed() {
    assert_eq!(spawn_error().stderr(), None);
    assert_eq!(non_zero_exit("boom").stderr(), Some("boom"));
    assert_eq!(timeout_error().stderr(), Some("Fetching origin"));
    assert_eq!(cancelled_error().stderr(), Some("Working"));
}

#[test]
fn stdout_only_for_completed_or_killed() {
    assert!(spawn_error().stdout().is_none());
    assert!(non_zero_exit("").stdout().is_some());
    assert!(timeout_error().stdout().is_some());
    assert!(cancelled_error().stdout().is_some());
}

#[test]
fn exit_status_only_for_non_zero_exit() {
    assert!(spawn_error().exit_status().is_none());
    assert!(non_zero_exit("").exit_status().is_some());
    assert!(timeout_error().exit_status().is_none());
    assert!(cancelled_error().exit_status().is_none());
}

#[test]
fn predicates() {
    assert!(spawn_error().is_spawn_failure());
    assert!(non_zero_exit("").is_non_zero_exit());
    assert!(timeout_error().is_timeout());
    assert!(cancelled_error().is_cancelled());
}

#[test]
fn attempts_default_to_one() {
    assert_eq!(spawn_error().attempts(), 1);
    assert_eq!(non_zero_exit("").attempts(), 1);
    assert_eq!(timeout_error().attempts(), 1);
    assert_eq!(cancelled_error().attempts(), 1);
}

#[test]
fn with_attempts_sets_value_on_retry_aware_variants() {
    assert_eq!(non_zero_exit("").with_attempts(3).attempts(), 3);
    assert_eq!(timeout_error().with_attempts(5).attempts(), 5);
    assert_eq!(cancelled_error().with_attempts(2).attempts(), 2);
}

#[test]
fn with_attempts_noop_on_spawn() {
    // A spawn failure records no attempt, so stamping must not change it.
    assert_eq!(spawn_error().with_attempts(7).attempts(), 1);
}

#[test]
fn display_spawn_failure() {
    let err = spawn_error();
    let msg = err.message(&detail(&err));
    assert!(msg.contains("spawn"));
    assert!(msg.contains("git status"));
    assert_eq!(msg, "failed to spawn `git status`: not found");
}

#[test]
fn display_non_zero_exit_with_stderr() {
    let err = non_zero_exit("something broke");
    let msg = err.message(&detail(&err));
    assert!(msg.contains("git status"));
    assert!(msg.contains("something broke"));
    assert_eq!(msg, "`git status` exited with exit status: 1: something broke");
}

#[test]
fn display_timeout() {
    let err = timeout_error();
    let msg = err.message(&detail(&err));
    assert!(msg.contains("git fetch"));
    assert!(msg.contains("timeout"));
    assert_eq!(msg, "`git fetch` killed after timeout (30.0s); last stderr: Fetching origin");
}

#[test]
fn display_cancelled() {
    let err = cancelled_error();
    let msg = err.message(&detail(&err));
    assert!(msg.contains("git log"));
    assert!(msg.contains("cancelled"));
    assert_eq!(msg, "`git log` cancelled by caller; last stderr: Working");
}

#[test]
fn blank_stderr_is_not_mentioned() {
    let err = non_zero_exit(" \n\t");
    assert_eq!(err.message("exit status: 1"), "`git status` exited with exit status: 1");
    let err = non_zero_exit("\u{a0} padded \u{2003}\n");
    assert_eq!(err.message("exit status: 1"), "`git status` exited with exit status: 1: padded");
}

#[test]
fn error_source_for_spawn() {
    assert!(spawn_error().source().is_some());
    assert_eq!(spawn_error().source().unwrap().kind(), IoErrorKind::NotFound);
}

#[test]
fn error_source_none_for_non_spawn() {
    assert!(non_zero_exit("").source().is_none());
    assert!(timeout_error().source().is_none());
    assert!(cancelled_error().source().is_none());
}

#[test]
fn truncate_suffix_keeps_short_buffers() {
    let v = vec![1, 2, 3];
    assert_eq!(truncate_suffix(v.clone()), v);
}

#[test]
fn truncate_suffix_drops_from_front() {
    let big: Vec<u8> = (0..(STREAM_SUFFIX_SIZE + 100) as u32)
        .map(|n| (n & 0xff) as u8)
        .collect();
    let truncated = truncate_suffix(big.clone());
    assert_eq!(truncated.len(), STREAM_SUFFIX_SIZE);
    assert_eq!(truncated.last(), big.last());
    assert_eq!(truncated[..], big[100..]);
}

#[test]
fn truncate_suffix_string_keeps_short() {
    let s = String::from("hello");
    assert_eq!(truncate_suffix_string(s), "hello");
}

#[test]
fn truncate_suffix_string_drops_from_front() {
    let s = "x".repeat(STREAM_SUFFIX_SIZE + 100);
    let truncated = truncate_suffix_string(s);
    assert_eq!(truncated.len(), STREAM_SUFFIX_SIZE);
}

#[test]
fn truncate_suffix_string_preserves_utf8() {
    // A cut at the bound alone could land inside a two-byte character.
    let s = format!("{}{}", "x".repeat(STREAM_SUFFIX_SIZE), "é".repeat(50));
    let truncated = truncate_suffix_string(s);
    assert!(!truncated.is_empty());
}

#[test]
fn truncation_moves_past_a_character_that_it_would_split() {
    // 4-byte characters behind one byte: the cut lands inside a character.
    let count = STREAM_SUFFIX_SIZE / 4;
    let s = format!("y{}z", "😀".repeat(count));
    let truncated = truncate_suffix_string(s);
    assert_eq!(truncated, format!("{}z", "😀".repeat(count - 1)));
    assert!(truncated.len() <= STREAM_SUFFIX_SIZE);
    assert!(truncated.len() + 4 > STREAM_SUFFIX_SIZE);
    assert_eq!(truncate_suffix_string(truncated.clone()), truncated);
}

#[test]
fn truncation_at_the_bound_is_exact() {
    let exact = vec![7u8; STREAM_SUFFIX_SIZE];
    assert_eq!(truncate_suffix(exact.clone()), exact);
    let mut over = vec![1u8];
    over.extend(exact.iter());
    assert_eq!(truncate_suffix(over), exact);
    assert_eq!(STREAM_SUFFIX_SIZE, 131072);
}

#[test]
fn secret_command_in_display() {
    let cmd_secret = CmdDisplay::new(os("docker"), vec![os("login"), os("hunter2")], true);
    let err = RunError::Spawn {
        command: cmd_secret,
        source: IoError::new(IoErrorKind::NotFound, "missing"),
    };
    let msg = err.message("");
    assert!(!msg.contains("hunter2"), "secret leaked: {msg}");
    assert!(msg.contains("docker"));
    assert!(msg.contains("<secret>"));
}

#[test]
fn system_errors_keep_their_number() {
    let reported = IoError::from_os(26, IoErrorKind::ExecutableFileBusy, "Text file busy");
    let err = RunError::Spawn { command: cd("git", &[]), source: reported.clone() };
    let source = err.source().unwrap();
    assert_eq!(source, &reported);
    assert_eq!(source.raw_os_error(), Some(26));
    assert_eq!(source.kind(), IoErrorKind::ExecutableFileBusy);
    // A category without a name is told apart by the number.
    let looped = IoError::from_os(40, IoErrorKind::Uncategorized, "Too many levels");
    assert_eq!(looped.raw_os_error(), Some(40));
    assert_ne!(looped, IoError::new(IoErrorKind::Uncategorized, "Too many levels"));
    assert_eq!(IoError::new(IoErrorKind::NotFound, "missing").raw_os_error(), None);
    assert_eq!(IoError::other("refused").raw_os_error(), None);
}
