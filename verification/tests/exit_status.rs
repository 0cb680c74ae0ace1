//! Exit statuses and the rule that picks one.

use procpilot::os::{ExitStatus, IoError};
use procpilot::outcome::{combine_outcomes, pipefail_status, Outcome};
use procpilot::testing::build_exit_status;
use procpilot::time::Duration;

fn make_status(code: i32) -> ExitStatus {
    // The status word holds the exit code in its second lowest byte.
    ExitStatus::from_raw(code << 8)
}

#[test]
fn spawned_pipefail_rightmost_failure_wins() {
    let s = pipefail_status(&vec![make_status(1), make_status(0), make_status(2)]);
    assert_eq!(s.code(), Some(2));
}

#[test]
fn pipefail_only_failure_wins_over_later_success() {
    let s = pipefail_status(&vec![make_status(7), make_status(0), make_status(0)]);
    assert_eq!(s.code(), Some(7));
}

#[test]
fn pipefail_all_success() {
    let s = pipefail_status(&vec![make_status(0), make_status(0)]);
    assert!(s.success());
}

#[test]
fn a_signal_leaves_no_exit_code() {
    let killed = ExitStatus::from_raw(9);
    assert!(!killed.success());
    assert_eq!(killed.code(), None);
    assert_eq!(ExitStatus::from_raw(0x80 | 11).code(), None);
    assert_eq!(make_status(255).code(), Some(255));
}

#[test]
fn mocked_codes_are_reported() {
    assert_eq!(build_exit_status(42).code(), Some(42));
    assert!(build_exit_status(0).success());
    assert_eq!(build_exit_status(-1).code(), Some(255));
    assert_eq!(build_exit_status(256).code(), Some(0));
    assert!(!build_exit_status(256).success());
}

#[test]
fn outcomes_combine_by_the_rightmost_failure() {
    let chosen = combine_outcomes(vec![
        Outcome::TimedOut(Duration::from_secs(1)),
        Outcome::WaitFailed(IoError::other("gone")),
        Outcome::Exited(make_status(0)),
    ]);
    assert!(matches!(chosen, Outcome::WaitFailed(e) if e.message == "gone"));
    let chosen = combine_outcomes(vec![
        Outcome::Exited(make_status(3)),
        Outcome::TimedOut(Duration::from_secs(2)),
    ]);
    assert!(matches!(chosen, Outcome::TimedOut(d) if d == Duration::from_secs(2)));
    let chosen = combine_outcomes(vec![Outcome::Exited(make_status(3)), Outcome::Cancelled]);
    assert!(matches!(chosen, Outcome::Cancelled));
    let chosen = combine_outcomes(vec![Outcome::Exited(make_status(0))]);
    assert!(chosen.success());
}
