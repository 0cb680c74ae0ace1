//! The retry policy, its spacing and its predicate.

use std::sync::{Arc, Mutex};

use procpilot::os::{ExitStatus, IoError, IoErrorKind, OsText};
use procpilot::retry::{Backoff, Retries};
use procpilot::time::Duration;
use procpilot::{default_transient, CmdDisplay, RetryPolicy, RunError};

fn cd(prog: &str) -> CmdDisplay {
    CmdDisplay::new(OsText::from_str(prog), vec![], false)
}

fn fake_non_zero(stderr: &str) -> RunError {
    RunError::NonZeroExit {
        command: cd("x"),
        status: ExitStatus::from_raw(256),
        stdout: vec![],
        stderr: stderr.to_string(),
        attempts: 1,
    }
}

fn fake_spawn() -> RunError {
    RunError::Spawn {
        command: cd("x"),
        source: IoError::new(IoErrorKind::NotFound, "missing"),
    }
}

fn fake_timeout() -> RunError {
    RunError::Timeout {
        command: cd("x"),
        elapsed: Duration::from_secs(30),
        stdout: vec![],
        stderr: String::new(),
        attempts: 1,
    }
}

#[test]
fn default_transient_retries_stale() {
    assert!(default_transient(&fake_non_zero("The working copy is stale")));
}

#[test]
fn default_transient_retries_lock() {
    assert!(default_transient(&fake_non_zero(
        "fatal: Unable to create '/repo/.git/index.lock'"
    )));
}

#[test]
fn default_transient_skips_other_nonzero() {
    assert!(!default_transient(&fake_non_zero("invalid revision")));
    assert!(!default_transient(&fake_non_zero("")));
    assert!(!default_transient(&fake_non_zero("stal e .loc k")));
}

#[test]
fn default_transient_skips_spawn() {
    assert!(!default_transient(&fake_spawn()));
}

#[test]
fn default_transient_skips_timeout() {
    assert!(!default_transient(&fake_timeout()));
    let cancelled = RunError::Cancelled {
        command: cd("x"),
        stdout: vec![],
        stderr: "stale".to_string(),
        attempts: 1,
    };
    assert!(!default_transient(&cancelled));
}

#[test]
fn custom_predicate() {
    let policy = RetryPolicy::default().when(|err| match err {
        RunError::NonZeroExit { stderr, .. } => stderr.contains("network"),
        _ => false,
    });
    assert!(policy.should_retry(&fake_non_zero("network unreachable")));
    assert!(!policy.should_retry(&fake_non_zero(".lock")));
}

#[test]
fn debug_does_not_panic() {
    let _ = RetryPolicy::default().debug();
    assert_eq!(
        RetryPolicy::default().debug(),
        "RetryPolicy { backoff: \"<ExponentialBuilder>\", predicate: \"<closure>\" }"
    );
}

/// The delays of a policy that is asked for as long as it grants any.
fn delays(policy: RetryPolicy) -> Vec<u128> {
    let mut retries = Retries::start(policy);
    let mut out = Vec::new();
    loop {
        let (delay, rest) = retries.after_failure(&fake_non_zero("stale"));
        retries = rest;
        match delay {
            Some(d) => out.push(d.nanos),
            None => return out,
        }
    }
}

const MS: u128 = 1_000_000;

/// Delays are computed in single-precision seconds.
fn near(got: u128, ideal: u128) -> bool {
    got.abs_diff(ideal) * 1_000_000 <= ideal + 1_000_000
}

fn settings(max_times: Option<usize>) -> Backoff {
    Backoff {
        min_delay: 50_000_000,
        max_delay: Some(150_000_000),
        max_times,
        total_delay: None,
        jitter: false,
    }
}

#[test]
fn delays_double_up_to_the_cap() {
    let got = delays(RetryPolicy::with_settings(settings(Some(4))));
    assert_eq!(got.len(), 4);
    assert_eq!(got[0], 50 * MS);
    assert!(near(got[1], 100 * MS));
    assert_eq!(got[2], 150 * MS);
    assert_eq!(got[3], 150 * MS);
    let uncapped = Backoff { max_delay: None, ..settings(Some(3)) };
    let got = delays(RetryPolicy::with_settings(uncapped));
    assert_eq!(got.len(), 3);
    assert_eq!(got[0], 50 * MS);
    assert!(near(got[1], 100 * MS) && near(got[2], 200 * MS));
}

#[test]
fn the_total_bounds_the_sum_of_the_delays() {
    let bounded = Backoff { total_delay: Some(160_000_000), ..settings(None) };
    let got = delays(RetryPolicy::with_settings(bounded));
    assert_eq!(got.len(), 2);
    assert!(got[0] == 50 * MS && near(got[1], 100 * MS));
}

#[test]
fn the_default_policy_pauses_three_times_with_jitter() {
    for _ in 0..20 {
        let got = delays(RetryPolicy::default());
        assert_eq!(got.len(), 3);
        assert!(100 * MS <= got[0] && got[0] <= 201 * MS, "{got:?}");
        assert!(199 * MS <= got[1] && got[1] <= 401 * MS, "{got:?}");
        assert!(399 * MS <= got[2] && got[2] <= 801 * MS, "{got:?}");
    }
}

#[test]
fn a_backoff_of_the_outside_builder_is_taken_as_it_is() {
    let builder = backon::ExponentialBuilder::default()
        .with_factor(3.0)
        .with_min_delay(std::time::Duration::from_millis(10))
        .with_max_times(3);
    let got = delays(RetryPolicy::with_backoff(builder));
    assert_eq!(got.len(), 3);
    assert_eq!(got[0], 10 * MS);
    assert!(29 * MS < got[1] && got[1] < 31 * MS);
    assert!(89 * MS < got[2] && got[2] < 91 * MS);
}

#[test]
fn a_declined_error_uses_up_no_delay() {
    let asked = Arc::new(Mutex::new(0));
    let counter = asked.clone();
    let policy = RetryPolicy::with_settings(settings(Some(2))).when(move |_| {
        let mut n = counter.lock().unwrap();
        *n += 1;
        *n != 2
    });
    let retries = Retries::start(policy.clone());
    let err = fake_non_zero("");
    let (first, retries) = retries.after_failure(&err);
    let (second, retries) = retries.after_failure(&err);
    let (third, retries) = retries.after_failure(&err);
    let (fourth, retries) = retries.after_failure(&err);
    let (fifth, _) = retries.after_failure(&err);
    assert_eq!(first, Some(Duration::from_millis(50)));
    assert_eq!(second, None);
    assert!(near(third.unwrap().nanos, 100 * MS));
    assert_eq!(fourth, None);
    assert_eq!(fifth, None);
    assert_eq!(*asked.lock().unwrap(), 5);
}
