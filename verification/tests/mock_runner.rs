//! The mock runner, as code under test sees it.

use std::sync::{Arc, Mutex};

use procpilot::callbacks::Factory;
use procpilot::os::{IoErrorKind, OsText};
use procpilot::testing::{
    nonzero, ok, ok_str, spawn_error, timeout, MockResult, MockRunner, Responder,
};
use procpilot::time::Duration;
use procpilot::{Cmd, CmdDisplay, RunError, Runner};

fn os(s: &str) -> OsText {
    OsText::from_str(s)
}

fn git(args: &[&str]) -> Cmd {
    Cmd::new(os("git")).args(args.iter().map(|s| os(s)).collect())
}

/// Production-style helper that can be tested without a real `git`.
fn current_branch(runner: &mut dyn Runner, repo: &str) -> Result<String, RunError> {
    let cmd = git(&["branch", "--show-current"]).in_dir(os(repo));
    let out = runner.run(cmd)?;
    Ok(out.stdout_lossy().trim().to_string())
}

fn expect_err(r: Result<procpilot::RunOutput, RunError>) -> RunError {
    match r {
        Ok(_) => panic!("expected an error"),
        Err(e) => e,
    }
}

fn expect_ok(r: Result<procpilot::RunOutput, RunError>) -> procpilot::RunOutput {
    match r {
        Ok(out) => out,
        Err(_) => panic!("expected success"),
    }
}

#[test]
fn mock_returns_canned_stdout() {
    let mut mock = MockRunner::new().expect("git branch --show-current", ok_str("main\n"));
    let branch = match current_branch(&mut mock, "/tmp") {
        Ok(b) => b,
        Err(_) => panic!("ok"),
    };
    assert_eq!(branch, "main");
    mock.verify().expect("all expectations met");
}

#[test]
fn mock_returns_canned_error() {
    let mut mock =
        MockRunner::new().expect("git fetch", nonzero(128, "fatal: unable to access remote"));
    let err = expect_err(mock.run(git(&["fetch"])));
    assert!(err.is_non_zero_exit());
    assert_eq!(err.exit_status().and_then(|s| s.code()), Some(128));
    assert_eq!(err.stderr(), Some("fatal: unable to access remote"));
    // The command that was run stands in the error.
    assert_eq!(err.command().to_string(), "git fetch");
}

#[test]
fn predicate_matcher_inspects_cwd_via_to_rightmost_command() {
    let mut mock = MockRunner::new().expect_when(
        |cmd| {
            let stage = cmd.to_rightmost_command();
            stage.program == OsText::from_str("git")
                && stage.cwd == Some(OsText::from_str("/special-repo"))
        },
        ok_str("on the special repo"),
    );
    let out = expect_ok(mock.run(git(&["status"]).in_dir(os("/special-repo"))));
    assert_eq!(out.stdout_lossy(), "on the special repo");
}

#[test]
fn verify_reports_unmet_expectations() {
    let mut mock = MockRunner::new()
        .expect("git status", ok_str(""))
        .expect("git log", ok_str(""));
    let _ = mock.run(git(&["status"]));
    let report = mock.verify().expect_err("one expectation never matched");
    assert!(report.contains("git log"), "got: {report}");
    assert_eq!(report, "1 unmet MockRunner expectation(s):\n  - display = \"git log\"");
}

#[test]
fn first_match_wins_among_overlapping_expectations() {
    let mut mock = MockRunner::new()
        .expect_when(|_| true, ok_str("first"))
        .expect_when(|_| true, ok_str("second"));
    let a = expect_ok(mock.run(Cmd::new(os("anything"))));
    let b = expect_ok(mock.run(Cmd::new(os("anything"))));
    assert_eq!(a.stdout_lossy(), "first");
    assert_eq!(b.stdout_lossy(), "second");
    mock.verify().unwrap();
}

#[test]
#[should_panic(expected = "no matching expectation")]
fn no_match_panics_by_default() {
    let mut mock = MockRunner::new().expect("git status", ok_str(""));
    if let Err(report) = mock.dispatch(&git(&["log"])) {
        panic!("{report}");
    }
}

#[test]
fn no_match_returns_spawn_error_when_configured() {
    let mut mock = MockRunner::new()
        .error_on_no_match()
        .expect("git status", ok_str(""));
    let err = expect_err(mock.run(git(&["log"])));
    assert!(err.is_spawn_failure());
    assert!(err.command().to_string().contains("git log"));
    let source = err.source().unwrap();
    assert_eq!(source.kind(), IoErrorKind::Other);
    assert_eq!(
        source.message,
        "MockRunner: no matching expectation for command:\n  git log\nregistered:\n  \
         - display = \"git status\" (calls=0, exhausted=false)"
    );
}

#[test]
fn spawn_error_helper_constructs_typed_error() {
    let mut mock = MockRunner::new().expect("missing-binary", spawn_error("not on PATH"));
    let err = expect_err(mock.run(Cmd::new(os("missing-binary"))));
    assert!(err.is_spawn_failure());
}

#[test]
fn panic_on_no_match_does_not_poison_mutex() {
    let mut mock = MockRunner::new().expect("matches", ok_str("ok"));
    // The first command is not matched, and the runner is as good as before.
    assert!(mock.dispatch(&Cmd::new(os("does-not-match"))).is_err());
    let out = expect_ok(mock.run(Cmd::new(os("matches"))));
    assert_eq!(out.stdout_lossy(), "ok");
}

#[test]
fn expect_repeated_matches_up_to_n_times() {
    let mut mock =
        MockRunner::new().expect_repeated("git pull", 3, || ok_str("Already up to date."));
    for _ in 0..3 {
        let out = expect_ok(mock.run(git(&["pull"])));
        assert_eq!(out.stdout_lossy(), "Already up to date.");
    }
    // The expectation is exhausted.
    let report = mock.dispatch(&git(&["pull"])).err().unwrap();
    assert_eq!(
        report,
        "MockRunner: no matching expectation for command:\n  git pull\nregistered:\n  \
         - display = \"git pull\" (×3) (calls=3, exhausted=true)"
    );
}

#[test]
fn expect_always_matches_unlimited_times() {
    let mut mock =
        MockRunner::new().expect_always("git config core.hooksPath", || ok_str(".husky\n"));
    for _ in 0..10 {
        let out = expect_ok(mock.run(git(&["config", "core.hooksPath"])));
        assert_eq!(out.stdout_lossy(), ".husky\n");
    }
    mock.verify().expect("always-matching expectation counts as met after first call");
}

#[test]
fn expect_repeated_with_varying_factory_output() {
    let counter = Arc::new(Mutex::new(0));
    let c = counter.clone();
    let mut mock = MockRunner::new().expect_repeated("git log", 3, move || {
        let mut n = c.lock().unwrap();
        let text = format!("commit {n}");
        *n += 1;
        ok_str(&text)
    });
    let a = expect_ok(mock.run(git(&["log"])));
    let b = expect_ok(mock.run(git(&["log"])));
    let c2 = expect_ok(mock.run(git(&["log"])));
    assert_eq!(a.stdout_lossy(), "commit 0");
    assert_eq!(b.stdout_lossy(), "commit 1");
    assert_eq!(c2.stdout_lossy(), "commit 2");
}

#[test]
fn mock_result_resolve_attaches_given_command() {
    let cmd = Cmd::new(os("pretend")).arg(os("arg"));
    let display: CmdDisplay = cmd.display();
    let result: MockResult = nonzero(2, "something failed");
    let err = expect_err(result.resolve(&display));
    assert!(err.is_non_zero_exit());
    assert_eq!(err.command().to_string(), "pretend arg");
}

#[test]
fn mock_result_resolve_covers_every_variant() {
    let cmd = Cmd::new(os("x")).display();

    let out = expect_ok(ok(b"bytes".to_vec()).resolve(&cmd));
    assert_eq!(out.stdout, b"bytes");
    let out = expect_ok(ok_str("hello").resolve(&cmd));
    assert_eq!(out.stdout_lossy(), "hello");

    let err = expect_err(nonzero(42, "nope").resolve(&cmd));
    assert!(err.is_non_zero_exit());
    assert_eq!(err.exit_status().and_then(|s| s.code()), Some(42));

    let err = expect_err(spawn_error("boom").resolve(&cmd));
    assert!(err.is_spawn_failure());

    let err = expect_err(timeout(Duration::from_secs(1), "hung").resolve(&cmd));
    assert!(err.is_timeout());

    let _compile_check: fn(MockResult, &CmdDisplay) = |r, d| {
        let _ = r.resolve(d);
    };
}

#[test]
fn pipeline_display_matches_for_mock() {
    let mut mock = MockRunner::new().expect("git log | head -5", ok_str("commit ..."));
    let out = expect_ok(mock.run(git(&["log"]).pipe(Cmd::new(os("head")).arg(os("-5")))));
    assert_eq!(out.stdout_lossy(), "commit ...");
}

#[test]
fn every_kind_of_expectation_describes_itself() {
    let mock = MockRunner::default()
        .expect("a \"b\"", ok_str(""))
        .expect_when(|_| false, ok_str(""))
        .expect_repeated("c", 12, || ok_str(""))
        .expect_when_repeated(|_| false, 2, || ok_str(""))
        .expect_always("d", || ok_str(""))
        .expect_when_always(|_| false, || ok_str(""));
    assert_eq!(
        mock.verify(),
        Err("6 unmet MockRunner expectation(s):\n  - display = \"a \\\"b\\\"\"\n  - <predicate>\n  \
             - display = \"c\" (×12)\n  - <predicate> (×2)\n  - display = \"d\" (∞)\n  \
             - <predicate> (∞)"
            .to_string())
    );
}

#[test]
fn an_exhausted_expectation_passes_on_to_the_next() {
    let mut mock = MockRunner::new()
        .expect_when_repeated(|_| true, 1, || ok_str("one"))
        .expect_repeated("x", 0, || ok_str("never"))
        .expect_when_always(|_| true, || ok_str("rest"));
    let said: Vec<String> = (0..3)
        .map(|_| expect_ok(mock.run(Cmd::new(os("x")))).stdout_lossy())
        .collect();
    assert_eq!(said, vec!["one", "rest", "rest"]);
    assert_eq!(
        mock.verify(),
        Err("1 unmet MockRunner expectation(s):\n  - display = \"x\" (×0)".to_string())
    );
}

#[test]
fn calls_and_answers_left_add_up_over_a_history() {
    let mut mock = MockRunner::new().expect("a", ok_str("1"));
    let mut matched = 0;
    for (n, name) in ["a", "b", "a", "c", "b", "b", "c"].iter().enumerate() {
        if n == 1 {
            mock = mock.expect_repeated("b", 2, || ok_str("2")).expect_always("c", || ok_str("3"));
        }
        if mock.dispatch(&Cmd::new(os(name))).is_ok() {
            matched += 1;
        }
    }
    assert_eq!(matched, 5);
    let report = mock.dispatch(&Cmd::new(os("x"))).err().unwrap();
    assert!(report.contains("\"a\" (calls=1, exhausted=true)"));
    assert!(report.contains("\"b\" (×2) (calls=2, exhausted=true)"));
    assert!(report.contains("\"c\" (∞) (calls=2, exhausted=false)"));
}

#[test]
fn an_exhausted_responder_stays_exhausted() {
    let mut once = Responder::Once { result: Some(ok_str("x")) };
    assert!(!once.exhausted());
    assert!(once.take().is_some());
    for _ in 0..2 {
        assert!(once.exhausted());
        assert!(once.take().is_none());
    }
    let mut none = Responder::Bounded { factory: Factory::new(|| ok_str("x")), remaining: 0 };
    assert!(none.exhausted() && none.take().is_none());
    let mut always = Responder::Unlimited { factory: Factory::new(|| ok_str("x")) };
    for _ in 0..3 {
        assert!(!always.exhausted() && always.take().is_some());
    }
}

/// A closure's call count.
fn counter() -> (Arc<Mutex<usize>>, impl Fn() + Send + Sync + 'static) {
    let count = Arc::new(Mutex::new(0));
    let inner = count.clone();
    (count, move || *inner.lock().unwrap() += 1)
}

#[test]
fn only_the_answering_factory_runs_and_only_once() {
    let (first, count_first) = counter();
    let (second, count_second) = counter();
    let mut mock = MockRunner::new()
        .error_on_no_match()
        .expect_repeated("a", 2, move || {
            count_first();
            ok_str("first")
        })
        .expect_always("a", move || {
            count_second();
            ok_str("second")
        });
    // Registering runs nothing.
    assert_eq!((*first.lock().unwrap(), *second.lock().unwrap()), (0, 0));
    for expected in [(1, 0), (2, 0), (2, 1), (2, 2)] {
        expect_ok(mock.run(Cmd::new(os("a"))));
        assert_eq!((*first.lock().unwrap(), *second.lock().unwrap()), expected);
    }
    // Without a match nothing runs.
    assert!(mock.run(Cmd::new(os("b"))).is_err());
    assert_eq!((*first.lock().unwrap(), *second.lock().unwrap()), (2, 2));
}

#[test]
fn predicates_are_asked_once_up_to_the_first_match() {
    let (declining, count_declining) = counter();
    let (accepting, count_accepting) = counter();
    let (later, count_later) = counter();
    let mut mock = MockRunner::new()
        .error_on_no_match()
        .expect_when(
            move |_| {
                count_declining();
                false
            },
            ok_str("never"),
        )
        .expect_when(
            move |_| {
                count_accepting();
                true
            },
            ok_str("once"),
        )
        .expect_when_always(
            move |_| {
                count_later();
                true
            },
            || ok_str("later"),
        );
    let counts =
        || (*declining.lock().unwrap(), *accepting.lock().unwrap(), *later.lock().unwrap());
    assert_eq!(expect_ok(mock.run(Cmd::new(os("x")))).stdout_lossy(), "once");
    assert_eq!(counts(), (1, 1, 0));
    // An exhausted expectation is not asked again.
    assert_eq!(expect_ok(mock.run(Cmd::new(os("x")))).stdout_lossy(), "later");
    assert_eq!(counts(), (2, 1, 1));
}

#[test]
fn a_bounded_responder_without_answers_does_not_run_its_factory() {
    let (count, bump) = counter();
    let mut r = Responder::Bounded {
        factory: Factory::new(move || {
            bump();
            ok_str("x")
        }),
        remaining: 1,
    };
    assert!(r.take().is_some());
    assert!(r.take().is_none() && r.take().is_none());
    assert_eq!(*count.lock().unwrap(), 1);
}
