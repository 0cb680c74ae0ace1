//! Test doubles for [`Runner`].
//!
//! A [`MockRunner`] returns canned results without starting anything. Each
//! expectation says which commands it matches, by the command's display or by
//! a predicate, and how often: once, up to a number of times, or always. The
//! first expectation that is not exhausted and matches answers; one that never
//! answered is reported by [`MockRunner::verify`].
//!
//! Results are written down without a command. The command that was run is put
//! in when a result is handed out, so that an error names the real one.

use vstd::prelude::*;
use vstd::utf8::*;

use crate::callbacks::{Factory, Predicate};
use crate::cmd::Cmd;
use crate::cmd_display::{CmdDisplay, CmdDisplayView};
use crate::error::{RunError, RunErrorView};
use crate::os::{ExitStatus, IoError, IoErrorKind, IoErrorView};
use crate::output;
use crate::output::{RunOutput, RunOutputView};
use crate::runner_trait::Runner;
use crate::text;
use crate::time::Duration;

verus! {

// ---------- results without a command ----------

/// The outcome of a mocked run, without the command.
pub enum MockResult {
    Success { stdout: Vec<u8>, stderr: String },
    NonZeroExit { code: i32, stdout: Vec<u8>, stderr: String },
    Spawn { source: IoError },
    Timeout { elapsed: Duration, stdout: Vec<u8>, stderr: String },
}

/// The contents of a [`MockResult`].
pub ghost enum MockResultView {
    Success { stdout: Seq<u8>, stderr: Seq<char> },
    NonZeroExit { code: i32, stdout: Seq<u8>, stderr: Seq<char> },
    Spawn { source: IoErrorView },
    Timeout { elapsed: Duration, stdout: Seq<u8>, stderr: Seq<char> },
}

impl View for MockResult {
    type V = MockResultView;

    open spec fn view(&self) -> MockResultView {
        match self {
            MockResult::Success { stdout, stderr } => MockResultView::Success {
                stdout: stdout@,
                stderr: stderr@,
            },
            MockResult::NonZeroExit { code, stdout, stderr } => MockResultView::NonZeroExit {
                code: *code,
                stdout: stdout@,
                stderr: stderr@,
            },
            MockResult::Spawn { source } => MockResultView::Spawn { source: source@ },
            MockResult::Timeout { elapsed, stdout, stderr } => MockResultView::Timeout {
                elapsed: *elapsed,
                stdout: stdout@,
                stderr: stderr@,
            },
        }
    }
}

impl MockResultView {
    /// The same outcome of a given command.
    pub open spec fn resolved(self, command: CmdDisplayView) -> Result<
        RunOutputView,
        RunErrorView,
    > {
        match self {
            MockResultView::Success { stdout, stderr } => Ok(RunOutputView { stdout, stderr }),
            MockResultView::NonZeroExit { code, stdout, stderr } => Err(
                RunErrorView::NonZeroExit {
                    command,
                    status: exited_with(code),
                    stdout,
                    stderr,
                    attempts: 1,
                },
            ),
            MockResultView::Spawn { source } => Err(RunErrorView::Spawn { command, source }),
            MockResultView::Timeout { elapsed, stdout, stderr } => Err(
                RunErrorView::Timeout { command, elapsed, stdout, stderr, attempts: 1 },
            ),
        }
    }
}

/// The status of a child that exited with a code: the status word of a Unix
/// host holds the code in its second lowest byte.
pub open spec fn exited_with(code: i32) -> ExitStatus {
    ExitStatus { raw: code << 8 }
}

/// The status of a child that exited with a code, as a Unix host reports it.
pub fn build_exit_status(code: i32) -> (s: ExitStatus)
    ensures
        s == exited_with(code),
{
    ExitStatus::from_raw(code << 8)
}

impl MockResult {
    /// The same outcome of a given command.
    pub fn resolve(self, command: &CmdDisplay) -> (r: Result<RunOutput, RunError>)
        ensures
            output::result_view(r) == self@.resolved(command@),
    {
        match self {
            MockResult::Success { stdout, stderr } => Ok(RunOutput { stdout, stderr }),
            MockResult::NonZeroExit { code, stdout, stderr } => Err(
                RunError::NonZeroExit {
                    command: command.clone(),
                    status: build_exit_status(code),
                    stdout,
                    stderr,
                    attempts: 1,
                },
            ),
            MockResult::Spawn { source } => Err(
                RunError::Spawn { command: command.clone(), source },
            ),
            MockResult::Timeout { elapsed, stdout, stderr } => Err(
                RunError::Timeout {
                    command: command.clone(),
                    elapsed,
                    stdout,
                    stderr,
                    attempts: 1,
                },
            ),
        }
    }
}

/// Success with the given stdout and empty stderr.
pub fn ok(stdout: Vec<u8>) -> (r: MockResult)
    ensures
        r@ == (MockResultView::Success { stdout: stdout@, stderr: Seq::empty() }),
{
    let r = MockResult::Success { stdout, stderr: String::new() };
    assert(r@->Success_stderr =~= Seq::<char>::empty());
    r
}

/// Success with the given text on stdout and empty stderr.
pub fn ok_str(stdout: &str) -> (r: MockResult)
    ensures
        r@ == (MockResultView::Success { stdout: encode_utf8(stdout@), stderr: Seq::empty() }),
{
    let r = MockResult::Success {
        stdout: vstd::slice::slice_to_vec(stdout.as_bytes()),
        stderr: String::new(),
    };
    assert(r@->Success_stderr =~= Seq::<char>::empty());
    r
}

/// A failed exit with the given code and stderr and empty stdout.
pub fn nonzero(code: i32, stderr: &str) -> (r: MockResult)
    ensures
        r@ == (MockResultView::NonZeroExit { code, stdout: Seq::empty(), stderr: stderr@ }),
{
    let r = MockResult::NonZeroExit { code, stdout: Vec::new(), stderr: stderr.to_owned() };
    assert(r@->NonZeroExit_stdout =~= Seq::<u8>::empty());
    r
}

/// A spawn failure of kind [`IoErrorKind::Other`] with the given message.
pub fn spawn_error(message: &str) -> (r: MockResult)
    ensures
        r@ == (MockResultView::Spawn {
            source: IoErrorView::own(IoErrorKind::Other, message@),
        }),
{
    MockResult::Spawn { source: IoError::other(message) }
}

/// A timeout with the given elapsed time and stderr and empty stdout.
pub fn timeout(elapsed: Duration, stderr: &str) -> (r: MockResult)
    ensures
        r@ == (MockResultView::Timeout { elapsed, stdout: Seq::empty(), stderr: stderr@ }),
{
    let r = MockResult::Timeout { elapsed, stdout: Vec::new(), stderr: stderr.to_owned() };
    assert(r@->Timeout_stdout =~= Seq::<u8>::empty());
    r
}

// ---------- what an expectation is made of ----------

/// Which commands an expectation is about.
pub enum Matcher {
    /// Those with this display.
    Display(String),
    /// Those that a predicate accepts.
    Predicate(Predicate),
}

impl Matcher {
    pub open spec fn callable(self) -> bool {
        self matches Matcher::Predicate(p) ==> p.callable()
    }

    /// `answer` may be the answer to whether `cmd` matches.
    pub open spec fn may_match(self, cmd: Cmd, answer: bool) -> bool {
        match self {
            Matcher::Display(expected) => answer == (cmd@.display().rendered() == expected@),
            Matcher::Predicate(p) => p.may_answer(cmd, answer),
        }
    }

    /// What the predicate was asked, with the answers.
    pub open spec fn asked(self) -> Seq<(Cmd, bool)> {
        match self {
            Matcher::Display(_) => Seq::empty(),
            Matcher::Predicate(p) => p.asked(),
        }
    }

    /// Being asked about `cmd`, the matcher may answer like this and be `after`
    /// then: a predicate has been asked once more, a display stays as it is.
    pub open spec fn may_ask(self, cmd: Cmd, answer: bool, after: Matcher) -> bool {
        match self {
            Matcher::Display(_) => self.may_match(cmd, answer) && after == self,
            Matcher::Predicate(p) => after matches Matcher::Predicate(q) && p.asked_once(
                cmd,
                answer,
                q,
            ),
        }
    }

    /// Whether the command is one of them.
    pub fn matches(&mut self, cmd: &Cmd) -> (answer: bool)
        requires
            old(self).callable(),
        ensures
            final(self).callable(),
            old(self).may_ask(*cmd, answer, *final(self)),
    {
        match self {
            Matcher::Display(expected) => {
                let shown = cmd.display().to_string();
                text::same(shown.as_str(), expected.as_str())
            },
            Matcher::Predicate(p) => p.ask(cmd),
        }
    }
}

/// What an expectation answers, and how often.
pub enum Responder {
    /// Once: the result is gone after that.
    Once { result: Option<MockResult> },
    /// As often as `remaining` says.
    Bounded { factory: Factory, remaining: usize },
    /// Always.
    Unlimited { factory: Factory },
}

impl Responder {
    pub open spec fn callable(self) -> bool {
        match self {
            Responder::Once { .. } => true,
            Responder::Bounded { factory, .. } => factory.callable(),
            Responder::Unlimited { factory } => factory.callable(),
        }
    }

    /// How many answers are left; no number where there is no bound.
    pub open spec fn answers_left(self) -> Option<nat> {
        match self {
            Responder::Once { result } => Some(
                if result is Some {
                    1
                } else {
                    0
                },
            ),
            Responder::Bounded { remaining, .. } => Some(remaining as nat),
            Responder::Unlimited { .. } => None,
        }
    }

    pub open spec fn is_exhausted(self) -> bool {
        self.answers_left() == Some(0nat)
    }

    /// `result` is a result that may be handed out.
    pub open spec fn may_give(self, result: MockResult) -> bool {
        match self {
            Responder::Once { result: held } => held == Some(result),
            Responder::Bounded { factory, .. } => factory.may_produce(result),
            Responder::Unlimited { factory } => factory.may_produce(result),
        }
    }

    /// The results that the factory made, in order.
    pub open spec fn made(self) -> Seq<MockResult> {
        match self {
            Responder::Once { .. } => Seq::empty(),
            Responder::Bounded { factory, .. } => factory.made(),
            Responder::Unlimited { factory } => factory.made(),
        }
    }

    /// `after` is the same responder after it handed out `result`: one answer
    /// is used up, and the factory made that result and no other.
    pub open spec fn spent(self, result: MockResult, after: Responder) -> bool {
        match self {
            Responder::Once { result: held } => {
                &&& held == Some(result)
                &&& after == (Responder::Once { result: None })
            },
            Responder::Bounded { factory, remaining } => {
                &&& after matches Responder::Bounded { factory: later, remaining: left }
                &&& left == remaining - 1
                &&& factory.made_once(result, later)
            },
            Responder::Unlimited { factory } => {
                &&& after matches Responder::Unlimited { factory: later }
                &&& factory.made_once(result, later)
            },
        }
    }

    /// Being asked, the responder may hand out `r` and be `after` then. One
    /// that is exhausted stays as it is and does not run its factory.
    pub open spec fn may_take(self, r: Option<MockResult>, after: Responder) -> bool {
        match r {
            Some(result) => !self.is_exhausted() && self.spent(result, after),
            None => self.is_exhausted() && after == self,
        }
    }

    /// The next answer, or nothing where none is left.
    pub fn take(&mut self) -> (r: Option<MockResult>)
        requires
            old(self).callable(),
        ensures
            final(self).callable(),
            old(self).may_take(r, *final(self)),
    {
        match self {
            Responder::Once { result } => result.take(),
            Responder::Bounded { factory, remaining } => {
                if *remaining == 0 {
                    None
                } else {
                    *remaining = *remaining - 1;
                    Some(factory.produce())
                }
            },
            Responder::Unlimited { factory } => Some(factory.produce()),
        }
    }

    /// Whether no answer is left.
    pub fn exhausted(&self) -> (b: bool)
        ensures
            b == self.is_exhausted(),
    {
        match self {
            Responder::Once { result } => result.is_none(),
            Responder::Bounded { remaining, .. } => *remaining == 0,
            Responder::Unlimited { .. } => false,
        }
    }
}

/// Commands that are expected, and the answer to them.
pub struct Expectation {
    pub matcher: Matcher,
    pub responder: Responder,
    /// How often it answered.
    pub calls: usize,
    /// For reports.
    pub matcher_desc: String,
}

/// One call more, as far as they can be counted.
pub open spec fn counted(calls: usize) -> usize {
    if calls < usize::MAX {
        (calls + 1) as usize
    } else {
        calls
    }
}

impl Expectation {
    pub open spec fn callable(self) -> bool {
        self.matcher.callable() && self.responder.callable()
    }

    /// The expectation may leave `cmd` to a later one.
    pub open spec fn may_pass(self, cmd: Cmd) -> bool {
        self.responder.is_exhausted() || self.matcher.may_match(cmd, false)
    }

    /// The expectation leaves `cmd` to a later one and is `after` then. Its
    /// matcher is asked once, or not at all where no answer is left.
    pub open spec fn passes(self, cmd: Cmd, after: Expectation) -> bool {
        if self.responder.is_exhausted() {
            after == self
        } else {
            &&& self.matcher.may_ask(cmd, false, after.matcher)
            &&& after == Expectation { matcher: after.matcher, ..self }
        }
    }

    /// The expectation answers `cmd` with `result` and is `after` then.
    pub open spec fn may_answer(self, cmd: Cmd, result: MockResult, after: Expectation) -> bool {
        &&& self.matcher.may_ask(cmd, true, after.matcher)
        &&& self.responder.may_take(Some(result), after.responder)
        &&& after.calls == counted(self.calls)
        &&& after.matcher_desc == self.matcher_desc
    }

    /// The expectation in a report of a command that nothing matched.
    pub open spec fn listed(self) -> Seq<char> {
        self.matcher_desc@ + " (calls="@ + text::decimal(self.calls as nat) + ", exhausted="@ + (
        if self.responder.is_exhausted() {
            "true"@
        } else {
            "false"@
        }) + ")"@
    }

    fn describe(&self) -> (out: String)
        ensures
            out@ == self.listed(),
    {
        let mut out = self.matcher_desc.clone();
        out.append(" (calls=");
        out.append(text::decimal_string(self.calls as u64).as_str());
        out.append(", exhausted=");
        if self.responder.exhausted() {
            out.append("true");
        } else {
            out.append("false");
        }
        out.append(")");
        assert(out@ =~= self.listed());
        out
    }
}

// ---------- the runner ----------

/// In-memory runner that returns canned results.
pub struct MockRunner {
    expectations: Vec<Expectation>,
    panic_on_no_match: bool,
}

/// The `i`th expectation answers `cmd` with `result`, every earlier one leaves
/// it alone, and the later ones stay as they are.
pub open spec fn answered(
    before: Seq<Expectation>,
    after: Seq<Expectation>,
    cmd: Cmd,
    i: int,
    result: MockResult,
) -> bool {
    &&& 0 <= i < before.len()
    &&& after.len() == before.len()
    &&& forall|j: int| 0 <= j < i ==> (#[trigger] before[j]).passes(cmd, after[j])
    &&& before[i].may_answer(cmd, result, after[i])
    &&& forall|j: int| i < j < before.len() ==> #[trigger] after[j] == before[j]
}

/// Every expectation leaves `cmd` alone.
pub open spec fn unanswered(before: Seq<Expectation>, after: Seq<Expectation>, cmd: Cmd) -> bool {
    &&& after.len() == before.len()
    &&& forall|j: int| 0 <= j < before.len() ==> (#[trigger] before[j]).passes(cmd, after[j])
}

/// The report of a command that nothing matched.
pub open spec fn no_match_report(expectations: Seq<Expectation>, command: CmdDisplayView) -> Seq<
    char,
> {
    "MockRunner: no matching expectation for command:\n  "@ + command.rendered()
        + "\nregistered:\n  - "@ + text::joined(
        expectations.map_values(|e: Expectation| e.listed()),
        "\n  - "@,
    )
}

/// The descriptions of the expectations that never answered.
pub open spec fn unmet(expectations: Seq<Expectation>) -> Seq<Seq<char>>
    decreases expectations.len(),
{
    if expectations.len() == 0 {
        Seq::empty()
    } else if expectations.last().calls == 0 {
        unmet(expectations.drop_last()).push(expectations.last().matcher_desc@)
    } else {
        unmet(expectations.drop_last())
    }
}

/// The report of expectations that never answered.
pub open spec fn unmet_report(descriptions: Seq<Seq<char>>) -> Seq<char> {
    text::decimal(descriptions.len()) + " unmet MockRunner expectation(s):\n  - "@ + text::joined(
        descriptions,
        "\n  - "@,
    )
}

/// `display = "..."`.
pub open spec fn display_desc(display: Seq<char>) -> Seq<char> {
    "display = "@ + text::debug_quoted(display)
}

/// ` (×3)`.
pub open spec fn times_desc(times: usize) -> Seq<char> {
    " (×"@ + text::decimal(times as nat) + ")"@
}

fn describe_display(display: &str) -> (s: String)
    ensures
        s@ == display_desc(display@),
{
    let mut s = "display = ".to_owned();
    s.append(text::debug_quote(display).as_str());
    s
}

fn append_times(s: &mut String, times: usize)
    ensures
        final(s)@ == old(s)@ + times_desc(times),
{
    s.append(" (×");
    s.append(text::decimal_string(times as u64).as_str());
    s.append(")");
    assert(s@ =~= old(s)@ + times_desc(times));
}

impl MockRunner {
    #[verifier::type_invariant]
    spec fn callable(self) -> bool {
        forall|i: int|
            0 <= i < self.expectations@.len() ==> (#[trigger] self.expectations@[i]).callable()
    }

    /// The expectations, in the order in which they were registered.
    pub closed spec fn expectations(self) -> Seq<Expectation> {
        self.expectations@
    }

    /// A command that nothing matches is a bug in the test.
    pub closed spec fn panics_on_no_match(self) -> bool {
        self.panic_on_no_match
    }

    /// A runner that expects nothing.
    pub fn new() -> (m: MockRunner)
        ensures
            m.expectations() == Seq::<Expectation>::empty(),
            m.panics_on_no_match(),
    {
        MockRunner { expectations: Vec::new(), panic_on_no_match: true }
    }

    /// Return an error for a command that nothing matches, in place of a panic,
    /// so that the error path of the code under test can be exercised.
    pub fn error_on_no_match(self) -> (m: MockRunner)
        ensures
            m.expectations() == self.expectations(),
            !m.panics_on_no_match(),
    {
        proof {
            use_type_invariant(&self);
        }
        MockRunner { expectations: self.expectations, panic_on_no_match: false }
    }

    fn push(self, matcher: Matcher, responder: Responder, matcher_desc: String) -> (m: MockRunner)
        requires
            matcher.callable(),
            responder.callable(),
            matcher.asked().len() == 0,
            responder.made().len() == 0,
        ensures
            registered(self, m),
            m.expectations().last() == (Expectation {
                matcher,
                responder,
                calls: 0,
                matcher_desc,
            }),
            m.panics_on_no_match() == self.panics_on_no_match(),
    {
        proof {
            use_type_invariant(&self);
        }
        let MockRunner { mut expectations, panic_on_no_match } = self;
        expectations.push(Expectation { matcher, responder, calls: 0, matcher_desc });
        assert(expectations@.drop_last() =~= self.expectations@);
        MockRunner { expectations, panic_on_no_match }
    }

    /// Answer a command with this display, once.
    pub fn expect(self, display: &str, result: MockResult) -> (m: MockRunner)
        ensures
            m.panics_on_no_match() == self.panics_on_no_match(),
            registered(self, m),
            ({
                let e = m.expectations().last();
                &&& e.matcher matches Matcher::Display(d)
                &&& d@ == display@
                &&& e.responder == (Responder::Once { result: Some(result) })
                &&& e.matcher_desc@ == display_desc(display@)
            }),
    {
        let desc = describe_display(display);
        self.push(
            Matcher::Display(display.to_owned()),
            Responder::Once { result: Some(result) },
            desc,
        )
    }

    /// Answer a command that the predicate accepts, once.
    pub fn expect_when<F: Fn(&Cmd) -> bool + Send + Sync + 'static>(
        self,
        matcher: F,
        result: MockResult,
    ) -> (m: MockRunner)
        requires
            forall|cmd: &Cmd| #[trigger] call_requires(matcher, (cmd,)),
        ensures
            m.panics_on_no_match() == self.panics_on_no_match(),
            registered(self, m),
            ({
                let e = m.expectations().last();
                &&& e.matcher is Predicate
                &&& forall|cmd: Cmd, answer: bool| #[trigger]
                    e.matcher.may_match(cmd, answer) <==> call_ensures(matcher, (&cmd,), answer)
                &&& e.responder == (Responder::Once { result: Some(result) })
                &&& e.matcher_desc@ == "<predicate>"@
            }),
    {
        self.push(
            Matcher::Predicate(Predicate::new(matcher)),
            Responder::Once { result: Some(result) },
            "<predicate>".to_owned(),
        )
    }

    /// Answer commands with this display, up to `times` times, with a fresh
    /// result each time.
    pub fn expect_repeated<F: FnMut() -> MockResult + Send + 'static>(
        self,
        display: &str,
        times: usize,
        factory: F,
    ) -> (m: MockRunner)
        requires
            call_requires(factory, ()),
        ensures
            m.panics_on_no_match() == self.panics_on_no_match(),
            registered(self, m),
            ({
                let e = m.expectations().last();
                &&& e.matcher matches Matcher::Display(d)
                &&& d@ == display@
                &&& e.responder matches Responder::Bounded { remaining, .. }
                &&& remaining == times
                &&& forall|result: MockResult| #[trigger]
                    e.responder.may_give(result) <==> call_ensures(factory, (), result)
                &&& e.matcher_desc@ == display_desc(display@) + times_desc(times)
            }),
    {
        let mut desc = describe_display(display);
        append_times(&mut desc, times);
        self.push(
            Matcher::Display(display.to_owned()),
            Responder::Bounded { factory: Factory::new(factory), remaining: times },
            desc,
        )
    }

    /// Answer commands that the predicate accepts, up to `times` times.
    pub fn expect_when_repeated<
        M: Fn(&Cmd) -> bool + Send + Sync + 'static,
        F: FnMut() -> MockResult + Send + 'static,
    >(self, matcher: M, times: usize, factory: F) -> (m: MockRunner)
        requires
            forall|cmd: &Cmd| #[trigger] call_requires(matcher, (cmd,)),
            call_requires(factory, ()),
        ensures
            m.panics_on_no_match() == self.panics_on_no_match(),
            registered(self, m),
            ({
                let e = m.expectations().last();
                &&& e.matcher is Predicate
                &&& forall|cmd: Cmd, answer: bool| #[trigger]
                    e.matcher.may_match(cmd, answer) <==> call_ensures(matcher, (&cmd,), answer)
                &&& e.responder matches Responder::Bounded { remaining, .. }
                &&& remaining == times
                &&& forall|result: MockResult| #[trigger]
                    e.responder.may_give(result) <==> call_ensures(factory, (), result)
                &&& e.matcher_desc@ == "<predicate>"@ + times_desc(times)
            }),
    {
        let mut desc = "<predicate>".to_owned();
        append_times(&mut desc, times);
        self.push(
            Matcher::Predicate(Predicate::new(matcher)),
            Responder::Bounded { factory: Factory::new(factory), remaining: times },
            desc,
        )
    }

    /// Answer every command with this display.
    pub fn expect_always<F: FnMut() -> MockResult + Send + 'static>(
        self,
        display: &str,
        factory: F,
    ) -> (m: MockRunner)
        requires
            call_requires(factory, ()),
        ensures
            m.panics_on_no_match() == self.panics_on_no_match(),
            registered(self, m),
            ({
                let e = m.expectations().last();
                &&& e.matcher matches Matcher::Display(d)
                &&& d@ == display@
                &&& e.responder is Unlimited
                &&& forall|result: MockResult| #[trigger]
                    e.responder.may_give(result) <==> call_ensures(factory, (), result)
                &&& e.matcher_desc@ == display_desc(display@) + " (∞)"@
            }),
    {
        let mut desc = describe_display(display);
        desc.append(" (∞)");
        self.push(
            Matcher::Display(display.to_owned()),
            Responder::Unlimited { factory: Factory::new(factory) },
            desc,
        )
    }

    /// Answer every command that the predicate accepts.
    pub fn expect_when_always<
        M: Fn(&Cmd) -> bool + Send + Sync + 'static,
        F: FnMut() -> MockResult + Send + 'static,
    >(self, matcher: M, factory: F) -> (m: MockRunner)
        requires
            forall|cmd: &Cmd| #[trigger] call_requires(matcher, (cmd,)),
            call_requires(factory, ()),
        ensures
            m.panics_on_no_match() == self.panics_on_no_match(),
            registered(self, m),
            ({
                let e = m.expectations().last();
                &&& e.matcher is Predicate
                &&& forall|cmd: Cmd, answer: bool| #[trigger]
                    e.matcher.may_match(cmd, answer) <==> call_ensures(matcher, (&cmd,), answer)
                &&& e.responder is Unlimited
                &&& forall|result: MockResult| #[trigger]
                    e.responder.may_give(result) <==> call_ensures(factory, (), result)
                &&& e.matcher_desc@ == "<predicate> (∞)"@
            }),
    {
        self.push(
            Matcher::Predicate(Predicate::new(matcher)),
            Responder::Unlimited { factory: Factory::new(factory) },
            "<predicate> (∞)".to_owned(),
        )
    }

    /// Whether every expectation answered at least once; if not, a report of
    /// those that did not.
    pub fn verify(&self) -> (r: Result<(), String>)
        ensures
            match r {
                Ok(_) => unmet(self.expectations()).len() == 0,
                Err(report) => {
                    &&& unmet(self.expectations()).len() > 0
                    &&& report@ == unmet_report(unmet(self.expectations()))
                },
            },
    {
        let mut descriptions: Vec<String> = Vec::new();
        let mut i: usize = 0;
        assert(self.expectations@.take(0) =~= Seq::<Expectation>::empty());
        assert(descriptions@.map_values(|d: String| d@) =~= Seq::<Seq<char>>::empty());
        while i < self.expectations.len()
            invariant
                i <= self.expectations@.len(),
                descriptions@.map_values(|d: String| d@) == unmet(
                    self.expectations@.take(i as int),
                ),
            decreases self.expectations@.len() - i,
        {
            assert(self.expectations@.take(i + 1).drop_last() =~= self.expectations@.take(
                i as int,
            ));
            if self.expectations[i].calls == 0 {
                let ghost before = descriptions@;
                let desc = self.expectations[i].matcher_desc.clone();
                descriptions.push(desc);
                assert(descriptions@.map_values(|d: String| d@) =~= before.map_values(
                    |d: String| d@,
                ).push(desc@));
            }
            i += 1;
        }
        assert(self.expectations@.take(i as int) =~= self.expectations@);
        assert(descriptions@.map_values(|d: String| d@).len() == descriptions@.len());
        if descriptions.len() == 0 {
            Ok(())
        } else {
            let mut report = text::decimal_string(descriptions.len() as u64);
            report.append(" unmet MockRunner expectation(s):\n  - ");
            report.append(text::join(&descriptions, "\n  - ").as_str());
            Err(report)
        }
    }

    fn report_no_match(&self, command: &CmdDisplay) -> (report: String)
        ensures
            report@ == no_match_report(self.expectations(), command@),
    {
        let mut listed: Vec<String> = Vec::new();
        let mut i: usize = 0;
        while i < self.expectations.len()
            invariant
                i <= self.expectations@.len(),
                listed@.len() == i,
                forall|k: int|
                    0 <= k < i ==> (#[trigger] listed@[k])@ == self.expectations@[k].listed(),
            decreases self.expectations@.len() - i,
        {
            listed.push(self.expectations[i].describe());
            i += 1;
        }
        assert(listed@.map_values(|p: String| p@) =~= self.expectations@.map_values(
            |e: Expectation| e.listed(),
        ));
        let mut report = "MockRunner: no matching expectation for command:\n  ".to_owned();
        report.append(command.to_string().as_str());
        report.append("\nregistered:\n  - ");
        report.append(text::join(&listed, "\n  - ").as_str());
        report
    }

    /// Find the first expectation that is not exhausted and matches, and let it
    /// answer: its factory is run once and no other is. The predicates before it
    /// are asked once each. Where there is none, the report says so.
    pub fn dispatch(&mut self, cmd: &Cmd) -> (r: Result<Result<RunOutput, RunError>, String>)
        ensures
            final(self).panics_on_no_match() == old(self).panics_on_no_match(),
            match r {
                Ok(result) => exists|i: int, m: MockResult|
                    {
                        &&& #[trigger] answered(
                            old(self).expectations(),
                            final(self).expectations(),
                            *cmd,
                            i,
                            m,
                        )
                        &&& output::result_view(result) == m@.resolved(cmd@.display())
                    },
                Err(report) => {
                    &&& unanswered(old(self).expectations(), final(self).expectations(), *cmd)
                    &&& report@ == no_match_report(old(self).expectations(), cmd@.display())
                },
            },
    {
        proof {
            use_type_invariant(&*self);
        }
        let display = cmd.display();
        let mut whole = MockRunner { expectations: Vec::new(), panic_on_no_match: true };
        std::mem::swap(self, &mut whole);
        let MockRunner { mut expectations, panic_on_no_match } = whole;
        let ghost before = expectations@;
        let mut i: usize = 0;
        while i < expectations.len()
            invariant
                i <= expectations@.len(),
                expectations@.len() == before.len(),
                before == old(self).expectations(),
                panic_on_no_match == old(self).panics_on_no_match(),
                display@ == cmd@.display(),
                forall|j: int|
                    0 <= j < before.len() ==> (#[trigger] expectations@[j]).callable(),
                forall|j: int|
                    0 <= j < i ==> (#[trigger] before[j]).passes(*cmd, expectations@[j]),
                forall|j: int|
                    i <= j < before.len() ==> #[trigger] expectations@[j] == before[j],
            decreases expectations@.len() - i,
        {
            assert(expectations@[i as int].callable());
            if !expectations[i].responder.exhausted() && expectations[i].matcher.matches(cmd) {
                let taken = expectations[i].responder.take();
                match taken {
                    Some(result) => {
                        let calls: usize = expectations[i].calls;
                        if calls < usize::MAX {
                            expectations[i].calls = calls + 1;
                        }
                        let ghost after = expectations@;
                        let ghost m = result;
                        let answer = result.resolve(&display);
                        *self = MockRunner { expectations, panic_on_no_match };
                        proof {
                            assert(before[i as int].may_answer(*cmd, m, after[i as int]));
                            assert(answered(
                                old(self).expectations(),
                                self.expectations(),
                                *cmd,
                                i as int,
                                m,
                            ));
                            assert(output::result_view(answer) == m@.resolved(cmd@.display()));
                        }
                        return Ok(answer);
                    },
                    None => {},
                }
            }
            i += 1;
        }
        proof {
            lemma_passing_shows_the_same(before, expectations@, *cmd);
        }
        *self = MockRunner { expectations, panic_on_no_match };
        Err(self.report_no_match(&display))
    }
}

/// `after` has one expectation more than `before`, which has not answered yet
/// and whose closures have not been run.
pub open spec fn extended(before: Seq<Expectation>, after: Seq<Expectation>) -> bool {
    &&& after.len() == before.len() + 1
    &&& after.drop_last() == before
    &&& after.last().calls == 0
    &&& after.last().matcher.asked().len() == 0
    &&& after.last().responder.made().len() == 0
}

/// `after` is `before` with one more expectation.
pub open spec fn registered(before: MockRunner, after: MockRunner) -> bool {
    extended(before.expectations(), after.expectations())
}

impl Default for MockRunner {
    fn default() -> (m: MockRunner)
        ensures
            m.expectations() == Seq::<Expectation>::empty(),
            m.panics_on_no_match(),
    {
        MockRunner::new()
    }
}

impl Runner for MockRunner {
    /// A command that nothing matches is refused unless the runner was told to
    /// return an error.
    open spec fn accepts(&self, cmd: Cmd) -> bool {
        self.panics_on_no_match() ==> exists|i: int|
            0 <= i < self.expectations().len() && !(#[trigger] self.expectations()[i]).may_pass(cmd)
    }

    /// Let the first matching expectation answer; without one, return a spawn
    /// failure that holds the report.
    fn run(&mut self, cmd: Cmd) -> (r: Result<RunOutput, RunError>)
        ensures
            final(self).panics_on_no_match() == old(self).panics_on_no_match(),
            (exists|i: int, m: MockResult|
                {
                    &&& #[trigger] answered(
                        old(self).expectations(),
                        final(self).expectations(),
                        cmd,
                        i,
                        m,
                    )
                    &&& output::result_view(r) == m@.resolved(cmd@.display())
                }) || {
                &&& unanswered(old(self).expectations(), final(self).expectations(), cmd)
                &&& output::result_view(r) == Err::<RunOutputView, _>(
                    RunErrorView::Spawn {
                        command: cmd@.display(),
                        source: IoErrorView::own(
                            IoErrorKind::Other,
                            no_match_report(old(self).expectations(), cmd@.display()),
                        ),
                    },
                )
            },
    {
        match self.dispatch(&cmd) {
            Ok(answer) => answer,
            Err(report) => Err(
                RunError::Spawn { command: cmd.display(), source: IoError::other(report.as_str()) },
            ),
        }
    }
}

// ---------- laws ----------

/// A mocked exit code is what the error's status reports, in its lowest eight
/// bits; any such code but zero is a failure.
pub proof fn law_exit_code_is_reported(code: i32)
    ensures
        exited_with(code).exit_code() == Some(code & 0xff),
        exited_with(code).succeeded() ==> code & 0xff == 0,
        0 <= code <= 0xff ==> exited_with(code).exit_code() == Some(code)
            && exited_with(code).succeeded() == (code == 0),
{
    assert((code << 8) & 0x7f == 0) by (bit_vector);
    assert(((code << 8) >> 8) & 0xff == code & 0xff) by (bit_vector);
    assert(code << 8 == 0 ==> code & 0xff == 0) by (bit_vector);
    assert(0 <= code <= 0xff ==> code & 0xff == code) by (bit_vector);
    assert(code == 0 ==> code << 8 == 0) by (bit_vector);
}

/// Every answer uses one up, so that an expectation answers no more often than
/// it was set up for: once, the given number of times, or without bound.
pub proof fn law_answers_are_counted_down(
    e: Expectation,
    cmd: Cmd,
    result: MockResult,
    after: Expectation,
)
    requires
        e.may_answer(cmd, result, after),
    ensures
        e.responder.answers_left() matches Some(n) ==> n >= 1
            && after.responder.answers_left() == Some((n - 1) as nat),
        e.responder.answers_left() is None ==> after.responder.answers_left() is None,
        after.calls > 0,
{
}

/// A responder hands out nothing if and only if it is exhausted, and an
/// exhausted one never changes or hands out anything again.
pub proof fn law_exhausted_stays_exhausted(
    r: Responder,
    given: Option<MockResult>,
    after: Responder,
    later: Option<MockResult>,
    last: Responder,
)
    requires
        r.may_take(given, after),
        after.may_take(later, last),
    ensures
        given is None <==> r.is_exhausted(),
        r.is_exhausted() ==> after == r && later is None && last == r,
{
}

/// What happened to a runner.
pub ghost enum MockEvent {
    /// One more expectation was registered.
    Registered,
    /// A command was run, and the expectation `by` answered it with `result`.
    Answered { cmd: Cmd, by: int, result: MockResult },
    /// A command was run that nothing matched.
    Unanswered { cmd: Cmd },
    /// The runner was only looked at or told to return errors.
    Unchanged,
}

/// The event takes the expectations from `before` to `after`.
pub open spec fn happened(
    before: Seq<Expectation>,
    event: MockEvent,
    after: Seq<Expectation>,
) -> bool {
    match event {
        MockEvent::Registered => extended(before, after),
        MockEvent::Answered { cmd, by, result } => answered(before, after, cmd, by, result),
        MockEvent::Unanswered { cmd } => unanswered(before, after, cmd),
        MockEvent::Unchanged => after == before,
    }
}

/// `states` are the expectations of a runner that began with none, before the
/// first and after each of the `events`.
pub open spec fn mock_history(states: Seq<Seq<Expectation>>, events: Seq<MockEvent>) -> bool {
    &&& states.len() == events.len() + 1
    &&& states[0].len() == 0
    &&& forall|k: int|
        0 <= k < events.len() ==> happened(states[k], #[trigger] events[k], states[k + 1])
}

/// How many answers each expectation was registered with, after `n` events; no
/// number where there is no bound.
pub open spec fn set_up(
    states: Seq<Seq<Expectation>>,
    events: Seq<MockEvent>,
    n: int,
) -> Seq<Option<nat>>
    decreases n,
{
    if n <= 0 {
        Seq::empty()
    } else if events[n - 1] is Registered {
        set_up(states, events, n - 1).push(states[n].last().responder.answers_left())
    } else {
        set_up(states, events, n - 1)
    }
}

/// How many of the first `n` events were answers.
pub open spec fn answers_among(events: Seq<MockEvent>, n: int) -> nat
    decreases n,
{
    if n <= 0 {
        0
    } else {
        answers_among(events, n - 1) + if events[n - 1] is Answered {
            1nat
        } else {
            0
        }
    }
}

/// The answers that the expectation `j` gave in the first `n` events.
pub open spec fn answers_by(events: Seq<MockEvent>, n: int, j: int) -> Seq<MockResult>
    decreases n,
{
    if n <= 0 {
        Seq::empty()
    } else {
        match events[n - 1] {
            MockEvent::Answered { by, result, .. } if by == j => answers_by(
                events,
                n - 1,
                j,
            ).push(result),
            _ => answers_by(events, n - 1, j),
        }
    }
}

/// The calls of all expectations together.
pub open spec fn total_calls(expectations: Seq<Expectation>) -> nat
    decreases expectations.len(),
{
    if expectations.len() == 0 {
        0
    } else {
        total_calls(expectations.drop_last()) + expectations.last().calls as nat
    }
}

/// The expectation has used up one answer for each one that it `gave`, and its
/// factory has made these and no others.
pub open spec fn balanced(
    e: Expectation,
    registered_with: Option<nat>,
    gave: Seq<MockResult>,
) -> bool {
    &&& e.calls == if gave.len() <= usize::MAX {
        gave.len()
    } else {
        usize::MAX as nat
    }
    &&& e.responder !is Once ==> e.responder.made() == gave
    &&& match registered_with {
        Some(n) => {
            &&& n <= usize::MAX
            &&& gave.len() <= n
            &&& e.responder.answers_left() == Some((n - gave.len()) as nat)
            &&& e.responder.is_exhausted() <==> gave.len() == n
        },
        None => e.responder.answers_left() is None && !e.responder.is_exhausted(),
    }
}

/// Whatever is registered and run in whatever order: the answers that an
/// expectation gave and those left add up to what it was registered with, so
/// that it is exhausted exactly when it answered that often and never where
/// there is no bound. Its calls are its answers, as far as they can be counted,
/// and a factory was run once for each of them and never otherwise. All calls
/// together are the runs that found a match.
pub proof fn law_answers_add_up(
    states: Seq<Seq<Expectation>>,
    events: Seq<MockEvent>,
    n: int,
)
    requires
        mock_history(states, events),
        0 <= n <= events.len(),
    ensures
        set_up(states, events, n).len() == states[n].len(),
        forall|j: int|
            0 <= j < states[n].len() ==> balanced(
                #[trigger] states[n][j],
                set_up(states, events, n)[j],
                answers_by(events, n, j),
            ),
        forall|j: int| j >= states[n].len() ==> (#[trigger] answers_by(events, n, j)).len() == 0,
        answers_among(events, n) <= usize::MAX ==> total_calls(states[n]) == answers_among(
            events,
            n,
        ),
    decreases n,
{
    if n > 0 {
        law_answers_add_up(states, events, n - 1);
        let (before, after) = (states[n - 1], states[n]);
        let event = events[n - 1];
        assert(happened(states[n - 1], event, states[n - 1 + 1]));
        let given = set_up(states, events, n - 1);
        assert forall|j: int| j >= after.len() implies (#[trigger] answers_by(events, n, j)).len()
            == 0 by {
            assert(answers_by(events, n - 1, j).len() == 0);
        }
        match event {
            MockEvent::Registered => {
                assert forall|j: int| 0 <= j < after.len() implies balanced(
                    #[trigger] after[j],
                    set_up(states, events, n)[j],
                    answers_by(events, n, j),
                ) by {
                    if j < before.len() {
                        assert(after.drop_last()[j] == after[j]);
                        assert(balanced(before[j], given[j], answers_by(events, n - 1, j)));
                    } else {
                        assert(answers_by(events, n - 1, j).len() == 0);
                        if after[j].responder !is Once {
                            assert(after[j].responder.made() =~= answers_by(events, n, j));
                        }
                    }
                }
            },
            MockEvent::Answered { cmd, by, result } => {
                assert forall|j: int| 0 <= j < after.len() implies balanced(
                    #[trigger] after[j],
                    given[j],
                    answers_by(events, n, j),
                ) by {
                    assert(balanced(before[j], given[j], answers_by(events, n - 1, j)));
                    if j < by {
                        assert(before[j].passes(cmd, after[j]));
                    }
                }
                lemma_calls_within_total(before, by);
                if answers_among(events, n) <= usize::MAX {
                    assert forall|j: int| 0 <= j < before.len() && j != by implies (
                    #[trigger] after[j]).calls == before[j].calls by {
                        if j < by {
                            assert(before[j].passes(cmd, after[j]));
                        }
                    }
                    lemma_one_call_more(before, after, by);
                }
            },
            MockEvent::Unanswered { cmd } => {
                assert forall|j: int| 0 <= j < after.len() implies balanced(
                    #[trigger] after[j],
                    given[j],
                    answers_by(events, n, j),
                ) by {
                    assert(before[j].passes(cmd, after[j]));
                    assert(balanced(before[j], given[j], answers_by(events, n - 1, j)));
                }
                assert forall|j: int| 0 <= j < before.len() implies (
                #[trigger] after[j]).calls == before[j].calls by {
                    assert(before[j].passes(cmd, after[j]));
                }
                lemma_same_calls(before, after);
            },
            MockEvent::Unchanged => {},
        }
    }
}

/// Whatever is registered and run in between, an expectation stays where it is,
/// goes on matching the same commands, and answers nothing that it could not
/// have answered before: a factory that only makes one result makes it on
/// every match. What its closures were run for stays on record.
pub proof fn law_expectations_keep_their_kind(
    states: Seq<Seq<Expectation>>,
    events: Seq<MockEvent>,
    k: int,
    n: int,
    j: int,
)
    requires
        mock_history(states, events),
        0 <= k <= n <= events.len(),
        0 <= j < states[k].len(),
    ensures
        j < states[n].len(),
        forall|cmd: Cmd, answer: bool| #[trigger]
            states[n][j].matcher.may_match(cmd, answer) <==> states[k][j].matcher.may_match(
                cmd,
                answer,
            ),
        states[n][j].matcher_desc == states[k][j].matcher_desc,
        forall|r: MockResult| #[trigger]
            states[n][j].responder.may_give(r) ==> states[k][j].responder.may_give(r),
        states[k][j].matcher.asked().is_prefix_of(states[n][j].matcher.asked()),
        states[k][j].responder.made().is_prefix_of(states[n][j].responder.made()),
    decreases n - k,
{
    if k < n {
        law_expectations_keep_their_kind(states, events, k, n - 1, j);
        let (before, after) = (states[n - 1], states[n]);
        assert(happened(states[n - 1], events[n - 1], states[n - 1 + 1]));
        match events[n - 1] {
            MockEvent::Registered => {
                assert(after.drop_last()[j] == after[j]);
            },
            MockEvent::Answered { cmd, by, result } => {
                if j < by {
                    assert(before[j].passes(cmd, after[j]));
                }
                lemma_kept(before[j], after[j]);
            },
            MockEvent::Unanswered { cmd } => {
                assert(before[j].passes(cmd, after[j]));
                lemma_kept(before[j], after[j]);
            },
            MockEvent::Unchanged => {},
        }
    }
}

/// What a run leaves as it is in an expectation.
proof fn lemma_kept(before: Expectation, after: Expectation)
    requires
        after == before || (exists|cmd: Cmd| #[trigger] before.passes(cmd, after)) || (exists|
            cmd: Cmd,
            r: MockResult,
        | #[trigger]
            before.may_answer(cmd, r, after)),
    ensures
        forall|cmd: Cmd, answer: bool| #[trigger]
            after.matcher.may_match(cmd, answer) <==> before.matcher.may_match(cmd, answer),
        after.matcher_desc == before.matcher_desc,
        forall|r: MockResult| #[trigger]
            after.responder.may_give(r) ==> before.responder.may_give(r),
        before.matcher.asked().is_prefix_of(after.matcher.asked()),
        before.responder.made().is_prefix_of(after.responder.made()),
{
}

/// Commands that are left alone do not change how expectations are listed.
proof fn lemma_passing_shows_the_same(before: Seq<Expectation>, after: Seq<Expectation>, cmd: Cmd)
    requires
        unanswered(before, after, cmd),
    ensures
        after.map_values(|e: Expectation| e.listed()) == before.map_values(
            |e: Expectation| e.listed(),
        ),
{
    assert forall|j: int| 0 <= j < before.len() implies (#[trigger] after[j]).listed()
        == before[j].listed() by {
        assert(before[j].passes(cmd, after[j]));
    }
    assert(after.map_values(|e: Expectation| e.listed()) =~= before.map_values(
        |e: Expectation| e.listed(),
    ));
}

proof fn lemma_calls_within_total(s: Seq<Expectation>, i: int)
    requires
        0 <= i < s.len(),
    ensures
        s[i].calls <= total_calls(s),
    decreases s.len(),
{
    if i < s.len() - 1 {
        lemma_calls_within_total(s.drop_last(), i);
    }
}

proof fn lemma_same_calls(before: Seq<Expectation>, after: Seq<Expectation>)
    requires
        after.len() == before.len(),
        forall|j: int| 0 <= j < before.len() ==> (#[trigger] after[j]).calls == before[j].calls,
    ensures
        total_calls(after) == total_calls(before),
    decreases before.len(),
{
    if before.len() > 0 {
        lemma_same_calls(before.drop_last(), after.drop_last());
        assert(after[before.len() - 1].calls == before[before.len() - 1].calls);
    }
}

proof fn lemma_one_call_more(before: Seq<Expectation>, after: Seq<Expectation>, i: int)
    requires
        after.len() == before.len(),
        0 <= i < before.len(),
        after[i].calls == before[i].calls + 1,
        forall|j: int|
            0 <= j < before.len() && j != i ==> (#[trigger] after[j]).calls == before[j].calls,
    ensures
        total_calls(after) == total_calls(before) + 1,
    decreases before.len(),
{
    if i < before.len() - 1 {
        lemma_one_call_more(before.drop_last(), after.drop_last(), i);
        assert(after[before.len() - 1].calls == before[before.len() - 1].calls);
    } else {
        lemma_same_calls(before.drop_last(), after.drop_last());
    }
}

/// An answered command is no longer missed by [`MockRunner::verify`], and no
/// expectation that was met becomes unmet.
pub proof fn law_answers_meet_expectations(
    before: Seq<Expectation>,
    after: Seq<Expectation>,
    cmd: Cmd,
    i: int,
    result: MockResult,
)
    requires
        answered(before, after, cmd, i, result),
    ensures
        after[i].calls > 0,
        forall|j: int|
            0 <= j < before.len() && (#[trigger] before[j]).calls > 0 ==> after[j].calls > 0,
        unmet(after).len() <= unmet(before).len(),
{
    assert forall|j: int| 0 <= j < before.len() && (#[trigger] before[j]).calls > 0 implies
        after[j].calls > 0 by {
        if j < i {
            assert(before[j].passes(cmd, after[j]));
        }
    }
    lemma_unmet_shrinks(before, after);
}

proof fn lemma_unmet_shrinks(before: Seq<Expectation>, after: Seq<Expectation>)
    requires
        before.len() == after.len(),
        forall|j: int|
            0 <= j < before.len() && (#[trigger] before[j]).calls > 0 ==> after[j].calls > 0,
    ensures
        unmet(after).len() <= unmet(before).len(),
    decreases before.len(),
{
    if before.len() > 0 {
        lemma_unmet_shrinks(before.drop_last(), after.drop_last());
        assert(before.last() == before[before.len() - 1]);
    }
}

/// An error from a mocked run names the command that was run.
pub proof fn law_mocked_errors_name_the_command(result: MockResultView, command: CmdDisplayView)
    ensures
        result.resolved(command) matches Err(e) ==> e.command() == command,
{
}

/// A mocked result is handed out as it was written down, for the command that
/// was run: a success with both streams, a failed exit with its code in the
/// status, a spawn failure with its cause, a timeout with its time. Errors are
/// of the first attempt.
pub proof fn law_mocked_results_are_handed_out_whole(
    result: MockResultView,
    command: CmdDisplayView,
)
    ensures
        ({
            let given = result.resolved(command);
            &&& given matches Err(e) ==> e.attempts() == 1
            &&& match result {
                MockResultView::Success { stdout, stderr } => {
                    given matches Ok(out) && out.stdout == stdout && out.stderr == stderr
                },
                MockResultView::NonZeroExit { code, stdout, stderr } => {
                    &&& given matches Err(
                        RunErrorView::NonZeroExit { status, stdout: o, stderr: e, .. },
                    )
                    &&& status.exit_code() == Some(code & 0xff)
                    &&& o == stdout
                    &&& e == stderr
                },
                MockResultView::Spawn { source } => {
                    given matches Err(RunErrorView::Spawn { source: s, .. }) && s == source
                },
                MockResultView::Timeout { elapsed, stdout, stderr } => {
                    &&& given matches Err(
                        RunErrorView::Timeout { elapsed: t, stdout: o, stderr: e, .. },
                    )
                    &&& t == elapsed
                    &&& o == stdout
                    &&& e == stderr
                },
            }
        }),
{
    if let MockResultView::NonZeroExit { code, .. } = result {
        law_exit_code_is_reported(code);
    }
}

/// The contents of a mocked result are its own parts.
pub proof fn law_mocked_contents(
    stdout: Vec<u8>,
    stderr: String,
    code: i32,
    source: IoError,
    elapsed: Duration,
)
    ensures
        (MockResult::Success { stdout, stderr })@ == (MockResultView::Success {
            stdout: stdout@,
            stderr: stderr@,
        }),
        (MockResult::NonZeroExit { code, stdout, stderr })@ == (MockResultView::NonZeroExit {
            code,
            stdout: stdout@,
            stderr: stderr@,
        }),
        (MockResult::Spawn { source })@ == (MockResultView::Spawn { source: source@ }),
        (MockResult::Timeout { elapsed, stdout, stderr })@ == (MockResultView::Timeout {
            elapsed,
            stdout: stdout@,
            stderr: stderr@,
        }),
{
}

/// A display matches exactly the commands that look like it, however often it
/// is asked; a predicate decides by itself and is asked for every command.
pub proof fn law_matchers_decide(
    display: String,
    p: Predicate,
    cmd: Cmd,
    answer: bool,
    after: Matcher,
)
    ensures
        Matcher::Display(display).may_match(cmd, answer) <==> answer == (
        cmd@.display().rendered() == display@),
        Matcher::Display(display).may_ask(cmd, answer, after) ==> {
            &&& answer == (cmd@.display().rendered() == display@)
            &&& after == Matcher::Display(display)
        },
        Matcher::Display(display).asked().len() == 0,
        Matcher::Predicate(p).may_match(cmd, answer) == p.may_answer(cmd, answer),
        Matcher::Predicate(p).asked() == p.asked(),
        Matcher::Predicate(p).may_ask(cmd, answer, after) ==> {
            &&& p.may_answer(cmd, answer)
            &&& after matches Matcher::Predicate(q)
            &&& q.asked() == p.asked().push((cmd, answer))
        },
{
}

/// A result that is given once goes out as it is and is gone then.
pub proof fn law_once_gives_its_result_once(
    held: MockResult,
    given: Option<MockResult>,
    after: Responder,
)
    ensures
        (Responder::Once { result: Some(held) }).may_take(given, after) <==> given == Some(held)
            && after == (Responder::Once { result: None }),
        (Responder::Once { result: None }).may_take(given, after) <==> given is None && after == (
        Responder::Once { result: None }),
        (Responder::Once { result: Some(held) }).answers_left() == Some(1nat),
        (Responder::Once { result: None }).answers_left() == Some(0nat),
{
}

/// A bounded responder answers as often as it was set up for, with what its
/// factory makes then, and stays silent afterwards; an unlimited one always
/// answers.
pub proof fn law_factories_answer_while_they_may(
    factory: Factory,
    remaining: usize,
    given: Option<MockResult>,
    after: Responder,
)
    ensures
        (Responder::Bounded { factory, remaining }).may_take(given, after) ==> if remaining == 0 {
            given is None && after == (Responder::Bounded { factory, remaining })
        } else {
            &&& given matches Some(result)
            &&& after matches Responder::Bounded { factory: later, remaining: left }
            &&& left + 1 == remaining
            &&& factory.may_produce(result)
            &&& later.made() == factory.made().push(result)
        },
        (Responder::Unlimited { factory }).may_take(given, after) ==> {
            &&& given matches Some(result)
            &&& after matches Responder::Unlimited { factory: later }
            &&& factory.may_produce(result)
            &&& later.made() == factory.made().push(result)
        },
        (Responder::Bounded { factory, remaining }).answers_left() == Some(remaining as nat),
        (Responder::Unlimited { factory }).answers_left() is None,
        (Responder::Bounded { factory, remaining }).made() == factory.made(),
        (Responder::Unlimited { factory }).made() == factory.made(),
{
}

/// The answer comes from the first expectation that has one left and matches:
/// every earlier one was exhausted or did not match, the later ones were not
/// asked, and only the answering one gave anything or was counted.
pub proof fn law_first_match_answers(
    before: Seq<Expectation>,
    after: Seq<Expectation>,
    cmd: Cmd,
    i: int,
    result: MockResult,
    j: int,
)
    requires
        answered(before, after, cmd, i, result),
        0 <= j < before.len(),
    ensures
        after.len() == before.len(),
        before[i].responder.answers_left() != Some(0nat),
        before[i].matcher.may_match(cmd, true),
        before[i].responder.may_give(result),
        before[i].calls < usize::MAX ==> after[i].calls == before[i].calls + 1,
        j < i ==> before[j].responder.answers_left() == Some(0nat)
            || before[j].matcher.may_match(cmd, false),
        j < i && before[j].responder.answers_left() == Some(0nat) ==> after[j] == before[j],
        j > i ==> after[j] == before[j],
        j != i ==> {
            &&& after[j].responder == before[j].responder
            &&& after[j].calls == before[j].calls
        },
        after[j].matcher_desc == before[j].matcher_desc,
{
    if j < i {
        assert(before[j].passes(cmd, after[j]));
    }
}

/// A command that nothing answers is one that every expectation was exhausted
/// for or did not match, and it is counted nowhere.
pub proof fn law_unanswered_commands_count_nowhere(
    before: Seq<Expectation>,
    after: Seq<Expectation>,
    cmd: Cmd,
    j: int,
)
    requires
        unanswered(before, after, cmd),
        0 <= j < before.len(),
    ensures
        after.len() == before.len(),
        before[j].responder.answers_left() == Some(0nat) || before[j].matcher.may_match(cmd, false),
        after[j].responder == before[j].responder,
        after[j].calls == before[j].calls,
        after[j].matcher_desc == before[j].matcher_desc,
{
    assert(before[j].passes(cmd, after[j]));
}

/// Unmet are exactly the expectations that never answered, in the order in which
/// they were registered.
pub proof fn law_unmet_are_those_without_calls(
    a: Seq<Expectation>,
    b: Seq<Expectation>,
    e: Expectation,
)
    ensures
        unmet(a + b) == unmet(a) + unmet(b),
        e.calls == 0 ==> unmet(seq![e]) == seq![e.matcher_desc@],
        e.calls > 0 ==> unmet(seq![e]).len() == 0,
        unmet(Seq::empty()).len() == 0,
    decreases b.len(),
{
    assert(seq![e].drop_last() =~= Seq::empty());
    assert(unmet(seq![e].drop_last()).len() == 0);
    if e.calls == 0 {
        assert(unmet(seq![e]) =~= seq![e.matcher_desc@]);
    }
    if b.len() == 0 {
        assert(a + b =~= a);
        assert(unmet(a) + unmet(b) =~= unmet(a));
    } else {
        law_unmet_are_those_without_calls(a, b.drop_last(), e);
        assert((a + b).drop_last() =~= a + b.drop_last());
        assert((a + b).last() == b.last());
        assert(unmet(a + b) =~= unmet(a) + unmet(b));
    }
}

/// Reports list what they are about, one to a line: each expectation with its
/// description, its calls and whether it is exhausted, and each one that is
/// unmet with its description, behind their number.
pub proof fn law_reports_list_every_expectation(
    expectations: Seq<Expectation>,
    e: Expectation,
    command: CmdDisplayView,
    descriptions: Seq<Seq<char>>,
    description: Seq<char>,
)
    ensures
        e.responder.answers_left() == Some(0nat) ==> e.listed() == e.matcher_desc@ + " (calls="@
            + text::decimal(e.calls as nat) + ", exhausted="@ + "true"@ + ")"@,
        e.responder.answers_left() != Some(0nat) ==> e.listed() == e.matcher_desc@ + " (calls="@
            + text::decimal(e.calls as nat) + ", exhausted="@ + "false"@ + ")"@,
        no_match_report(seq![e], command)
            == "MockRunner: no matching expectation for command:\n  "@ + command.rendered()
            + "\nregistered:\n  - "@ + e.listed(),
        no_match_report(Seq::empty(), command)
            == "MockRunner: no matching expectation for command:\n  "@ + command.rendered()
            + "\nregistered:\n  - "@,
        expectations.len() > 0 ==> no_match_report(expectations.push(e), command)
            == no_match_report(expectations, command) + "\n  - "@ + e.listed(),
        unmet_report(seq![description]) == text::decimal(1)
            + " unmet MockRunner expectation(s):\n  - "@ + description,
        descriptions.len() > 0 ==> unmet_report(descriptions.push(description)) == text::decimal(
            descriptions.len() + 1,
        ) + unmet_report(descriptions).skip(text::decimal(descriptions.len()).len() as int)
            + "\n  - "@ + description,
{
    let f = |e: Expectation| e.listed();
    let sep = "\n  - "@;
    let head = "MockRunner: no matching expectation for command:\n  "@ + command.rendered()
        + "\nregistered:\n  - "@;
    assert(seq![e].map_values(f) =~= seq![e.listed()]);
    text::law_joining_composes(seq![e.listed()], Seq::empty(), sep);
    assert(Seq::<Expectation>::empty().map_values(f) =~= Seq::empty());
    text::law_joining_composes(Seq::empty(), Seq::empty(), sep);
    assert(no_match_report(Seq::empty(), command) =~= head);
    if expectations.len() > 0 {
        assert(expectations.push(e).map_values(f) =~= expectations.map_values(f) + seq![e.listed()]);
        text::law_joining_composes(expectations.map_values(f), seq![e.listed()], sep);
        assert(no_match_report(expectations.push(e), command) =~= no_match_report(
            expectations,
            command,
        ) + sep + e.listed());
    }
    text::law_joining_composes(seq![description], Seq::empty(), sep);
    if descriptions.len() > 0 {
        assert(descriptions.push(description) =~= descriptions + seq![description]);
        text::law_joining_composes(descriptions, seq![description], sep);
        let n = text::decimal(descriptions.len());
        let said = " unmet MockRunner expectation(s):\n  - "@;
        assert(unmet_report(descriptions).skip(n.len() as int) =~= said + text::joined(
            descriptions,
            sep,
        ));
        assert(unmet_report(descriptions.push(description)) =~= text::decimal(
            descriptions.len() + 1,
        ) + unmet_report(descriptions).skip(n.len() as int) + sep + description);
    }
}

/// The description of a display quotes it, and that of a bound tells the number.
pub proof fn law_descriptions(display: Seq<char>, times: usize)
    ensures
        display_desc(display) == "display = "@ + text::debug_quoted(display),
        times_desc(times) == " (×"@ + text::decimal(times as nat) + ")"@,
{
}

/// A new expectation comes behind those that are there, which stay as they are,
/// and has answered nothing.
pub proof fn law_registering_adds_one_at_the_end(
    before: Seq<Expectation>,
    after: Seq<Expectation>,
    j: int,
)
    requires
        extended(before, after),
    ensures
        after.len() == before.len() + 1,
        0 <= j < before.len() ==> after[j] == before[j],
        after.last().calls == 0,
        after.last().matcher.asked().len() == 0,
        after.last().responder.made().len() == 0,
{
    if 0 <= j < before.len() {
        assert(after.drop_last()[j] == before[j]);
    }
}

/// Results, as they are written down and handed out.
pub proof fn law_results_are_written_down_as_given(
    stdout: Vec<u8>,
    text: &str,
    code: i32,
    elapsed: Duration,
    r: MockResult,
    status: ExitStatus,
    command: &CmdDisplay,
    given: Result<RunOutput, RunError>,
)
    ensures
        call_ensures(ok, (stdout,), r) ==> (
        r@ matches MockResultView::Success { stdout: o, stderr } && o == stdout@ && stderr.len()
            == 0),
        call_ensures(ok_str, (text,), r) ==> (
        r@ matches MockResultView::Success { stdout: o, stderr } && o == encode_utf8(text@)
            && stderr.len() == 0),
        call_ensures(nonzero, (code, text), r) ==> (
        r@ matches MockResultView::NonZeroExit { code: c, stdout: o, stderr } && c == code
            && o.len() == 0 && stderr == text@),
        call_ensures(spawn_error, (text,), r) ==> (r@ matches MockResultView::Spawn { source }
            && source.kind == IoErrorKind::Other && source.code is None && source.message == text@),
        call_ensures(timeout, (elapsed, text), r) ==> (
        r@ matches MockResultView::Timeout { elapsed: t, stdout: o, stderr } && t == elapsed
            && o.len() == 0 && stderr == text@),
        call_ensures(build_exit_status, (code,), status) ==> status.exit_code() == Some(
            code & 0xff,
        ),
        call_ensures(MockResult::resolve, (r, command), given) ==> output::result_view(given)
            == r@.resolved(command@),
{
    law_exit_code_is_reported(code);
}

/// A responder and a matcher, as they are asked.
pub proof fn law_responders_and_matchers_are_asked_once(
    responder: &mut Responder,
    given: Option<MockResult>,
    matcher: &mut Matcher,
    cmd: &Cmd,
    answer: bool,
    looked_at: &Responder,
)
    ensures
        call_ensures(Responder::take, (responder,), given) ==> {
            let (before, after) = (*old(responder), *final(responder));
            &&& given is None <==> before.answers_left() == Some(0nat)
            &&& given is None ==> after == before
            &&& given matches Some(result) ==> {
                &&& before.may_give(result)
                &&& before is Once ==> after == (Responder::Once { result: None })
                &&& before !is Once ==> after.made() == before.made().push(result)
                &&& before.answers_left() matches Some(n) ==> after.answers_left() == Some(
                    (n - 1) as nat,
                )
                &&& before.answers_left() is None ==> after.answers_left() is None
            }
        },
        call_ensures(Responder::exhausted, (looked_at,), answer) ==> answer == (
        looked_at.answers_left() == Some(0nat)),
        call_ensures(Matcher::matches, (matcher, cmd), answer) ==> {
            let (before, after) = (*old(matcher), *final(matcher));
            &&& before.may_match(*cmd, answer)
            &&& before matches Matcher::Display(d) ==> {
                &&& answer == (cmd@.display().rendered() == d@)
                &&& after == before
            }
            &&& before is Predicate ==> after.asked() == before.asked().push((*cmd, answer))
        },
{
}

/// A runner, as it is made and told what to do without a match.
pub proof fn law_runners_begin_without_expectations(
    fresh: MockRunner,
    m: MockRunner,
    lenient: MockRunner,
    display: &str,
    result: MockResult,
    more: MockRunner,
)
    ensures
        call_ensures(MockRunner::new, (), fresh) || call_ensures(MockRunner::default, (), fresh)
            ==> fresh.expectations().len() == 0 && fresh.panics_on_no_match(),
        call_ensures(MockRunner::error_on_no_match, (m,), lenient) ==> {
            &&& lenient.expectations() == m.expectations()
            &&& !lenient.panics_on_no_match()
        },
        call_ensures(MockRunner::expect, (m, display, result), more) ==> {
            &&& more.panics_on_no_match() == m.panics_on_no_match()
            &&& more.expectations().len() == m.expectations().len() + 1
            &&& more.expectations().drop_last() == m.expectations()
            &&& more.expectations().last().matcher matches Matcher::Display(d)
            &&& d@ == display@
            &&& more.expectations().last().responder == (Responder::Once { result: Some(result) })
            &&& more.expectations().last().calls == 0
            &&& more.expectations().last().matcher_desc@ == display_desc(display@)
        },
{
}

/// A runner is verified exactly if every expectation answered; else the report
/// is about those that did not.
pub proof fn law_verifying_finds_what_is_unmet(m: &MockRunner, r: Result<(), String>)
    requires
        call_ensures(MockRunner::verify, (m,), r),
    ensures
        r is Ok <==> forall|i: int|
            0 <= i < m.expectations().len() ==> (#[trigger] m.expectations()[i]).calls > 0,
        r matches Err(report) ==> report@ == unmet_report(unmet(m.expectations())),
{
    lemma_nothing_unmet(m.expectations());
}

proof fn lemma_nothing_unmet(s: Seq<Expectation>)
    ensures
        unmet(s).len() == 0 <==> forall|i: int|
            0 <= i < s.len() ==> (#[trigger] s[i]).calls > 0,
    decreases s.len(),
{
    if s.len() > 0 {
        let init = s.drop_last();
        lemma_nothing_unmet(init);
        if unmet(s).len() == 0 {
            assert forall|i: int| 0 <= i < s.len() implies (#[trigger] s[i]).calls > 0 by {
                if i < init.len() {
                    assert(init[i].calls > 0);
                }
            }
        }
        if forall|i: int| 0 <= i < s.len() ==> (#[trigger] s[i]).calls > 0 {
            assert forall|i: int| 0 <= i < init.len() implies (#[trigger] init[i]).calls > 0 by {
                assert(s[i].calls > 0);
            }
            assert(s[s.len() - 1].calls > 0);
        }
    }
}

/// A command that is run is answered by the first expectation that has an answer
/// left and matches, with what that one gives, resolved for the command; where
/// there is none, the result is a spawn failure that holds the report, and
/// nothing is counted.
pub proof fn law_runs_are_answered_by_the_first_match(
    m: &mut MockRunner,
    cmd: Cmd,
    r: Result<RunOutput, RunError>,
)
    requires
        call_ensures(<MockRunner as Runner>::run, (m, cmd), r),
    ensures
        final(m).panics_on_no_match() == old(m).panics_on_no_match(),
        final(m).expectations().len() == old(m).expectations().len(),
        (exists|i: int, result: MockResult|
            {
                &&& 0 <= i < old(m).expectations().len()
                &&& #[trigger] old(m).expectations()[i].responder.may_give(result)
                &&& old(m).expectations()[i].matcher.may_match(cmd, true)
                &&& old(m).expectations()[i].responder.answers_left() != Some(0nat)
                &&& forall|j: int|
                    0 <= j < i ==> (#[trigger] old(m).expectations()[j]).responder.answers_left()
                        == Some(0nat) || old(m).expectations()[j].matcher.may_match(cmd, false)
                &&& output::result_view(r) == result@.resolved(cmd@.display())
            }) || {
            &&& forall|j: int|
                0 <= j < old(m).expectations().len() ==> (
                #[trigger] old(m).expectations()[j]).responder.answers_left() == Some(0nat)
                    || old(m).expectations()[j].matcher.may_match(cmd, false)
            &&& r matches Err(e)
            &&& e@ matches RunErrorView::Spawn { command, source }
            &&& command == cmd@.display()
            &&& source.kind == IoErrorKind::Other
            &&& source.message == no_match_report(old(m).expectations(), cmd@.display())
        },
{
    let (before, after) = (old(m).expectations(), final(m).expectations());
    if exists|i: int, x: MockResult|
        #[trigger] answered(before, after, cmd, i, x) && output::result_view(r) == x@.resolved(
            cmd@.display(),
        ) {
        let (i, x) = choose|i: int, x: MockResult|
            #[trigger] answered(before, after, cmd, i, x) && output::result_view(r) == x@.resolved(
                cmd@.display(),
            );
        assert forall|j: int| 0 <= j < i implies (#[trigger] before[j]).responder.answers_left()
            == Some(0nat) || before[j].matcher.may_match(cmd, false) by {
            law_first_match_answers(before, after, cmd, i, x, j);
        }
        law_first_match_answers(before, after, cmd, i, x, i);
    } else {
        assert forall|j: int| 0 <= j < before.len() implies (
        #[trigger] before[j]).responder.answers_left() == Some(0nat)
            || before[j].matcher.may_match(cmd, false) by {
            law_unanswered_commands_count_nowhere(before, after, cmd, j);
        }
    }
}

/// An expectation, as it is registered: behind the others, with the display or
/// predicate and the results that were given for it, for as often as was asked,
/// and without running anything.
pub proof fn law_expectations_are_registered_as_asked<
    P: Fn(&Cmd) -> bool + Send + Sync + 'static,
    F: FnMut() -> MockResult + Send + 'static,
>(
    m: MockRunner,
    display: &str,
    matcher: P,
    times: usize,
    factory: F,
    result: MockResult,
    more: MockRunner,
    cmd: Cmd,
    answer: bool,
)
    ensures
        ({
            let e = more.expectations().last();
            let added = {
                &&& more.panics_on_no_match() == m.panics_on_no_match()
                &&& more.expectations().len() == m.expectations().len() + 1
                &&& more.expectations().drop_last() == m.expectations()
                &&& e.calls == 0
                &&& e.matcher.asked().len() == 0
                &&& e.responder.made().len() == 0
            };
            let shown = e.matcher matches Matcher::Display(d) && d@ == display@;
            let decided = e.matcher is Predicate && (e.matcher.may_match(cmd, answer)
                <==> call_ensures(matcher, (&cmd,), answer));
            let counted_down = e.responder is Bounded && e.responder.answers_left() == Some(
                times as nat,
            );
            let made = e.responder.may_give(result) <==> call_ensures(factory, (), result);
            &&& call_ensures(MockRunner::expect_when::<P>, (m, matcher, result), more) ==> {
                &&& added
                &&& decided
                &&& e.responder == (Responder::Once { result: Some(result) })
                &&& e.matcher_desc@ == "<predicate>"@
            }
            &&& call_ensures(
                MockRunner::expect_repeated::<F>,
                (m, display, times, factory),
                more,
            ) ==> {
                &&& added
                &&& shown
                &&& counted_down
                &&& made
                &&& e.matcher_desc@ == display_desc(display@) + times_desc(times)
            }
            &&& call_ensures(
                MockRunner::expect_when_repeated::<P, F>,
                (m, matcher, times, factory),
                more,
            ) ==> {
                &&& added
                &&& decided
                &&& counted_down
                &&& made
                &&& e.matcher_desc@ == "<predicate>"@ + times_desc(times)
            }
            &&& call_ensures(MockRunner::expect_always::<F>, (m, display, factory), more) ==> {
                &&& added
                &&& shown
                &&& e.responder.answers_left() is None
                &&& made
                &&& e.matcher_desc@ == display_desc(display@) + " (∞)"@
            }
            &&& call_ensures(
                MockRunner::expect_when_always::<P, F>,
                (m, matcher, factory),
                more,
            ) ==> {
                &&& added
                &&& decided
                &&& e.responder.answers_left() is None
                &&& made
                &&& e.matcher_desc@ == "<predicate> (∞)"@
            }
        }),
{
}

/// A command, as it is dispatched: answered by the first match, or reported, with
/// nothing counted, where there is none.
pub proof fn law_dispatching_finds_the_first_match(
    m: &mut MockRunner,
    cmd: &Cmd,
    r: Result<Result<RunOutput, RunError>, String>,
)
    requires
        call_ensures(MockRunner::dispatch, (m, cmd), r),
    ensures
        final(m).panics_on_no_match() == old(m).panics_on_no_match(),
        r matches Ok(given) ==> exists|i: int, x: MockResult|
            {
                &&& #[trigger] answered(
                    old(m).expectations(),
                    final(m).expectations(),
                    *cmd,
                    i,
                    x,
                )
                &&& output::result_view(given) == x@.resolved(cmd@.display())
            },
        r matches Err(report) ==> {
            &&& unanswered(old(m).expectations(), final(m).expectations(), *cmd)
            &&& report@ == no_match_report(old(m).expectations(), cmd@.display())
        },
{
}

}
