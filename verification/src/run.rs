//! Running a command to its end, attempt by attempt.
//!
//! A [`Run`] decides how long an attempt may take, what it is fed, and what
//! follows when it ends: the result, or a pause before the next attempt. The
//! host starts and waits for the children in between, as
//! [`Launch`](crate::launch::Launch) and [`Waiting`](crate::wait::Waiting)
//! tell it.

use vstd::prelude::*;

use crate::cmd;
use crate::cmd::{Cmd, CmdView, HookHandle, SingleCmd};
use crate::cmd_display::CmdDisplay;
use crate::error::{RunError, RunErrorView};
use crate::launch::{Launch, LaunchView};
use crate::output::RunOutput;
use crate::plan::{Goal, LaunchPlan};
use crate::retry;
use crate::retry::{Retries, RetryPolicy};
use crate::stdin;
use crate::stdin::{AsyncStdinForAttempt, ReaderSlots, StdinView};
use crate::time;
use crate::time::{Duration, Instant};
use crate::wait::{Waiting, WaitingView};

verus! {

// ---------- one attempt ----------

/// How long an attempt that starts at `now` may take, in nanoseconds: what is
/// left until the deadline, and no more than the timeout.
pub open spec fn attempt_budget(
    timeout: Option<Duration>,
    deadline: Option<Instant>,
    now: nat,
) -> Option<nat> {
    match (timeout, deadline) {
        (None, None) => None,
        (Some(t), None) => Some(t@),
        (None, Some(d)) => Some(time::minus(d@, now)),
        (Some(t), Some(d)) => Some(time::least(t@, time::minus(d@, now))),
    }
}

/// The length of a span, where there is one.
pub open spec fn span(d: Option<Duration>) -> Option<nat> {
    match d {
        Some(d) => Some(d@),
        None => None,
    }
}

/// How long an attempt that starts at `now` may take.
pub fn budget_for(
    timeout: Option<Duration>,
    deadline: Option<Instant>,
    now: Instant,
) -> (b: Option<Duration>)
    ensures
        span(b) == attempt_budget(timeout, deadline, now@),
{
    match (timeout, deadline) {
        (None, None) => None,
        (Some(t), None) => Some(t),
        (None, Some(d)) => Some(d.saturating_duration_since(now)),
        (Some(t), Some(d)) => Some(t.min(d.saturating_duration_since(now))),
    }
}

/// The plan under which the stages of a command are started.
pub open spec fn plan_for(c: CmdView, goal: Goal, has_stdin: bool) -> LaunchPlan {
    LaunchPlan {
        goal,
        stages: c.stages.len() as usize,
        has_stdin,
        stdout_mode: c.stdout_mode,
        stderr_mode: c.stderr_mode,
    }
}

/// One attempt, ready to be started.
pub struct Attempt {
    pub launch: Launch,
    /// What the leftmost stage is fed.
    pub stdin: AsyncStdinForAttempt,
    /// How long the stages may take together.
    pub budget: Option<Duration>,
}

impl Attempt {
    /// What the leftmost stage is fed, to be handed to whoever feeds it.
    pub fn take_stdin(&mut self) -> (share: AsyncStdinForAttempt)
        ensures
            share@ == old(self).stdin@,
            final(self).stdin@ is Nothing,
            final(self).launch == old(self).launch,
            final(self).budget == old(self).budget,
    {
        let mut share = AsyncStdinForAttempt::Nothing;
        std::mem::swap(&mut self.stdin, &mut share);
        share
    }

    /// The wait for the stages, once all of them run: it covers every stage of
    /// the plan, within the attempt's budget.
    pub fn waiting(&self) -> (w: Waiting)
        requires
            self.launch@.next() is Ready,
        ensures
            w@ == WaitingView::fresh(self.launch@.plan.stages as nat, self.budget),
    {
        Waiting::new(self.launch.plan().stages, self.budget)
    }
}

/// What follows an attempt.
pub enum RunStep {
    /// The run is over.
    Return(Result<RunOutput, RunError>),
    /// Pause for this long, and start the next attempt.
    Sleep(Duration),
}

// ---------- all attempts ----------

/// A run of one command. The command's policy has gone into the retries.
pub struct Run {
    cmd: Cmd,
    display: CmdDisplay,
    retries: Option<Retries>,
    attempt: u32,
}

/// The contents of a [`Run`].
pub ghost struct RunView {
    pub cmd: CmdView,
    /// The delays before further attempts that are left, in nanoseconds.
    pub delays: Seq<nat>,
    /// The number of the attempt at hand, from 1.
    pub attempt: u32,
    /// The errors that the policy's predicate was asked about, with its
    /// answers.
    pub asked: Seq<(RunErrorView, bool)>,
}

impl View for Run {
    type V = RunView;

    closed spec fn view(&self) -> RunView {
        match self.retries {
            Some(r) => RunView {
                cmd: CmdView { retry: Some(r.policy()), ..self.cmd@ },
                delays: r.left(),
                attempt: self.attempt,
                asked: questions(r.asked()),
            },
            None => RunView {
                cmd: self.cmd@,
                delays: Seq::empty(),
                attempt: self.attempt,
                asked: Seq::empty(),
            },
        }
    }
}

/// What a predicate was asked, by the contents of the errors.
pub open spec fn questions(asked: Seq<(RunError, bool)>) -> Seq<(RunErrorView, bool)> {
    asked.map_values(|q: (RunError, bool)| (q.0@, q.1))
}

/// The number after `n`, as far as there is one.
pub open spec fn succ(n: u32) -> u32 {
    if n < u32::MAX {
        (n + 1) as u32
    } else {
        n
    }
}

impl RunView {
    /// A run of the command before its first attempt. Without a policy no
    /// further attempt is made.
    pub open spec fn is_fresh(self, c: CmdView) -> bool {
        &&& self.cmd == c
        &&& self.attempt == 1
        &&& self.asked.len() == 0
        &&& match c.retry {
            Some(policy) => retry::begins(Some(self.delays), policy.spacing()),
            None => self.delays.len() == 0,
        }
    }

    /// The deadline has passed.
    pub open spec fn expired(self, now: nat) -> bool {
        self.cmd.deadline matches Some(d) && now >= d@
    }

    /// The error of a run whose deadline passed before the attempt at hand.
    pub open spec fn expiry(self) -> RunErrorView {
        RunErrorView::Timeout {
            command: self.cmd.display(),
            elapsed: Duration { nanos: 0 },
            stdout: Seq::empty(),
            stderr: Seq::empty(),
            attempts: self.attempt,
        }
    }

    /// The error of a run that was cancelled before the attempt at hand was
    /// started.
    pub open spec fn cancellation(self) -> RunErrorView {
        RunErrorView::Cancelled {
            command: self.cmd.display(),
            stdout: Seq::empty(),
            stderr: Seq::empty(),
            attempts: self.attempt,
        }
    }

    /// The pause after a failed attempt: the next delay, but no longer than to
    /// the deadline.
    pub open spec fn pause(self, now: nat) -> nat {
        match self.cmd.deadline {
            Some(d) => time::least(self.delays[0], time::minus(d@, now)),
            None => self.delays[0],
        }
    }

    /// The run after the policy's predicate was asked once more.
    pub open spec fn heard(self, err: RunErrorView, answer: bool) -> RunView {
        RunView { asked: self.asked.push((err, answer)), ..self }
    }

    /// The run at its next attempt.
    pub open spec fn advanced(self) -> RunView {
        RunView { delays: self.delays.drop_first(), attempt: succ(self.attempt), ..self }
    }

    /// The policy may give this answer about an error with these contents.
    pub open spec fn may_answer(self, err: RunErrorView, answer: bool) -> bool {
        self.cmd.retry matches Some(policy) && exists|e: RunError|
            e@ == err && #[trigger] policy.may_answer(e, answer)
    }
}

impl Run {
    #[verifier::type_invariant]
    spec fn consistent(self) -> bool {
        &&& self.display@ == self.cmd@.display()
        &&& self.cmd.retry is None
        &&& self.cmd@.stages.len() <= usize::MAX
    }

    fn start(cmd: Cmd) -> (r: Run)
        ensures
            r@.is_fresh(cmd@),
    {
        let display = cmd.display();
        let mut cmd = cmd;
        let retries = match cmd.retry.take() {
            Some(policy) => Some(Retries::start(policy)),
            None => None,
        };
        let stages = cmd.tree.flatten();
        let count: usize = stages.len();
        assert(cmd::stage_derefs(stages@).len() == count);
        Run { cmd, display, retries, attempt: 1 }
    }

    /// The command, for display.
    pub fn command(&self) -> (c: &CmdDisplay)
        ensures
            c@ == self@.cmd.display(),
    {
        proof {
            use_type_invariant(self);
        }
        &self.display
    }

    /// The stages, leftmost first.
    pub fn stages(&self) -> (out: Vec<&SingleCmd>)
        ensures
            cmd::single_views(cmd::stage_derefs(out@)) == self@.cmd.stages,
    {
        self.cmd.tree.flatten()
    }

    /// The hook to run before every spawn.
    pub fn before_spawn(&self) -> (h: Option<HookHandle>)
        ensures
            h == self@.cmd.before_spawn,
    {
        self.cmd.before_spawn
    }

    /// The next attempt, or the run's last error where the deadline has
    /// passed; then nothing is taken from the reader slots.
    pub fn begin_attempt(&self, now: Instant, slots: &mut ReaderSlots) -> (r: Result<
        Attempt,
        RunError,
    >)
        ensures
            r is Err <==> self@.expired(now@),
            match r {
                Ok(a) => {
                    let share = stdin::attempt_share(self@.cmd.stdin, old(slots)@);
                    &&& a.stdin@ == share
                    &&& span(a.budget) == attempt_budget(
                        self@.cmd.timeout,
                        self@.cmd.deadline,
                        now@,
                    )
                    &&& a.launch@ == LaunchView::fresh(
                        plan_for(self@.cmd, Goal::Run, share !is Nothing),
                        self@.cmd.display(),
                    )
                    &&& final(slots)@ == stdin::slots_after(self@.cmd.stdin, old(slots)@)
                },
                Err(e) => {
                    &&& e@ == self@.expiry()
                    &&& final(slots)@ == old(slots)@
                },
            },
    {
        proof {
            use_type_invariant(self);
        }
        if let Some(d) = self.cmd.deadline {
            if now.nanos >= d.nanos {
                let e = RunError::Timeout {
                    command: self.display.clone(),
                    elapsed: Duration::zero(),
                    stdout: Vec::new(),
                    stderr: String::new(),
                    attempts: self.attempt,
                };
                assert(e@ == self@.expiry());
                return Err(e);
            }
        }
        let budget = budget_for(self.cmd.timeout, self.cmd.deadline, now);
        let share = stdin::attempt_stdin_async(&self.cmd.stdin, slots);
        let plan = plan_of(&self.cmd, Goal::Run, !share.is_nothing());
        Ok(Attempt { launch: Launch::new(plan, self.display.clone()), stdin: share, budget })
    }

    /// The run's last error where the caller cancelled it before the attempt at
    /// hand was started. One that is cancelled later tells the attempt's
    /// [`Waiting`].
    pub fn cancel(&self) -> (e: RunError)
        ensures
            e@ == self@.cancellation(),
    {
        proof {
            use_type_invariant(self);
        }
        let e = RunError::Cancelled {
            command: self.display.clone(),
            stdout: Vec::new(),
            stderr: String::new(),
            attempts: self.attempt,
        };
        assert(e@ == self@.cancellation());
        e
    }

    /// What follows an attempt that ended with `result`. A success is final. An
    /// error is stamped with the number of the attempt; it is final unless the
    /// policy wants it retried and has a delay left. The policy's predicate is
    /// asked once about an error, and not about a success.
    pub fn end_attempt(&mut self, now: Instant, result: Result<RunOutput, RunError>) -> (s: RunStep)
        ensures
            match result {
                Ok(out) => s == RunStep::Return(Ok(out)) && final(self)@ == old(self)@,
                Err(e) => {
                    let stamped = e@.stamped(old(self)@.attempt);
                    if old(self)@.cmd.retry is None {
                        &&& s matches RunStep::Return(Err(last))
                        &&& last@ == stamped
                        &&& final(self)@ == old(self)@
                    } else {
                        exists|answer: bool|
                            {
                                &&& #[trigger] old(self)@.may_answer(stamped, answer)
                                &&& if answer && old(self)@.delays.len() > 0 {
                                    &&& s matches RunStep::Sleep(d)
                                    &&& d@ == old(self)@.pause(now@)
                                    &&& final(self)@ == old(self)@.heard(stamped, answer).advanced()
                                } else {
                                    &&& s matches RunStep::Return(Err(last))
                                    &&& last@ == stamped
                                    &&& final(self)@ == old(self)@.heard(stamped, answer)
                                }
                            }
                    }
                },
            },
    {
        let e = match result {
            Ok(out) => {
                return RunStep::Return(Ok(out));
            },
            Err(e) => e,
        };
        proof {
            use_type_invariant(&*self);
        }
        let stamped = e.with_attempts(self.attempt);
        let mut whole = Run {
            cmd: Cmd::new(crate::os::OsText::from_bytes(Vec::new())),
            display: Cmd::new(crate::os::OsText::from_bytes(Vec::new())).display(),
            retries: None,
            attempt: 1,
        };
        std::mem::swap(self, &mut whole);
        let Run { cmd, display, retries, attempt } = whole;
        match retries {
            None => {
                *self = Run { cmd, display, retries: None, attempt };
                RunStep::Return(Err(stamped))
            },
            Some(before) => {
                let (delay, retries) = before.after_failure(&stamped);
                proof {
                    let answer = retries.asked().last().1;
                    let policy = old(self)@.cmd.retry->0;
                    assert(policy == before.policy());
                    assert(policy.may_answer(stamped, answer));
                    assert(old(self)@.may_answer(stamped@, answer));
                    assert(questions(retries.asked()) =~= questions(before.asked()).push(
                        (stamped@, answer),
                    ));
                }
                let deadline = cmd.deadline;
                match delay {
                    None => {
                        *self = Run { cmd, display, retries: Some(retries), attempt };
                        RunStep::Return(Err(stamped))
                    },
                    Some(d) => {
                        let pause = match deadline {
                            Some(end) => d.min(end.saturating_duration_since(now)),
                            None => d,
                        };
                        let attempt: u32 = if attempt < u32::MAX {
                            attempt + 1
                        } else {
                            attempt
                        };
                        *self = Run { cmd, display, retries: Some(retries), attempt };
                        RunStep::Sleep(pause)
                    },
                }
            },
        }
    }
}

/// The plan under which the stages of a command are started.
fn plan_of(c: &Cmd, goal: Goal, has_stdin: bool) -> (p: LaunchPlan)
    ensures
        p == plan_for(c@, goal, has_stdin),
        p.stages >= 1,
{
    let stages = c.tree.flatten();
    proof {
        c.tree.lemma_has_a_stage();
        assert(cmd::stage_derefs(stages@).len() == stages@.len());
    }
    LaunchPlan {
        goal,
        stages: stages.len(),
        has_stdin,
        stdout_mode: c.stdout_mode,
        stderr_mode: c.stderr_mode,
    }
}

impl Cmd {
    /// Run to the end on the async runner.
    pub fn run_async(self) -> (r: Run)
        ensures
            r@.is_fresh(self@),
    {
        Run::start(self)
    }

    /// Run to the end on the blocking runner, which refuses an async reader
    /// before anything is started.
    pub fn run(self) -> (r: Result<Run, RunError>)
        ensures
            match r {
                Ok(run) => !(self@.stdin matches Some(StdinView::AsyncReader(_)))
                    && run@.is_fresh(self@),
                Err(e) => {
                    &&& self@.stdin matches Some(StdinView::AsyncReader(_))
                    &&& e@ == stdin::async_reader_refusal(self@.display())
                },
            },
    {
        let display = self.display();
        match stdin::reject_async_stdin_on_sync(&self.stdin, &display) {
            Ok(_) => Ok(Run::start(self)),
            Err(e) => Err(e),
        }
    }
}

// ---------- laws ----------

/// An attempt has no more time than the timeout allows, and a bound only where
/// one was set.
pub proof fn law_attempts_keep_to_the_timeout(run: RunView, now: nat)
    ensures
        ({
            let budget = attempt_budget(run.cmd.timeout, run.cmd.deadline, now);
            &&& run.cmd.timeout matches Some(t) ==> budget matches Some(b) && b <= t@
            &&& budget is None <==> run.cmd.timeout is None && run.cmd.deadline is None
        }),
{
}

/// The deadline bounds the whole run. An attempt that starts before it and
/// keeps to its budget ends by it, and so does the pause that may follow; at
/// the deadline no further attempt starts.
pub proof fn law_run_ends_by_the_deadline(run: RunView, deadline: Instant, start: nat, end: nat)
    requires
        run.cmd.deadline == Some(deadline),
        !run.expired(start),
        start <= end,
        attempt_budget(run.cmd.timeout, run.cmd.deadline, start) matches Some(b) ==> end <= start
            + b,
    ensures
        attempt_budget(run.cmd.timeout, run.cmd.deadline, start) is Some,
        end <= deadline@,
        end + run.pause(end) <= deadline@,
        forall|now: nat| now >= deadline@ ==> #[trigger] run.expired(now),
        run.advanced().cmd == run.cmd,
{
}

/// No pause is longer than the policy's delay, and without a deadline it is
/// exactly that.
pub proof fn law_pauses_follow_the_policy(run: RunView, now: nat)
    ensures
        run.pause(now) <= run.delays[0],
        run.cmd.deadline is None ==> run.pause(now) == run.delays[0],
{
}

/// `after` is the run at the attempt that follows a failure of `before`, which
/// the policy's predicate wanted retried.
pub open spec fn retried(before: RunView, after: RunView) -> bool {
    before.delays.len() > 0 && exists|err: RunErrorView| after == (#[trigger] before.heard(
        err,
        true,
    )).advanced()
}

/// A run under a policy makes at most one attempt more than the policy allows
/// retries, and one without a policy makes a single attempt: `trace` holds the
/// run at its first attempt and at each one that followed. The predicate was
/// asked once for each attempt that failed.
pub proof fn law_attempts_are_bounded(trace: Seq<RunView>, c: CmdView, i: int)
    requires
        trace.len() >= 1,
        trace[0].is_fresh(c),
        forall|k: int|
            0 <= k < trace.len() - 1 ==> retried(#[trigger] trace[k], trace[k + 1]),
        0 <= i < trace.len(),
    ensures
        trace[i].attempt as int + trace[i].delays.len() <= 1 + trace[0].delays.len(),
        trace[i].asked.len() == i,
        c.retry is None ==> trace.len() == 1,
        c.retry matches Some(policy) ==> {
            policy.spacing() !is Overflowing ==> {
                &&& trace[i].attempt <= 1 + retry::most_delays(policy.spacing())
                &&& trace.len() <= 1 + retry::most_delays(policy.spacing())
            }
        },
    decreases i,
{
    lemma_delays_run_down(trace, trace.len() - 1);
    if i > 0 {
        law_attempts_are_bounded(trace, c, i - 1);
        let before = trace[i - 1];
        assert(retried(before, trace[i - 1 + 1]));
    }
    if c.retry is None && trace.len() > 1 {
        assert(retried(trace[0], trace[1]));
    }
}

proof fn lemma_delays_run_down(trace: Seq<RunView>, i: int)
    requires
        forall|k: int|
            0 <= k < trace.len() - 1 ==> retried(#[trigger] trace[k], trace[k + 1]),
        0 <= i < trace.len(),
    ensures
        trace[i].delays.len() + i == trace[0].delays.len(),
    decreases i,
{
    if i > 0 {
        lemma_delays_run_down(trace, i - 1);
        let before = trace[i - 1];
        assert(retried(before, trace[i - 1 + 1]));
    }
}

/// Under the default policy a failed attempt is retried if and only if its
/// stderr speaks of a stale working copy or a lock file.
pub proof fn law_default_policy_retries_transient_errors(
    run: RunView,
    policy: RetryPolicy,
    err: RunErrorView,
    answer: bool,
)
    requires
        run.cmd.retry == Some(policy),
        forall|e: RunError, a: bool| #[trigger]
            policy.may_answer(e, a) ==> a == retry::transient(e@),
        run.may_answer(err, answer),
    ensures
        answer == retry::transient(err),
{
}

/// An attempt has all the time that it is allowed. One that starts before the
/// deadline may go on until the deadline or until its timeout is over,
/// whichever comes first; one that starts at the deadline or later has none
/// left; the timeout alone is the budget where there is no deadline, and
/// without either there is no bound.
pub proof fn law_attempts_get_all_the_time_allowed(
    timeout: Option<Duration>,
    deadline: Option<Instant>,
    now: nat,
)
    ensures
        ({
            let budget = attempt_budget(timeout, deadline, now);
            &&& deadline is None && timeout is None ==> budget is None
            &&& deadline is None ==> (timeout matches Some(t) ==> budget == Some(t.nanos as nat))
            &&& deadline matches Some(d) ==> {
                &&& budget matches Some(b)
                &&& now >= d.nanos ==> b == 0
                &&& now < d.nanos && timeout is None ==> now + b == d.nanos
                &&& now < d.nanos ==> (timeout matches Some(t) ==> now + b == if now + t.nanos
                    <= d.nanos {
                    now + t.nanos
                } else {
                    d.nanos as int
                })
            }
        }),
{
}

/// A span is its length, and the absence of one stays that.
pub proof fn law_span_is_the_length(d: Duration)
    ensures
        span(Some(d)) == Some(d.nanos as nat),
        span(None) is None,
{
}

/// A command is started with as many stages as it has, its own stream settings,
/// and input where there is some.
pub proof fn law_plan_follows_the_command(c: CmdView, goal: Goal, has_stdin: bool)
    requires
        c.stages.len() <= usize::MAX,
    ensures
        ({
            let plan = plan_for(c, goal, has_stdin);
            &&& plan.stages == c.stages.len()
            &&& plan.goal == goal
            &&& plan.has_stdin == has_stdin
            &&& plan.stdout_mode == c.stdout_mode
            &&& plan.stderr_mode == c.stderr_mode
        }),
{
}

/// A fresh run is at its first attempt, has asked nothing, and has delays only
/// under a policy.
pub proof fn law_fresh_run_is_at_its_first_attempt(run: RunView, c: CmdView)
    requires
        run.is_fresh(c),
    ensures
        run.cmd == c,
        run.attempt == 1,
        run.asked.len() == 0,
        c.retry is None ==> run.delays.len() == 0,
{
}

/// A run is over its deadline from the deadline on, and never without one.
pub proof fn law_expiry_begins_at_the_deadline(run: RunView, now: nat)
    ensures
        run.cmd.deadline is None ==> !run.expired(now),
        run.cmd.deadline matches Some(d) ==> (run.expired(now) <==> now >= d.nanos),
{
}

/// A run that is over before an attempt starts, because of the deadline or of
/// the caller, names the command and that attempt, and has nothing captured.
pub proof fn law_run_that_ends_early_captured_nothing(run: RunView)
    ensures
        run.expiry() is Timeout,
        run.expiry()->elapsed.nanos == 0,
        run.cancellation() is Cancelled,
        forall|e: RunErrorView|
            (e == run.expiry() || e == run.cancellation()) ==> {
                &&& (#[trigger] e.command()) == run.cmd.display()
                &&& e.attempts() == run.attempt
                &&& e.stdout() matches Some(out) && out.len() == 0
                &&& e.stderr() matches Some(err) && err.len() == 0
            },
{
}

/// A pause lasts as long as the policy's next delay, unless the deadline comes
/// first: then it lasts until the deadline, and no time where that has passed.
pub proof fn law_pauses_last_until_delay_or_deadline(run: RunView, now: nat)
    ensures
        run.cmd.deadline is None ==> run.pause(now) == run.delays[0],
        run.cmd.deadline matches Some(d) ==> {
            &&& now >= d.nanos ==> run.pause(now) == 0
            &&& now < d.nanos ==> now + run.pause(now) == if now + run.delays[0] <= d.nanos {
                now + run.delays[0]
            } else {
                d.nanos as nat
            }
        },
{
}

/// One attempt follows the other: the number goes up by one, the delay that was
/// waited for is used up, and the rest of the run, what was asked of the
/// predicate included, stays.
pub proof fn law_next_attempt_uses_up_one_delay(run: RunView, err: RunErrorView, answer: bool)
    requires
        run.delays.len() > 0,
    ensures
        ({
            let next = run.heard(err, answer).advanced();
            &&& run.attempt < u32::MAX ==> next.attempt == run.attempt + 1
            &&& run.attempt == u32::MAX ==> next.attempt == u32::MAX
            &&& next.delays.len() + 1 == run.delays.len()
            &&& forall|i: int|
                0 <= i < next.delays.len() ==> #[trigger] next.delays[i] == run.delays[i + 1]
            &&& next.cmd == run.cmd
            &&& next.asked.len() == run.asked.len() + 1
            &&& next.asked.drop_last() == run.asked
            &&& next.asked.last() == (err, answer)
        }),
        ({
            let heard = run.heard(err, answer);
            &&& heard.attempt == run.attempt
            &&& heard.delays == run.delays
            &&& heard.cmd == run.cmd
            &&& heard.asked == run.asked.push((err, answer))
        }),
{
    assert(run.heard(err, answer).advanced().asked.drop_last() =~= run.asked);
}

/// Attempts are numbered from one, and each waits for the delay of its turn:
/// before its attempt `i + 1` a run has used up the first `i` delays.
pub proof fn law_attempts_are_numbered_in_order(trace: Seq<RunView>, c: CmdView, i: int)
    requires
        trace.len() >= 1,
        trace[0].is_fresh(c),
        forall|k: int|
            0 <= k < trace.len() - 1 ==> retried(#[trigger] trace[k], trace[k + 1]),
        0 <= i < trace.len(),
        i < u32::MAX,
    ensures
        trace[i].attempt == i + 1,
        trace[i].delays == trace[0].delays.skip(i),
        trace[i].cmd == c,
    decreases i,
{
    if i > 0 {
        law_attempts_are_numbered_in_order(trace, c, i - 1);
        lemma_delays_run_down(trace, i - 1);
        assert(retried(trace[i - 1], trace[i - 1 + 1]));
        assert(trace[i].delays =~= trace[0].delays.skip(i));
    } else {
        assert(trace[0].delays.skip(0) =~= trace[0].delays);
    }
}

/// What a predicate was asked is on record with the contents of each error and
/// its answer, in order.
pub proof fn law_questions_are_on_record(asked: Seq<(RunError, bool)>, i: int)
    requires
        0 <= i < asked.len(),
    ensures
        questions(asked).len() == asked.len(),
        questions(asked)[i] == (asked[i].0@, asked[i].1),
{
}

/// A run's predicate gives the answers of its policy about errors with the same
/// contents, and without a policy there are none.
pub proof fn law_policy_answers_for_the_run(run: RunView, err: RunError, answer: bool)
    ensures
        run.cmd.retry is None ==> !run.may_answer(err@, answer),
        run.cmd.retry matches Some(policy) ==> (policy.may_answer(err, answer) ==> run.may_answer(
            err@,
            answer,
        )),
{
}

/// The budget that is worked out for an attempt is all the time that it is
/// allowed: until the deadline or until its timeout is over, whichever comes
/// first.
pub proof fn law_worked_out_budget_is_all_the_time_allowed(
    timeout: Option<Duration>,
    deadline: Option<Instant>,
    now: Instant,
    b: Option<Duration>,
)
    requires
        call_ensures(budget_for, (timeout, deadline, now), b),
    ensures
        b is None <==> timeout is None && deadline is None,
        b matches Some(left) ==> {
            &&& deadline is None ==> Some(left) == timeout
            &&& deadline matches Some(d) ==> {
                &&& now.nanos >= d.nanos ==> left.nanos == 0
                &&& now.nanos < d.nanos ==> {
                    &&& now.nanos + left.nanos <= d.nanos
                    &&& timeout is None ==> now.nanos + left.nanos == d.nanos
                    &&& timeout matches Some(t) ==> {
                        &&& left.nanos <= t.nanos
                        &&& left.nanos == t.nanos || now.nanos + left.nanos == d.nanos
                    }
                }
            }
        },
{
}

/// An attempt begins exactly if the deadline has not passed. It has all the time
/// that is allowed, is fed its share of the input, and starts every stage of the
/// command with the command's own streams; what is refused is a timeout of this
/// attempt with nothing captured, and then no reader is taken.
pub proof fn law_attempt_begins_before_the_deadline(
    run: &Run,
    now: Instant,
    slots: &mut ReaderSlots,
    r: Result<Attempt, RunError>,
)
    requires
        call_ensures(Run::begin_attempt, (run, now, slots), r),
        run@.cmd.stages.len() <= usize::MAX,
    ensures
        r is Err <==> (run@.cmd.deadline matches Some(d) && now.nanos >= d.nanos),
        r matches Err(e) ==> {
            &&& e@ matches RunErrorView::Timeout { elapsed, stdout, stderr, attempts, command }
            &&& elapsed.nanos == 0
            &&& stdout.len() == 0
            &&& stderr.len() == 0
            &&& attempts == run@.attempt
            &&& command == run@.cmd.display()
            &&& final(slots)@ == old(slots)@
        },
        r matches Ok(a) ==> {
            &&& a.budget is None <==> run@.cmd.timeout is None && run@.cmd.deadline is None
            &&& a.budget matches Some(left) ==> {
                &&& run@.cmd.deadline is None ==> (run@.cmd.timeout matches Some(t) && t.nanos
                    == left.nanos)
                &&& run@.cmd.deadline matches Some(d) ==> {
                    &&& run@.cmd.timeout is None ==> now.nanos + left.nanos == d.nanos
                    &&& run@.cmd.timeout matches Some(t) ==> {
                        &&& left.nanos <= t.nanos
                        &&& now.nanos + left.nanos <= d.nanos
                        &&& left.nanos == t.nanos || now.nanos + left.nanos == d.nanos
                    }
                }
            }
            &&& a.stdin@ == stdin::attempt_share(run@.cmd.stdin, old(slots)@)
            &&& final(slots)@ == stdin::slots_after(run@.cmd.stdin, old(slots)@)
            &&& a.launch@.progress == 0
            &&& !a.launch@.failed
            &&& a.launch@.command == run@.cmd.display()
            &&& a.launch@.plan.goal is Run
            &&& a.launch@.plan.stages == run@.cmd.stages.len()
            &&& a.launch@.plan.has_stdin <==> a.stdin@ !is Nothing
            &&& a.launch@.plan.stdout_mode == run@.cmd.stdout_mode
            &&& a.launch@.plan.stderr_mode == run@.cmd.stderr_mode
        },
{
}

/// What follows an attempt. A success is returned as it is. An error is stamped
/// with the number of the attempt; without a policy it is returned. Under one,
/// the predicate decides: where it wants a retry and a delay is left, the run
/// pauses for that delay, but not beyond the deadline, and is at its next
/// attempt then; else the error is returned.
pub proof fn law_predicate_and_delays_decide_on_a_retry(
    run: &mut Run,
    now: Instant,
    result: Result<RunOutput, RunError>,
    s: RunStep,
)
    requires
        call_ensures(Run::end_attempt, (run, now, result), s),
    ensures
        final(run)@.cmd == old(run)@.cmd,
        result matches Ok(out) ==> s == RunStep::Return(Ok(out)) && final(run)@ == old(run)@,
        result matches Err(e) ==> {
            let n = old(run)@.attempt;
            &&& old(run)@.cmd.retry is None ==> s is Return && final(run)@ == old(run)@
            &&& s matches RunStep::Return(given) ==> {
                &&& given matches Err(last)
                &&& last@ == e@.stamped(n)
                &&& final(run)@.attempt == n
                &&& final(run)@.delays == old(run)@.delays
                &&& old(run)@.cmd.retry is Some ==> old(run)@.may_answer(e@.stamped(n), false)
                    || old(run)@.delays.len() == 0
            }
            &&& s matches RunStep::Sleep(d) ==> {
                &&& old(run)@.may_answer(e@.stamped(n), true)
                &&& old(run)@.delays.len() > 0
                &&& old(run)@.cmd.deadline is None ==> d.nanos == old(run)@.delays[0]
                &&& old(run)@.cmd.deadline matches Some(end) ==> {
                    &&& d.nanos <= old(run)@.delays[0]
                    &&& now.nanos >= end.nanos ==> d.nanos == 0
                    &&& now.nanos < end.nanos ==> {
                        &&& now.nanos + d.nanos <= end.nanos
                        &&& d.nanos == old(run)@.delays[0] || now.nanos + d.nanos == end.nanos
                    }
                }
                &&& n < u32::MAX ==> final(run)@.attempt == n + 1
                &&& final(run)@.delays == old(run)@.delays.drop_first()
            }
            &&& old(run)@.cmd.retry is Some ==> final(run)@.asked.len() == old(run)@.asked.len()
                + 1
        },
{
}

/// Running a command begins a run at its first attempt, with the command's own
/// settings; the blocking runner refuses an async reader, and nothing else.
pub proof fn law_runs_begin_at_the_first_attempt(
    c: Cmd,
    r: Run,
    blocking: Result<Run, RunError>,
)
    ensures
        call_ensures(Cmd::run_async, (c,), r) ==> {
            &&& r@.cmd == c@
            &&& r@.attempt == 1
            &&& r@.asked.len() == 0
            &&& c@.retry is None ==> r@.delays.len() == 0
            &&& c@.retry matches Some(policy) ==> retry::begins(Some(r@.delays), policy.spacing())
        },
        call_ensures(Cmd::run, (c,), blocking) ==> {
            &&& blocking is Err <==> (c@.stdin matches Some(StdinView::AsyncReader(_)))
            &&& blocking matches Err(e) ==> e@ is Spawn && e@.command() == c@.display()
            &&& blocking matches Ok(run) ==> {
                &&& run@.cmd == c@
                &&& run@.attempt == 1
                &&& run@.asked.len() == 0
                &&& c@.retry is None ==> run@.delays.len() == 0
                &&& c@.retry matches Some(policy) ==> retry::begins(
                    Some(run@.delays),
                    policy.spacing(),
                )
            }
        },
{
}

/// A run tells the command, the stages and the hook that it was made with, and
/// one that is cancelled says so of the attempt at hand.
pub proof fn law_runs_tell_what_they_run(
    run: &Run,
    command: &CmdDisplay,
    stages: Vec<&SingleCmd>,
    hook: Option<HookHandle>,
    e: RunError,
    i: int,
)
    ensures
        call_ensures(Run::command, (run,), command) ==> command@ == run@.cmd.display(),
        call_ensures(Run::stages, (run,), stages) ==> {
            &&& stages@.len() == run@.cmd.stages.len()
            &&& 0 <= i < stages@.len() ==> stages@[i]@ == run@.cmd.stages[i]
        },
        call_ensures(Run::before_spawn, (run,), hook) ==> hook == run@.cmd.before_spawn,
        call_ensures(Run::cancel, (run,), e) ==> {
            &&& e@ matches RunErrorView::Cancelled { command, stdout, stderr, attempts }
            &&& command == run@.cmd.display()
            &&& stdout.len() == 0
            &&& stderr.len() == 0
            &&& attempts == run@.attempt
        },
{
    if call_ensures(Run::stages, (run,), stages) {
        let views = cmd::single_views(cmd::stage_derefs(stages@));
        assert(views.len() == stages@.len());
        if 0 <= i < stages@.len() {
            assert(views[i] == stages@[i]@);
        }
    }
}

/// The wait for an attempt covers every stage that was launched, within the
/// attempt's budget, and its input is handed over once.
pub proof fn law_attempts_wait_for_every_stage(
    a: &Attempt,
    w: Waiting,
    b: &mut Attempt,
    share: AsyncStdinForAttempt,
)
    ensures
        call_ensures(Attempt::waiting, (a,), w) ==> {
            &&& w@.stages == a.launch@.plan.stages
            &&& w@.budget == a.budget
            &&& w@.outcomes.len() == 0
            &&& !w@.cancelled
        },
        call_ensures(Attempt::take_stdin, (b,), share) ==> {
            &&& share@ == old(b).stdin@
            &&& final(b).stdin@ is Nothing
            &&& final(b).launch == old(b).launch
            &&& final(b).budget == old(b).budget
        },
{
}

}
