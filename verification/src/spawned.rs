//! The blocking handle to children that run on.
//!
//! The handle keeps account of the pipes that the host holds: the leftmost
//! stage's stdin and the rightmost stage's stdout can each be taken once, and
//! stdout that nobody took is collected when the children have ended. The
//! first wait that sees every stage end stores the result; every later wait of
//! any kind returns the same one. A host that shares a handle between threads
//! holds it behind a lock.

use vstd::prelude::*;

use crate::cmd_display::{CmdDisplay, CmdDisplayView};
use crate::error::{RunError, RunErrorView};
use crate::handle;
use crate::handle::{FinalizedState, FinalizedView, Patience, PollingView, WaitStart, WaitStartView};
use crate::os::{ExitStatus, IoError};
use crate::output;
use crate::output::RunOutput;
use crate::time::Duration;

verus! {

/// Who has the rightmost stage's stdout.
#[derive(Debug, Clone, Copy, PartialEq, Eq, Structural)]
pub enum StdoutState {
    /// It was not asked for yet.
    NotTaken,
    /// The handle itself, since the first read through it.
    Cached,
    /// The caller, or nobody any more: reads see the end of the stream.
    GivenAway,
}

/// Handle to one or more running children: a single command or a pipeline.
pub struct SpawnedProcess {
    pids: Vec<u32>,
    stdin_held: bool,
    stdout: StdoutState,
    command: CmdDisplay,
    finalized: Option<FinalizedState>,
}

/// The contents of a [`SpawnedProcess`].
pub ghost struct SpawnedView {
    /// The stages' process ids, leftmost first.
    pub pids: Seq<u32>,
    /// The leftmost stage's stdin can still be taken.
    pub stdin_held: bool,
    pub stdout: StdoutState,
    pub command: CmdDisplayView,
    /// What was stored when the children had ended.
    pub finalized: Option<FinalizedView>,
}

impl View for SpawnedProcess {
    type V = SpawnedView;

    closed spec fn view(&self) -> SpawnedView {
        SpawnedView {
            pids: self.pids@,
            stdin_held: self.stdin_held,
            stdout: self.stdout,
            command: self.command@,
            finalized: handle::finalized_view(self.finalized),
        }
    }
}

impl SpawnedView {
    /// Children that were just started.
    pub open spec fn fresh(
        pids: Seq<u32>,
        stdin_held: bool,
        command: CmdDisplayView,
    ) -> SpawnedView {
        SpawnedView { pids, stdin_held, stdout: StdoutState::NotTaken, command, finalized: None }
    }

    /// There is a stage, and what is stored covers every stage.
    pub open spec fn in_order(self) -> bool {
        &&& self.pids.len() >= 1
        &&& self.finalized matches Some(state) ==> state.statuses.len() == self.pids.len()
    }

    /// The stage whose stdin can be taken: the leftmost one, once, and only if
    /// nothing is fed to it.
    pub open spec fn stdin_offer(self) -> Option<usize> {
        if self.stdin_held {
            Some(0)
        } else {
            None
        }
    }

    /// The rightmost stage.
    pub open spec fn last_stage(self) -> usize {
        (self.pids.len() - 1) as usize
    }

    /// The stage whose stdout can be taken: the rightmost one, once, and only
    /// if it was not read through the handle before.
    pub open spec fn stdout_offer(self) -> Option<usize> {
        if self.stdout is NotTaken {
            Some(self.last_stage())
        } else {
            None
        }
    }

    /// The stage whose stdout a read through the handle, or the collecting of
    /// what is left, comes from; none where the caller took it.
    pub open spec fn stdout_source(self) -> Option<usize> {
        if self.stdout is GivenAway {
            None
        } else {
            Some(self.last_stage())
        }
    }

    pub open spec fn without_stdin(self) -> SpawnedView {
        SpawnedView { stdin_held: false, ..self }
    }

    /// The handle after the caller took stdout.
    pub open spec fn stdout_taken(self) -> SpawnedView {
        SpawnedView {
            stdout: if self.stdout is NotTaken {
                StdoutState::GivenAway
            } else {
                self.stdout
            },
            ..self
        }
    }

    /// The handle after a read.
    pub open spec fn stdout_read(self) -> SpawnedView {
        SpawnedView {
            stdout: if self.stdout is GivenAway {
                StdoutState::GivenAway
            } else {
                StdoutState::Cached
            },
            ..self
        }
    }

    /// The handle after what was left of stdout was collected.
    pub open spec fn stdout_drained(self) -> SpawnedView {
        SpawnedView { stdout: StdoutState::GivenAway, ..self }
    }

    /// How a wait begins.
    pub open spec fn wait_start(self, patience: Patience) -> WaitStartView {
        handle::wait_start(self.command, self.pids.len(), self.finalized, patience)
    }

    /// What finalizing stores: only the first time counts.
    pub open spec fn stored(self, state: FinalizedView) -> FinalizedView {
        match self.finalized {
            Some(earlier) => earlier,
            None => state,
        }
    }
}

impl SpawnedProcess {
    #[verifier::type_invariant]
    spec fn ordered(self) -> bool {
        self@.in_order()
    }

    /// A handle to one child. `stdin_held` is false where the child's stdin is
    /// being fed already.
    pub fn new_single(pid: u32, stdin_held: bool, command: CmdDisplay) -> (p: SpawnedProcess)
        ensures
            p@ == SpawnedView::fresh(seq![pid], stdin_held, command@),
    {
        let mut pids: Vec<u32> = Vec::new();
        pids.push(pid);
        assert(pids@ =~= seq![pid]);
        SpawnedProcess {
            pids,
            stdin_held,
            stdout: StdoutState::NotTaken,
            command,
            finalized: None,
        }
    }

    /// A handle to the children of a pipeline, leftmost first.
    pub fn new_pipeline(pids: Vec<u32>, stdin_held: bool, command: CmdDisplay) -> (p:
        SpawnedProcess)
        requires
            pids@.len() >= 1,
        ensures
            p@ == SpawnedView::fresh(pids@, stdin_held, command@),
    {
        SpawnedProcess {
            pids,
            stdin_held,
            stdout: StdoutState::NotTaken,
            command,
            finalized: None,
        }
    }

    /// The command that was spawned, for display.
    pub fn command(&self) -> (c: &CmdDisplay)
        ensures
            c@ == self@.command,
    {
        &self.command
    }

    /// Whether there is more than one stage.
    pub fn is_pipeline(&self) -> (b: bool)
        ensures
            b == (self@.pids.len() > 1),
    {
        self.pids.len() > 1
    }

    /// All pids, leftmost first.
    pub fn pids(&self) -> (out: Vec<u32>)
        ensures
            out@ == self@.pids,
    {
        vstd::slice::slice_to_vec(self.pids.as_slice())
    }

    /// The stage whose stdin the caller may take: the leftmost one, once, and
    /// only if nothing is fed to it.
    pub fn take_stdin(&mut self) -> (stage: Option<usize>)
        ensures
            stage == old(self)@.stdin_offer(),
            final(self)@ == old(self)@.without_stdin(),
    {
        proof {
            use_type_invariant(&*self);
        }
        if self.stdin_held {
            self.stdin_held = false;
            Some(0)
        } else {
            None
        }
    }

    /// The stage whose stdout the caller may take: the rightmost one, once, and
    /// only if it was not read through the handle before.
    pub fn take_stdout(&mut self) -> (stage: Option<usize>)
        ensures
            stage == old(self)@.stdout_offer(),
            final(self)@ == old(self)@.stdout_taken(),
    {
        proof {
            use_type_invariant(&*self);
        }
        match self.stdout {
            StdoutState::NotTaken => {
                self.stdout = StdoutState::GivenAway;
                Some(self.pids.len() - 1)
            },
            _ => None,
        }
    }

    /// The stage whose stdout a read through the handle comes from. The first
    /// read takes the pipe for the handle; `None` is the end of the stream.
    pub fn read_stdout(&mut self) -> (stage: Option<usize>)
        ensures
            stage == old(self)@.stdout_source(),
            final(self)@ == old(self)@.stdout_read(),
    {
        proof {
            use_type_invariant(&*self);
        }
        match self.stdout {
            StdoutState::GivenAway => None,
            _ => {
                self.stdout = StdoutState::Cached;
                Some(self.pids.len() - 1)
            },
        }
    }

    /// The stage whose remaining stdout is to be collected now that all stages
    /// have ended, or `None` where the caller took it.
    pub fn drain_remaining_stdout(&mut self) -> (stage: Option<usize>)
        ensures
            stage == old(self)@.stdout_source(),
            final(self)@ == old(self)@.stdout_drained(),
    {
        proof {
            use_type_invariant(&*self);
        }
        match self.stdout {
            StdoutState::GivenAway => None,
            _ => {
                self.stdout = StdoutState::GivenAway;
                Some(self.pids.len() - 1)
            },
        }
    }

    /// The result of killing the stages, each with its own result: the first
    /// error, after all were tried.
    pub fn kill(&self, results: Vec<Result<(), IoError>>) -> (r: Result<(), IoError>)
        requires
            results@.len() == self@.pids.len(),
        ensures
            match r {
                Ok(_) => handle::first_error(results@) is None,
                Err(e) => handle::first_error(results@) == Some(e@),
            },
    {
        handle::killed(results)
    }

    /// Look whether every stage has ended.
    pub fn try_wait(&self) -> (w: WaitStart)
        ensures
            w@ == self@.wait_start(Patience::NoWait),
    {
        proof {
            use_type_invariant(self);
        }
        handle::start_wait(&self.command, self.pids.len(), &self.finalized, Patience::NoWait)
    }

    /// Wait until every stage has ended.
    pub fn wait(&self) -> (w: WaitStart)
        ensures
            w@ == self@.wait_start(Patience::Forever),
    {
        proof {
            use_type_invariant(self);
        }
        handle::start_wait(&self.command, self.pids.len(), &self.finalized, Patience::Forever)
    }

    /// Wait until every stage has ended, but for no longer than this.
    pub fn wait_timeout(&self, timeout: Duration) -> (w: WaitStart)
        ensures
            w@ == self@.wait_start(Patience::UpTo(timeout)),
    {
        proof {
            use_type_invariant(self);
        }
        handle::start_wait(
            &self.command,
            self.pids.len(),
            &self.finalized,
            Patience::UpTo(timeout),
        )
    }

    /// What follows a line of stdout that a caller was handed: the next line,
    /// or, where the caller failed on this one, the end. The error is a spawn
    /// failure with the caller's own error; the host kills the stages and
    /// returns it.
    pub fn line_handled(&self, handled: Result<(), IoError>) -> (r: Result<(), RunError>)
        ensures
            match handled {
                Ok(_) => r is Ok,
                Err(source) => r matches Err(e) && e@ == (RunErrorView::Spawn {
                    command: self@.command,
                    source: source@,
                }),
            },
    {
        match handled {
            Ok(_) => Ok(()),
            Err(source) => Err(RunError::Spawn { command: self.command.clone(), source }),
        }
    }

    /// Whether an earlier wait stored the result.
    pub fn is_finalized(&self) -> (b: bool)
        ensures
            b == (self@.finalized is Some),
    {
        self.finalized.is_some()
    }

    /// The children have ended with these statuses and this output: store that,
    /// unless an earlier wait did, and return the result that is stored.
    pub fn finalize_or_cached(
        &mut self,
        statuses: Vec<ExitStatus>,
        stdout: Vec<u8>,
        stderr: Vec<Option<Vec<u8>>>,
    ) -> (r: Result<RunOutput, RunError>)
        requires
            statuses@.len() == old(self)@.pids.len(),
        ensures
            ({
                let state = old(self)@.stored(
                    handle::stored(statuses@, stdout@, stderr@),
                );
                &&& final(self)@ == (SpawnedView { finalized: Some(state), ..old(self)@ })
                &&& output::result_view(r) == handle::reconstructed(old(self)@.command, state)
            }),
    {
        proof {
            use_type_invariant(&*self);
        }
        if let Some(state) = &self.finalized {
            return handle::reconstruct(&self.command, state);
        }
        let state = handle::store(statuses, stdout, stderr);
        let r = handle::reconstruct(&self.command, &state);
        self.finalized = Some(state);
        r
    }

    /// The debugging rendering: the command, and the pids.
    pub fn debug(&self) -> (out: String)
        ensures
            out@ == handle::handle_debug("SpawnedProcess"@, self@.command, self@.pids),
    {
        handle::render_handle("SpawnedProcess", &self.command, &self.pids)
    }
}

// ---------- laws ----------

/// Waits are idempotent: once one has stored a result, waits of every kind
/// return that result, and finalizing again changes nothing.
pub proof fn law_waits_agree(p: SpawnedView, patience: Patience, later: FinalizedView)
    requires
        p.finalized is Some,
    ensures
        p.wait_start(patience) == WaitStartView::Cached(
            handle::reconstructed(p.command, p.finalized->0),
        ),
        p.stored(later) == p.finalized->0,
{
}

/// The first wait that sees every stage end, and every wait after it, return
/// the same result, made from the statuses and output of that first wait.
pub proof fn law_first_result_sticks(
    before: SpawnedView,
    after: SpawnedView,
    state: FinalizedView,
    patience: Patience,
)
    requires
        before.finalized is None,
        after == (SpawnedView { finalized: Some(before.stored(state)), ..before }),
    ensures
        after.wait_start(patience) == WaitStartView::Cached(
            handle::reconstructed(before.command, state),
        ),
{
}

/// A wait that is not answered from the store asks every stage, from the
/// leftmost on, and never with more patience than is left.
pub proof fn law_wait_asks_every_stage(p: PollingView, used: nat)
    requires
        p.statuses.len() <= p.stages <= usize::MAX,
    ensures
        p.next(used) is Finalize <==> p.statuses.len() == p.stages,
        p.next(used) matches handle::PollAction::Poll { stage, patience } ==> {
            &&& stage == p.statuses.len()
            &&& p.patience matches Patience::UpTo(limit) ==> {
                &&& patience matches Patience::UpTo(left)
                &&& used <= limit@ ==> used + left@ == limit@
                &&& used >= limit@ ==> left@ == 0
            }
            &&& p.patience !is UpTo ==> patience == p.patience
        },
{
}

/// Stdin and stdout can each be taken once. Stdout that the caller took is
/// neither read through the handle nor collected later; stdout that was read
/// through the handle cannot be taken any more; and none of this touches the
/// stored result.
pub proof fn law_pipes_are_taken_once(p: SpawnedView)
    ensures
        p.without_stdin().stdin_offer() is None,
        p.stdout_taken().stdout_offer() is None,
        p.stdout_offer() is Some ==> p.stdout_taken().stdout_source() is None,
        p.stdout_read().stdout_offer() is None,
        p.stdout_read().stdout_source() == p.stdout_source(),
        p.stdout_drained().stdout_offer() is None,
        p.stdout_drained().stdout_source() is None,
        p.without_stdin().finalized == p.finalized,
        p.stdout_taken().finalized == p.finalized,
        p.stdout_read().finalized == p.finalized,
        p.stdout_drained().finalized == p.finalized,
{
}

/// The stages are those of the pids: stdin is offered of the leftmost one, and
/// stdout, whether it is taken, read through the handle or collected at the
/// end, is always that of the rightmost one.
pub proof fn law_pipes_are_those_of_the_outer_stages(p: SpawnedView)
    requires
        1 <= p.pids.len() <= usize::MAX,
    ensures
        p.stdin_offer() is Some <==> p.stdin_held,
        p.stdin_offer() matches Some(k) ==> k == 0,
        p.stdout_offer() is Some <==> p.stdout is NotTaken,
        p.stdout_offer() matches Some(k) ==> k + 1 == p.pids.len(),
        p.stdout_source() is Some <==> p.stdout !is GivenAway,
        p.stdout_source() matches Some(k) ==> k + 1 == p.pids.len(),
        p.stdout_offer() is Some ==> p.stdout_offer() == p.stdout_source(),
{
}

/// Taking, reading or collecting a stream changes who has that stream and
/// nothing else of the handle.
pub proof fn law_streams_change_hands_alone(p: SpawnedView)
    ensures
        p.without_stdin() == (SpawnedView { stdin_held: false, ..p }),
        p.stdout_taken() == (SpawnedView { stdout: p.stdout_taken().stdout, ..p }),
        p.stdout_read() == (SpawnedView { stdout: p.stdout_read().stdout, ..p }),
        p.stdout_drained() == (SpawnedView { stdout: p.stdout_drained().stdout, ..p }),
        p.stdout is NotTaken ==> p.stdout_taken().stdout is GivenAway,
        p.stdout !is NotTaken ==> p.stdout_taken().stdout == p.stdout,
        p.stdout !is GivenAway ==> p.stdout_read().stdout is Cached,
        p.stdout is GivenAway ==> p.stdout_read().stdout is GivenAway,
        p.stdout_drained().stdout is GivenAway,
{
}

/// A fresh handle has the pids and the command that it was made with, offers
/// stdout, and knows of no end. A wait on it asks as many stages as there are
/// pids; the first end that it is told of is stored.
pub proof fn law_fresh_handle_waits_for_every_pid(
    pids: Seq<u32>,
    stdin_held: bool,
    command: CmdDisplayView,
    patience: Patience,
    state: FinalizedView,
)
    ensures
        ({
            let p = SpawnedView::fresh(pids, stdin_held, command);
            &&& p.pids == pids
            &&& p.command == command
            &&& p.stdin_held == stdin_held
            &&& p.stdout is NotTaken
            &&& p.finalized is None
            &&& p.stored(state) == state
            &&& p.wait_start(patience) matches WaitStartView::Poll(polling)
            &&& polling.stages == pids.len()
            &&& polling.patience == patience
            &&& polling.statuses.len() == 0
        }),
{
}

/// A handle, as it is made: it knows the pids and the command that it is given.
pub proof fn law_handles_are_made_of_their_pids(
    pid: u32,
    pids: Vec<u32>,
    held: bool,
    command: CmdDisplay,
    p: SpawnedProcess,
)
    ensures
        call_ensures(SpawnedProcess::new_single, (pid, held, command), p) ==> p@ == (SpawnedView {
            pids: seq![pid],
            stdin_held: held,
            stdout: StdoutState::NotTaken,
            command: command@,
            finalized: None,
        }),
        call_ensures(SpawnedProcess::new_pipeline, (pids, held, command), p) ==> p@ == (
        SpawnedView {
            pids: pids@,
            stdin_held: held,
            stdout: StdoutState::NotTaken,
            command: command@,
            finalized: None,
        }),
{
}

/// A handle tells what it knows.
pub proof fn law_handles_tell_what_they_know(
    p: &SpawnedProcess,
    command: &CmdDisplay,
    b: bool,
    pids: Vec<u32>,
    out: String,
)
    ensures
        call_ensures(SpawnedProcess::command, (p,), command) ==> command@ == p@.command,
        call_ensures(SpawnedProcess::is_pipeline, (p,), b) ==> b == (p@.pids.len() > 1),
        call_ensures(SpawnedProcess::pids, (p,), pids) ==> pids@ == p@.pids,
        call_ensures(SpawnedProcess::is_finalized, (p,), b) ==> b == (p@.finalized is Some),
        call_ensures(SpawnedProcess::debug, (p,), out) ==> out@ == handle::handle_debug(
            "SpawnedProcess"@,
            p@.command,
            p@.pids,
        ),
{
}

/// The caller gets stdin of the leftmost stage and stdout of the rightmost one,
/// each once. Reading through the handle takes stdout for the handle.
pub proof fn law_caller_gets_the_outer_streams(p: &mut SpawnedProcess, stage: Option<usize>)
    requires
        1 <= old(p)@.pids.len() <= usize::MAX,
    ensures
        call_ensures(SpawnedProcess::take_stdin, (p,), stage) ==> {
            &&& stage is Some <==> old(p)@.stdin_held
            &&& stage matches Some(k) ==> k == 0
            &&& final(p)@ == SpawnedView { stdin_held: false, ..old(p)@ }
        },
        call_ensures(SpawnedProcess::take_stdout, (p,), stage) ==> {
            &&& stage is Some <==> old(p)@.stdout is NotTaken
            &&& stage matches Some(k) ==> k + 1 == old(p)@.pids.len()
            &&& stage is Some ==> final(p)@ == SpawnedView {
                stdout: StdoutState::GivenAway,
                ..old(p)@
            }
            &&& stage is None ==> final(p)@ == old(p)@
        },
        call_ensures(SpawnedProcess::read_stdout, (p,), stage) ==> {
            &&& stage is Some <==> old(p)@.stdout !is GivenAway
            &&& stage matches Some(k) ==> k + 1 == old(p)@.pids.len()
            &&& stage is Some ==> final(p)@ == SpawnedView {
                stdout: StdoutState::Cached,
                ..old(p)@
            }
            &&& stage is None ==> final(p)@ == old(p)@
        },
        call_ensures(SpawnedProcess::drain_remaining_stdout, (p,), stage) ==> {
            &&& stage is Some <==> old(p)@.stdout !is GivenAway
            &&& stage matches Some(k) ==> k + 1 == old(p)@.pids.len()
            &&& final(p)@ == SpawnedView { stdout: StdoutState::GivenAway, ..old(p)@ }
        },
{
}

/// A wait, as it is begun: answered from the store where the end is known, and
/// else a poll of every stage, with no patience, with all of it, or with as much
/// as the caller has.
pub proof fn law_waits_begin_with_the_callers_patience(
    p: &SpawnedProcess,
    timeout: Duration,
    w: WaitStart,
)
    ensures
        ({
            let begun = |patience: Patience|
                {
                    &&& p@.finalized is None ==> {
                        &&& w@ matches WaitStartView::Poll(polling)
                        &&& polling.stages == p@.pids.len()
                        &&& polling.patience == patience
                        &&& polling.statuses.len() == 0
                    }
                    &&& p@.finalized matches Some(state) ==> w@ == WaitStartView::Cached(
                        handle::reconstructed(p@.command, state),
                    )
                };
            &&& call_ensures(SpawnedProcess::try_wait, (p,), w) ==> begun(Patience::NoWait)
            &&& call_ensures(SpawnedProcess::wait, (p,), w) ==> begun(Patience::Forever)
            &&& call_ensures(SpawnedProcess::wait_timeout, (p, timeout), w) ==> begun(
                Patience::UpTo(timeout),
            )
        }),
{
}

/// The end of the children is stored the first time that it is told, and what is
/// stored is the result from then on. Nothing else of the handle changes.
pub proof fn law_first_end_is_stored(
    p: &mut SpawnedProcess,
    statuses: Vec<ExitStatus>,
    stdout: Vec<u8>,
    stderr: Vec<Option<Vec<u8>>>,
    r: Result<RunOutput, RunError>,
)
    requires
        call_ensures(SpawnedProcess::finalize_or_cached, (p, statuses, stdout, stderr), r),
    ensures
        final(p)@.finalized matches Some(state) && {
            &&& old(p)@.finalized is Some ==> final(p)@.finalized == old(p)@.finalized
            &&& old(p)@.finalized is None ==> {
                &&& state.statuses == statuses@
                &&& state.stdout == stdout@
                &&& state.stderr == crate::text::lossy(handle::joined_bytes(stderr@))
            }
            &&& output::result_view(r) == handle::reconstructed(old(p)@.command, state)
        },
        final(p)@ == (SpawnedView { finalized: final(p)@.finalized, ..old(p)@ }),
{
}

/// Killing a handle's stages fails with the first of their errors; a line that
/// the caller failed on ends in a spawn failure with the caller's error.
pub proof fn law_handles_report_failures(
    p: &SpawnedProcess,
    results: Vec<Result<(), IoError>>,
    r: Result<(), IoError>,
    i: int,
    handled: Result<(), IoError>,
    line: Result<(), RunError>,
)
    ensures
        call_ensures(SpawnedProcess::kill, (p, results), r) && 0 <= i < results@.len()
            && results@[i] is Err && (forall|j: int|
            0 <= j < i ==> (#[trigger] results@[j]) is Ok) ==> (r matches Err(e) && e@
            == results@[i]->Err_0@),
        call_ensures(SpawnedProcess::kill, (p, results), r) && (forall|j: int|
            0 <= j < results@.len() ==> (#[trigger] results@[j]) is Ok) ==> r is Ok,
        call_ensures(SpawnedProcess::line_handled, (p, handled), line) ==> {
            &&& line is Ok <==> handled is Ok
            &&& handled matches Err(cause) ==> {
                &&& line matches Err(e)
                &&& e@ matches RunErrorView::Spawn { command, source }
                &&& command == p@.command
                &&& source == cause@
            }
        },
{
    lemma_first_error_at(results@, i);
}

proof fn lemma_first_error_at(results: Seq<Result<(), IoError>>, i: int)
    ensures
        (0 <= i < results.len() && results[i] is Err && forall|j: int|
            0 <= j < i ==> (#[trigger] results[j]) is Ok) ==> handle::first_error(results) == Some(
            results[i]->Err_0@,
        ),
        (forall|j: int| 0 <= j < results.len() ==> (#[trigger] results[j]) is Ok)
            ==> handle::first_error(results) is None,
{
    if 0 <= i < results.len() && results[i] is Err && forall|j: int|
        0 <= j < i ==> (#[trigger] results[j]) is Ok {
        let before = results.take(i);
        let e = results[i]->Err_0;
        assert forall|j: int| 0 <= j < before.len() implies (#[trigger] before[j]) is Ok by {
            assert(results[j] is Ok);
        }
        handle::law_first_error_counts(before, e, results.skip(i + 1));
        assert(before.push(Err(e)) + results.skip(i + 1) =~= results);
    }
    if forall|j: int| 0 <= j < results.len() ==> (#[trigger] results[j]) is Ok {
        if results.len() > 0 {
            handle::law_first_error_counts(results, arbitrary(), results);
        }
    }
}

}
