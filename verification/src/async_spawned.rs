//! The async handle to children that run on.
//!
//! As [`SpawnedProcess`](crate::SpawnedProcess), but stdout is read through
//! the pipe that the caller takes and not through the handle, a child that was
//! reaped has no pid any more, and a bounded wait is a race of the whole wait
//! against a timer.

use vstd::prelude::*;

use crate::cmd_display::{CmdDisplay, CmdDisplayView};
use crate::error::{RunError, RunErrorView};
use crate::handle;
use crate::handle::{FinalizedState, FinalizedView, Patience, WaitStart, WaitStartView};
use crate::os::{ExitStatus, IoError};
use crate::output;
use crate::output::{RunOutput, RunOutputView};
use crate::time::Duration;

verus! {

/// Handle to one or more running children of the async runner.
pub struct AsyncSpawnedProcess {
    stages: usize,
    stdin_held: bool,
    stdout_held: bool,
    command: CmdDisplay,
    finalized: Option<FinalizedState>,
}

/// The contents of an [`AsyncSpawnedProcess`].
pub ghost struct AsyncSpawnedView {
    pub stages: nat,
    /// The leftmost stage's stdin can still be taken.
    pub stdin_held: bool,
    /// The rightmost stage's stdout can still be taken.
    pub stdout_held: bool,
    pub command: CmdDisplayView,
    /// What was stored when the children had ended.
    pub finalized: Option<FinalizedView>,
}

impl View for AsyncSpawnedProcess {
    type V = AsyncSpawnedView;

    closed spec fn view(&self) -> AsyncSpawnedView {
        AsyncSpawnedView {
            stages: self.stages as nat,
            stdin_held: self.stdin_held,
            stdout_held: self.stdout_held,
            command: self.command@,
            finalized: handle::finalized_view(self.finalized),
        }
    }
}

/// The pids that are there, in order.
pub open spec fn present(pids: Seq<Option<u32>>) -> Seq<u32>
    decreases pids.len(),
{
    if pids.len() == 0 {
        Seq::empty()
    } else {
        match pids.last() {
            Some(pid) => present(pids.drop_last()).push(pid),
            None => present(pids.drop_last()),
        }
    }
}

/// A wait, and the timer that it races.
pub struct Race {
    pub wait: WaitStart,
    pub limit: Duration,
}

/// The result of a race: that of the wait, or nothing where the timer won.
pub open spec fn raced(result: Option<Result<RunOutputView, RunErrorView>>) -> Result<
    Option<RunOutputView>,
    RunErrorView,
> {
    match result {
        Some(Ok(out)) => Ok(Some(out)),
        Some(Err(e)) => Err(e),
        None => Ok(None),
    }
}

impl AsyncSpawnedView {
    /// Children that were just started.
    pub open spec fn fresh(
        stages: nat,
        stdin_held: bool,
        command: CmdDisplayView,
    ) -> AsyncSpawnedView {
        AsyncSpawnedView { stages, stdin_held, stdout_held: true, command, finalized: None }
    }

    /// There is a stage, and what is stored covers every stage.
    pub open spec fn in_order(self) -> bool {
        &&& self.stages >= 1
        &&& self.finalized matches Some(state) ==> state.statuses.len() == self.stages
    }

    /// How a wait begins.
    pub open spec fn wait_start(self, patience: Patience) -> WaitStartView {
        handle::wait_start(self.command, self.stages, self.finalized, patience)
    }

    /// What finalizing stores: only the first time counts.
    pub open spec fn stored(self, state: FinalizedView) -> FinalizedView {
        match self.finalized {
            Some(earlier) => earlier,
            None => state,
        }
    }
}

impl AsyncSpawnedProcess {
    #[verifier::type_invariant]
    spec fn ordered(self) -> bool {
        self@.in_order()
    }

    /// A handle to one child. `stdin_held` is false where the child's stdin is
    /// being fed already.
    pub fn new_single(stdin_held: bool, command: CmdDisplay) -> (p: AsyncSpawnedProcess)
        ensures
            p@ == AsyncSpawnedView::fresh(1, stdin_held, command@),
    {
        AsyncSpawnedProcess { stages: 1, stdin_held, stdout_held: true, command, finalized: None }
    }

    /// A handle to the children of a pipeline.
    pub fn new_pipeline(stages: usize, stdin_held: bool, command: CmdDisplay) -> (p:
        AsyncSpawnedProcess)
        requires
            stages >= 1,
        ensures
            p@ == AsyncSpawnedView::fresh(stages as nat, stdin_held, command@),
    {
        AsyncSpawnedProcess { stages, stdin_held, stdout_held: true, command, finalized: None }
    }

    /// The command that was spawned, for display.
    pub fn command(&self) -> (c: &CmdDisplay)
        ensures
            c@ == self@.command,
    {
        &self.command
    }

    /// Whether there is more than one stage.
    pub fn is_pipeline(&self) -> (b: bool)
        ensures
            b == (self@.stages > 1),
    {
        self.stages > 1
    }

    /// Of the stages' pids, leftmost first, those that there still are.
    pub fn pids(&self, ids: &Vec<Option<u32>>) -> (out: Vec<u32>)
        requires
            ids@.len() == self@.stages,
        ensures
            out@ == present(ids@),
    {
        let mut out: Vec<u32> = Vec::new();
        let mut i: usize = 0;
        assert(ids@.take(0) =~= Seq::<Option<u32>>::empty());
        while i < ids.len()
            invariant
                i <= ids@.len(),
                out@ == present(ids@.take(i as int)),
            decreases ids@.len() - i,
        {
            assert(ids@.take(i + 1).drop_last() =~= ids@.take(i as int));
            match ids[i] {
                Some(pid) => {
                    out.push(pid);
                },
                None => {},
            }
            i += 1;
        }
        assert(ids@.take(i as int) =~= ids@);
        out
    }

    /// The stage whose stdin the caller may take: the leftmost one, once, and
    /// only if nothing is fed to it.
    pub fn take_stdin(&mut self) -> (stage: Option<usize>)
        ensures
            stage == (if old(self)@.stdin_held {
                Some(0usize)
            } else {
                None
            }),
            final(self)@ == (AsyncSpawnedView { stdin_held: false, ..old(self)@ }),
    {
        proof {
            use_type_invariant(&*self);
        }
        if self.stdin_held {
            self.stdin_held = false;
            Some(0)
        } else {
            None
        }
    }

    /// The stage whose stdout the caller may take: the rightmost one, once.
    pub fn take_stdout(&mut self) -> (stage: Option<usize>)
        ensures
            stage == (if old(self)@.stdout_held {
                Some((old(self)@.stages - 1) as usize)
            } else {
                None
            }),
            final(self)@ == (AsyncSpawnedView { stdout_held: false, ..old(self)@ }),
    {
        proof {
            use_type_invariant(&*self);
        }
        if self.stdout_held {
            self.stdout_held = false;
            Some(self.stages - 1)
        } else {
            None
        }
    }

    /// The stage whose remaining stdout is to be collected now that all stages
    /// have ended, or `None` where the caller took it.
    pub fn drain_stdout(&mut self) -> (stage: Option<usize>)
        ensures
            stage == (if old(self)@.stdout_held {
                Some((old(self)@.stages - 1) as usize)
            } else {
                None
            }),
            final(self)@ == (AsyncSpawnedView { stdout_held: false, ..old(self)@ }),
    {
        self.take_stdout()
    }

    /// The result of killing the stages, each with its own result: the first
    /// error, after all were tried.
    pub fn kill(&self, results: Vec<Result<(), IoError>>) -> (r: Result<(), IoError>)
        requires
            results@.len() == self@.stages,
        ensures
            match r {
                Ok(_) => handle::first_error(results@) is None,
                Err(e) => handle::first_error(results@) == Some(e@),
            },
    {
        handle::killed(results)
    }

    /// Look whether every stage has ended.
    pub fn try_wait(&self) -> (w: WaitStart)
        ensures
            w@ == self@.wait_start(Patience::NoWait),
    {
        proof {
            use_type_invariant(self);
        }
        handle::start_wait(&self.command, self.stages, &self.finalized, Patience::NoWait)
    }

    /// Wait until every stage has ended.
    pub fn wait(&self) -> (w: WaitStart)
        ensures
            w@ == self@.wait_start(Patience::Forever),
    {
        proof {
            use_type_invariant(self);
        }
        handle::start_wait(&self.command, self.stages, &self.finalized, Patience::Forever)
    }

    /// Race a whole wait, the collecting of output included, against a timer.
    pub fn wait_timeout(&self, timeout: Duration) -> (race: Race)
        ensures
            race.wait@ == self@.wait_start(Patience::Forever),
            race.limit == timeout,
    {
        Race { wait: self.wait(), limit: timeout }
    }

    /// Whether an earlier wait stored the result.
    pub fn is_finalized(&self) -> (b: bool)
        ensures
            b == (self@.finalized is Some),
    {
        self.finalized.is_some()
    }

    /// The children have ended with these statuses and this output: store that,
    /// unless an earlier wait did, and return the result that is stored.
    pub fn finalize(
        &mut self,
        statuses: Vec<ExitStatus>,
        stdout: Vec<u8>,
        stderr: Vec<Option<Vec<u8>>>,
    ) -> (r: Result<RunOutput, RunError>)
        requires
            statuses@.len() == old(self)@.stages,
        ensures
            ({
                let state = old(self)@.stored(
                    handle::stored(statuses@, stdout@, stderr@),
                );
                &&& final(self)@ == (AsyncSpawnedView { finalized: Some(state), ..old(self)@ })
                &&& output::result_view(r) == handle::reconstructed(old(self)@.command, state)
            }),
    {
        proof {
            use_type_invariant(&*self);
        }
        if let Some(state) = &self.finalized {
            return handle::reconstruct(&self.command, state);
        }
        let state = handle::store(statuses, stdout, stderr);
        let r = handle::reconstruct(&self.command, &state);
        self.finalized = Some(state);
        r
    }

    /// The debugging rendering: the command, and the pids that there still are.
    pub fn debug(&self, ids: &Vec<Option<u32>>) -> (out: String)
        requires
            ids@.len() == self@.stages,
        ensures
            out@ == handle::handle_debug("AsyncSpawnedProcess"@, self@.command, present(ids@)),
    {
        let pids = self.pids(ids);
        handle::render_handle("AsyncSpawnedProcess", &self.command, &pids)
    }
}

impl Race {
    /// The result of the race: that of the wait, or nothing where the timer
    /// won.
    pub fn settle(result: Option<Result<RunOutput, RunError>>) -> (r: Result<
        Option<RunOutput>,
        RunError,
    >)
        ensures
            match r {
                Ok(Some(out)) => raced(race_view(result)) == Ok::<_, RunErrorView>(Some(out@)),
                Ok(None) => raced(race_view(result)) == Ok::<Option<RunOutputView>, RunErrorView>(
                    None,
                ),
                Err(e) => raced(race_view(result)) == Err::<Option<RunOutputView>, _>(e@),
            },
    {
        match result {
            Some(Ok(out)) => Ok(Some(out)),
            Some(Err(e)) => Err(e),
            None => Ok(None),
        }
    }
}

/// The contents of what the wait returned, if it came first.
pub open spec fn race_view(result: Option<Result<RunOutput, RunError>>) -> Option<
    Result<RunOutputView, RunErrorView>,
> {
    match result {
        Some(r) => Some(output::result_view(r)),
        None => None,
    }
}

// ---------- laws ----------

/// Waits are idempotent: once one has stored a result, waits of every kind
/// return that result, and finalizing again changes nothing.
pub proof fn law_async_waits_agree(p: AsyncSpawnedView, patience: Patience, later: FinalizedView)
    requires
        p.finalized is Some,
    ensures
        p.wait_start(patience) == WaitStartView::Cached(
            handle::reconstructed(p.command, p.finalized->0),
        ),
        p.stored(later) == p.finalized->0,
{
}

/// A fresh handle has the stages and the command that it was made with, offers
/// stdout, and knows of no end. A wait on it asks every stage; the first end
/// that it is told of is stored.
pub proof fn law_fresh_async_handle_waits_for_every_stage(
    stages: nat,
    stdin_held: bool,
    command: CmdDisplayView,
    patience: Patience,
    state: FinalizedView,
)
    ensures
        ({
            let p = AsyncSpawnedView::fresh(stages, stdin_held, command);
            &&& p.stages == stages
            &&& p.command == command
            &&& p.stdin_held == stdin_held
            &&& p.stdout_held
            &&& p.finalized is None
            &&& p.stored(state) == state
            &&& p.wait_start(patience) matches WaitStartView::Poll(polling)
            &&& polling.stages == stages
            &&& polling.patience == patience
            &&& polling.statuses.len() == 0
        }),
{
}

/// The pids that are shown are those of the stages that have one, in order.
pub proof fn law_present_pids_keep_their_order(
    a: Seq<Option<u32>>,
    b: Seq<Option<u32>>,
    pid: u32,
)
    ensures
        present(a + b) == present(a) + present(b),
        present(seq![Some(pid)]) == seq![pid],
        present(seq![None::<u32>]).len() == 0,
        present(Seq::empty()).len() == 0,
    decreases b.len(),
{
    let (one, none) = (seq![Some(pid)], seq![None::<u32>]);
    assert(one.drop_last() =~= Seq::empty());
    assert(none.drop_last() =~= Seq::empty());
    assert(present(one.drop_last()).len() == 0);
    assert(present(none.drop_last()).len() == 0);
    assert(present(one) =~= seq![pid]);
    if b.len() == 0 {
        assert(a + b =~= a);
        assert(present(a) + present(b) =~= present(a));
    } else {
        law_present_pids_keep_their_order(a, b.drop_last(), pid);
        assert((a + b).drop_last() =~= a + b.drop_last());
        assert((a + b).last() == b.last());
        assert(present(a + b) =~= present(a) + present(b));
    }
}

/// A wait that comes before its timer is the result, be it a success or an
/// error; where the timer came first there is none.
pub proof fn law_race_hands_on_the_wait(out: RunOutput, e: RunError)
    ensures
        raced(race_view(Some(Ok(out)))) == Ok::<_, RunErrorView>(Some(out@)),
        raced(race_view(Some(Err(e)))) == Err::<Option<RunOutputView>, _>(e@),
        raced(race_view(None)) == Ok::<Option<RunOutputView>, RunErrorView>(None),
{
}

/// An async handle, as it is made: it has the stages and the command that it is
/// given.
pub proof fn law_async_handles_are_made_of_their_stages(
    stages: usize,
    held: bool,
    command: CmdDisplay,
    p: AsyncSpawnedProcess,
)
    ensures
        call_ensures(AsyncSpawnedProcess::new_single, (held, command), p) ==> p@ == (
        AsyncSpawnedView {
            stages: 1,
            stdin_held: held,
            stdout_held: true,
            command: command@,
            finalized: None,
        }),
        call_ensures(AsyncSpawnedProcess::new_pipeline, (stages, held, command), p) ==> p@ == (
        AsyncSpawnedView {
            stages: stages as nat,
            stdin_held: held,
            stdout_held: true,
            command: command@,
            finalized: None,
        }),
{
}

/// An async handle tells what it knows, and of the pids those that there still
/// are.
pub proof fn law_async_handles_tell_what_they_know(
    p: &AsyncSpawnedProcess,
    command: &CmdDisplay,
    b: bool,
    ids: &Vec<Option<u32>>,
    pids: Vec<u32>,
    out: String,
)
    ensures
        call_ensures(AsyncSpawnedProcess::command, (p,), command) ==> command@ == p@.command,
        call_ensures(AsyncSpawnedProcess::is_pipeline, (p,), b) ==> b == (p@.stages > 1),
        call_ensures(AsyncSpawnedProcess::is_finalized, (p,), b) ==> b == (p@.finalized is Some),
        call_ensures(AsyncSpawnedProcess::pids, (p, ids), pids) ==> pids@ == present(ids@),
        call_ensures(AsyncSpawnedProcess::debug, (p, ids), out) ==> out@ == handle::handle_debug(
            "AsyncSpawnedProcess"@,
            p@.command,
            present(ids@),
        ),
{
}

/// The caller of an async handle gets stdin of the leftmost stage and stdout of
/// the rightmost one, each once; what it did not take is collected from the same
/// stage.
pub proof fn law_async_caller_gets_the_outer_streams(
    p: &mut AsyncSpawnedProcess,
    stage: Option<usize>,
)
    requires
        1 <= old(p)@.stages <= usize::MAX,
    ensures
        call_ensures(AsyncSpawnedProcess::take_stdin, (p,), stage) ==> {
            &&& stage is Some <==> old(p)@.stdin_held
            &&& stage matches Some(k) ==> k == 0
            &&& final(p)@ == AsyncSpawnedView { stdin_held: false, ..old(p)@ }
        },
        call_ensures(AsyncSpawnedProcess::take_stdout, (p,), stage) || call_ensures(
            AsyncSpawnedProcess::drain_stdout,
            (p,),
            stage,
        ) ==> {
            &&& stage is Some <==> old(p)@.stdout_held
            &&& stage matches Some(k) ==> k + 1 == old(p)@.stages
            &&& final(p)@ == AsyncSpawnedView { stdout_held: false, ..old(p)@ }
        },
{
}

/// A wait on an async handle, as it is begun: answered from the store where the
/// end is known, and else a poll of every stage; a bounded one is a wait without
/// a limit and the timer that it races.
pub proof fn law_async_waits_begin_with_the_callers_patience(
    p: &AsyncSpawnedProcess,
    timeout: Duration,
    w: WaitStart,
    race: Race,
)
    ensures
        ({
            let begun = |start: WaitStartView, patience: Patience|
                {
                    &&& p@.finalized is None ==> {
                        &&& start matches WaitStartView::Poll(polling)
                        &&& polling.stages == p@.stages
                        &&& polling.patience == patience
                        &&& polling.statuses.len() == 0
                    }
                    &&& p@.finalized matches Some(state) ==> start == WaitStartView::Cached(
                        handle::reconstructed(p@.command, state),
                    )
                };
            &&& call_ensures(AsyncSpawnedProcess::try_wait, (p,), w) ==> begun(
                w@,
                Patience::NoWait,
            )
            &&& call_ensures(AsyncSpawnedProcess::wait, (p,), w) ==> begun(w@, Patience::Forever)
            &&& call_ensures(AsyncSpawnedProcess::wait_timeout, (p, timeout), race) ==> begun(
                race.wait@,
                Patience::Forever,
            ) && race.limit == timeout
        }),
{
}

/// The end of the children is stored the first time that it is told, and what is
/// stored is the result from then on. Nothing else of the handle changes.
pub proof fn law_first_end_is_stored_by_async_handles(
    p: &mut AsyncSpawnedProcess,
    statuses: Vec<ExitStatus>,
    stdout: Vec<u8>,
    stderr: Vec<Option<Vec<u8>>>,
    r: Result<RunOutput, RunError>,
)
    requires
        call_ensures(AsyncSpawnedProcess::finalize, (p, statuses, stdout, stderr), r),
    ensures
        final(p)@.finalized matches Some(state) && {
            &&& old(p)@.finalized is Some ==> final(p)@.finalized == old(p)@.finalized
            &&& old(p)@.finalized is None ==> {
                &&& state.statuses == statuses@
                &&& state.stdout == stdout@
                &&& state.stderr == crate::text::lossy(handle::joined_bytes(stderr@))
            }
            &&& output::result_view(r) == handle::reconstructed(old(p)@.command, state)
        },
        final(p)@ == (AsyncSpawnedView { finalized: final(p)@.finalized, ..old(p)@ }),
{
}

/// Killing reports the first error among the results. A race is settled by the
/// wait if that came first, and else without a result.
pub proof fn law_async_handles_report_failures_and_races(
    p: &AsyncSpawnedProcess,
    results: Vec<Result<(), IoError>>,
    killed: Result<(), IoError>,
    came: Option<Result<RunOutput, RunError>>,
    r: Result<Option<RunOutput>, RunError>,
)
    ensures
        call_ensures(AsyncSpawnedProcess::kill, (p, results), killed) ==> {
            &&& killed is Ok <==> handle::first_error(results@) is None
            &&& killed matches Err(e) ==> handle::first_error(results@) == Some(e@)
        },
        call_ensures(Race::settle, (came,), r) ==> match came {
            Some(Ok(out)) => r matches Ok(Some(given)) && given@ == out@,
            Some(Err(e)) => r matches Err(given) && given@ == e@,
            None => r matches Ok(None),
        },
{
}

}
