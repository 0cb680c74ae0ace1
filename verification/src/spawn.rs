//! Starting a command without waiting for it.
//!
//! Stdin and stdout are always piped, so that the handle can expose them;
//! timeout, deadline and retry do not apply.

use vstd::prelude::*;

use crate::async_spawned::{AsyncSpawnedProcess, AsyncSpawnedView};
use crate::cmd;
use crate::cmd::{Cmd, CmdView, HookHandle, SingleCmd, SingleView};
use crate::cmd_display::{CmdDisplay, CmdDisplayView};
use crate::error::{RunError, RunErrorView};
use crate::launch::{Launch, LaunchView};
use crate::os::{IoError, IoErrorKind, IoErrorView};
use crate::plan::{Goal, LaunchPlan};
use crate::redirection::Redirection;
use crate::run;
use crate::spawned::{SpawnedProcess, SpawnedView};
use crate::stdin;
use crate::stdin::{AsyncStdinForAttempt, AttemptStdinView, ReaderSlots, StdinView};

verus! {

/// The error of a command that was refused because its stdout is routed away.
pub open spec fn routed_stdout_refusal(command: CmdDisplayView) -> RunErrorView {
    RunErrorView::Spawn {
        command,
        source: IoErrorView::own(
            IoErrorKind::InvalidInput,
            "stdout must be captured on spawn: the handle exposes it"@,
        ),
    }
}

/// Refuse to spawn a command whose stdout is routed away: the handle needs it
/// piped.
pub fn reject_non_capture_stdout_on_spawn(mode: &Redirection, command: &CmdDisplay) -> (r: Result<
    (),
    RunError,
>)
    ensures
        r is Ok <==> *mode is Capture,
        r matches Err(e) ==> e@ == routed_stdout_refusal(command@),
{
    if mode.is_capture() {
        Ok(())
    } else {
        Err(
            RunError::Spawn {
                command: command.clone(),
                source: IoError::new(
                    IoErrorKind::InvalidInput,
                    "stdout must be captured on spawn: the handle exposes it",
                ),
            },
        )
    }
}

/// A spawn, ready to be carried out.
pub struct Spawning {
    pub launch: Launch,
    /// The stages, leftmost first.
    pub stages: Vec<SingleCmd>,
    /// What the leftmost stage is fed.
    pub stdin: AsyncStdinForAttempt,
    /// The hook to run before every spawn.
    pub before_spawn: Option<HookHandle>,
    /// The command, for display.
    pub command: CmdDisplay,
}

/// The contents of a [`Spawning`].
pub ghost struct SpawningView {
    pub launch: LaunchView,
    pub stages: Seq<SingleView>,
    pub stdin: AttemptStdinView,
    pub before_spawn: Option<HookHandle>,
    pub command: CmdDisplayView,
}

impl View for Spawning {
    type V = SpawningView;

    open spec fn view(&self) -> SpawningView {
        SpawningView {
            launch: self.launch@,
            stages: cmd::single_views(self.stages@),
            stdin: self.stdin@,
            before_spawn: self.before_spawn,
            command: self.command@,
        }
    }
}

impl Spawning {
    /// What the leftmost stage is fed, to be handed to whoever feeds it.
    pub fn take_stdin(&mut self) -> (share: AsyncStdinForAttempt)
        ensures
            share@ == old(self)@.stdin,
            final(self)@ == (SpawningView { stdin: AttemptStdinView::Nothing, ..old(self)@ }),
    {
        let mut share = AsyncStdinForAttempt::Nothing;
        std::mem::swap(&mut self.stdin, &mut share);
        share
    }

    /// The handle to the stages, once all of them run under these pids. Its
    /// stdin can be taken if and only if nothing is fed to it.
    pub fn into_handle(self, pids: Vec<u32>) -> (p: SpawnedProcess)
        requires
            self@.launch.next() is Ready,
            pids@.len() == self@.launch.plan.stages,
        ensures
            p@ == SpawnedView::fresh(pids@, !self@.launch.plan.has_stdin, self@.command),
    {
        let plan = self.launch.plan();
        let stdin_held = !plan.has_stdin;
        if plan.stages == 1 {
            let pid: u32 = pids[0];
            assert(pids@ =~= seq![pid]);
            SpawnedProcess::new_single(pid, stdin_held, self.command)
        } else {
            SpawnedProcess::new_pipeline(pids, stdin_held, self.command)
        }
    }

    /// The async handle to the stages, once all of them run. Its stdin can be
    /// taken if and only if nothing is fed to it.
    pub fn into_async_handle(self) -> (p: AsyncSpawnedProcess)
        requires
            self@.launch.next() is Ready,
        ensures
            p@ == AsyncSpawnedView::fresh(
                self@.launch.plan.stages as nat,
                !self@.launch.plan.has_stdin,
                self@.command,
            ),
    {
        let plan = self.launch.plan();
        let stdin_held = !plan.has_stdin;
        if plan.stages == 1 {
            AsyncSpawnedProcess::new_single(stdin_held, self.command)
        } else {
            AsyncSpawnedProcess::new_pipeline(plan.stages, stdin_held, self.command)
        }
    }
}

/// The spawn of a command while `slots` are full.
pub open spec fn spawning(c: CmdView, slots: Seq<bool>) -> SpawningView {
    let share = stdin::attempt_share(c.stdin, slots);
    SpawningView {
        launch: LaunchView::fresh(
            run::plan_for(c, Goal::Spawn, share !is Nothing),
            c.display(),
        ),
        stages: c.stages,
        stdin: share,
        before_spawn: c.before_spawn,
        command: c.display(),
    }
}

impl Cmd {
    /// Spawn on the async runner. A command whose stdout is routed away is
    /// refused, with the reader slots as they were.
    pub fn spawn_async(self, slots: &mut ReaderSlots) -> (r: Result<Spawning, RunError>)
        ensures
            match r {
                Ok(s) => {
                    &&& self@.stdout_mode is Capture
                    &&& s@ == spawning(self@, old(slots)@)
                    &&& final(slots)@ == stdin::slots_after(self@.stdin, old(slots)@)
                },
                Err(e) => {
                    &&& self@.stdout_mode !is Capture
                    &&& e@ == routed_stdout_refusal(self@.display())
                    &&& final(slots)@ == old(slots)@
                },
            },
    {
        let command = self.display();
        match reject_non_capture_stdout_on_spawn(&self.stdout_mode, &command) {
            Ok(_) => {},
            Err(e) => {
                return Err(e);
            },
        }
        let share = stdin::attempt_stdin_async(&self.stdin, slots);
        let mut stages: Vec<SingleCmd> = Vec::new();
        proof {
            self.tree.lemma_has_a_stage();
            assert(Seq::<SingleCmd>::empty() + self.tree.leaves() =~= self.tree.leaves());
        }
        cmd::flatten_tree_owned(self.tree, &mut stages);
        let plan = LaunchPlan {
            goal: Goal::Spawn,
            stages: stages.len(),
            has_stdin: !share.is_nothing(),
            stdout_mode: self.stdout_mode,
            stderr_mode: self.stderr_mode,
        };
        Ok(
            Spawning {
                launch: Launch::new(plan, command.clone()),
                stages,
                stdin: share,
                before_spawn: self.before_spawn,
                command,
            },
        )
    }

    /// Spawn on the blocking runner, which also refuses an async reader.
    pub fn spawn(self, slots: &mut ReaderSlots) -> (r: Result<Spawning, RunError>)
        ensures
            match r {
                Ok(s) => {
                    &&& !(self@.stdin matches Some(StdinView::AsyncReader(_)))
                    &&& self@.stdout_mode is Capture
                    &&& s@ == spawning(self@, old(slots)@)
                    &&& final(slots)@ == stdin::slots_after(self@.stdin, old(slots)@)
                },
                Err(e) => {
                    &&& e@ == if self@.stdin matches Some(StdinView::AsyncReader(_)) {
                        stdin::async_reader_refusal(self@.display())
                    } else {
                        routed_stdout_refusal(self@.display())
                    }
                    &&& (self@.stdin matches Some(StdinView::AsyncReader(_)))
                        || self@.stdout_mode !is Capture
                    &&& final(slots)@ == old(slots)@
                },
            },
    {
        let command = self.display();
        match stdin::reject_async_stdin_on_sync(&self.stdin, &command) {
            Ok(_) => self.spawn_async(slots),
            Err(e) => Err(e),
        }
    }
}

/// On a spawn the leftmost stage's stdin and the rightmost stage's stdout are
/// always piped to the host, and stdout is left for the caller to read.
pub proof fn law_spawn_pipes_both_ends(c: CmdView, slots: Seq<bool>)
    requires
        1 <= c.stages.len() <= usize::MAX,
    ensures
        ({
            let plan = spawning(c, slots).launch.plan;
            let last = c.stages.len() - 1;
            &&& plan.wiring(0).stdin is Piped
            &&& plan.wiring(last).stdout is Piped
            &&& !plan.wiring(last).drain_stdout
        }),
{
}

/// The handle to a spawned command offers stdin if and only if nothing is fed
/// to the command, and it always offers stdout.
pub proof fn law_handle_offers_what_is_not_fed(c: CmdView, slots: Seq<bool>, pids: Seq<u32>)
    requires
        1 <= c.stages.len() <= usize::MAX,
    ensures
        ({
            let s = spawning(c, slots);
            let p = SpawnedView::fresh(pids, !s.launch.plan.has_stdin, s.command);
            let q = AsyncSpawnedView::fresh(
                s.launch.plan.stages as nat,
                !s.launch.plan.has_stdin,
                s.command,
            );
            &&& p.stdin_offer() is Some <==> s.stdin is Nothing
            &&& p.stdout_offer() is Some
            &&& q.stdin_held <==> s.stdin is Nothing
            &&& q.stdout_held
            &&& q.stages == c.stages.len()
        }),
{
}

/// A spawn has the stages, the hook, the input and the streams of its command.
pub proof fn law_spawn_follows_the_command(c: CmdView, slots: Seq<bool>)
    requires
        1 <= c.stages.len() <= usize::MAX,
    ensures
        ({
            let s = spawning(c, slots);
            &&& s.stages == c.stages
            &&& s.before_spawn == c.before_spawn
            &&& s.command == c.display()
            &&& s.stdin == stdin::attempt_share(c.stdin, slots)
            &&& s.launch.command == c.display()
            &&& s.launch.progress == 0
            &&& !s.launch.failed
            &&& s.launch.plan.goal is Spawn
            &&& s.launch.plan.stages == c.stages.len()
            &&& s.launch.plan.has_stdin <==> s.stdin !is Nothing
            &&& s.launch.plan.stdout_mode == c.stdout_mode
            &&& s.launch.plan.stderr_mode == c.stderr_mode
        }),
{
}

/// What a handle offers is what the launch connected to the host: the stage
/// whose stdout can be taken, read or collected is the only one whose stdout is
/// piped to the host, and the stage whose stdin can be taken is piped and not
/// fed.
pub proof fn law_handle_offers_the_piped_stages(
    c: CmdView,
    slots: Seq<bool>,
    pids: Seq<u32>,
    k: int,
)
    requires
        1 <= c.stages.len() <= usize::MAX,
        pids.len() == c.stages.len(),
        0 <= k < c.stages.len(),
    ensures
        ({
            let s = spawning(c, slots);
            let plan = s.launch.plan;
            let p = SpawnedView::fresh(pids, !plan.has_stdin, s.command);
            &&& p.stdout_offer() == Some(k as usize) <==> plan.wiring(k).stdout is Piped
            &&& p.stdout_source() == Some(k as usize) <==> plan.wiring(k).stdout is Piped
            &&& p.stdout_read().stdout_source() == Some(k as usize) <==> plan.wiring(
                k,
            ).stdout is Piped
            &&& p.stdin_offer() == Some(k as usize) <==> plan.wiring(k).stdin is Piped
                && !plan.wiring(k).feed_stdin
        }),
{
}

/// A refusal is a spawn failure of the command for invalid input, which the
/// operating system had no part in.
pub proof fn law_refusals_are_invalid_input(command: CmdDisplayView)
    ensures
        forall|e: RunErrorView|
            (e == routed_stdout_refusal(command) || e == stdin::async_reader_refusal(command))
                ==> {
                &&& (#[trigger] e.command()) == command
                &&& e matches RunErrorView::Spawn { source, .. }
                &&& source.kind == IoErrorKind::InvalidInput
                &&& source.code is None
            },
{
}

/// A spawn, as it is begun: refused exactly if stdout is routed away, or, by the
/// blocking runner, if stdin is an async reader, with the readers as they were;
/// else it has the command's stages, hook, streams and share of the input.
pub proof fn law_spawns_begin_as_the_command_says(
    c: Cmd,
    slots: &mut ReaderSlots,
    r: Result<Spawning, RunError>,
)
    requires
        1 <= c@.stages.len() <= usize::MAX,
        call_ensures(Cmd::spawn_async, (c, slots), r) || call_ensures(Cmd::spawn, (c, slots), r),
    ensures
        call_ensures(Cmd::spawn_async, (c, slots), r) ==> (r is Ok <==> c@.stdout_mode is Capture),
        call_ensures(Cmd::spawn, (c, slots), r) ==> (r is Ok <==> c@.stdout_mode is Capture && !(
        c@.stdin matches Some(StdinView::AsyncReader(_)))),
        r matches Err(e) ==> {
            &&& e@ matches RunErrorView::Spawn { command, source }
            &&& command == c@.display()
            &&& source.kind == IoErrorKind::InvalidInput
            &&& source.code is None
            &&& final(slots)@ == old(slots)@
        },
        r matches Ok(s) ==> {
            &&& s@.stages == c@.stages
            &&& s@.before_spawn == c@.before_spawn
            &&& s@.command == c@.display()
            &&& s@.stdin == stdin::attempt_share(c@.stdin, old(slots)@)
            &&& final(slots)@ == stdin::slots_after(c@.stdin, old(slots)@)
            &&& s@.launch.progress == 0
            &&& !s@.launch.failed
            &&& s@.launch.command == c@.display()
            &&& s@.launch.plan.goal is Spawn
            &&& s@.launch.plan.stages == c@.stages.len()
            &&& s@.launch.plan.has_stdin <==> s@.stdin !is Nothing
            &&& s@.launch.plan.stderr_mode == c@.stderr_mode
        },
{
    law_spawn_follows_the_command(c@, old(slots)@);
}

/// The handle to a spawn, as it is made: it has the pids, in order, and the
/// command, and offers stdin exactly if nothing is fed. The input is handed over
/// once.
pub proof fn law_handles_belong_to_their_spawn(
    s: Spawning,
    pids: Vec<u32>,
    p: SpawnedProcess,
    q: AsyncSpawnedProcess,
    t: &mut Spawning,
    share: AsyncStdinForAttempt,
    mode: &Redirection,
    command: &CmdDisplay,
    refused: Result<(), RunError>,
)
    ensures
        call_ensures(Spawning::into_handle, (s, pids), p) ==> {
            &&& p@.pids == pids@
            &&& p@.stdin_held == !s@.launch.plan.has_stdin
            &&& p@.stdout == crate::spawned::StdoutState::NotTaken
            &&& p@.command == s@.command
            &&& p@.finalized is None
        },
        call_ensures(Spawning::into_async_handle, (s,), q) ==> {
            &&& q@.stages == s@.launch.plan.stages
            &&& q@.stdin_held == !s@.launch.plan.has_stdin
            &&& q@.stdout_held
            &&& q@.command == s@.command
            &&& q@.finalized is None
        },
        call_ensures(Spawning::take_stdin, (t,), share) ==> {
            &&& share@ == old(t)@.stdin
            &&& final(t)@ == SpawningView { stdin: AttemptStdinView::Nothing, ..old(t)@ }
        },
        call_ensures(reject_non_capture_stdout_on_spawn, (mode, command), refused) ==> (
        refused is Ok <==> *mode is Capture),
{
}

}
