//! Starting the stages of a command, one system call after the other.
//!
//! A [`Launch`] says what to do next and is told how that went; the host makes
//! the calls. First come the pipes between the stages, then the stages from
//! left to right. The first failure ends the launch: no further stage starts,
//! and those that run are to be killed.

use vstd::prelude::*;

use crate::cmd_display::{CmdDisplay, CmdDisplayView};
use crate::error::{RunError, RunErrorView};
use crate::os::IoError;
use crate::plan::{LaunchPlan, StageWiring};

verus! {

/// The next thing to do.
#[derive(Debug, Clone, Copy, PartialEq, Eq, Structural)]
pub enum LaunchAction {
    /// Make the pipe between stage `pipe` and its right neighbour.
    OpenPipe { pipe: usize },
    /// Set up the stage, run the hook, and spawn it.
    Start { stage: usize, wiring: StageWiring },
    /// Every stage runs.
    Ready,
    /// The launch has failed: kill and reap the stages before `launched`, which
    /// are all that run.
    Abandon { launched: usize },
}

/// The progress of a launch.
pub struct Launch {
    plan: LaunchPlan,
    command: CmdDisplay,
    pipes: usize,
    launched: usize,
    failed: bool,
}

/// The contents of a [`Launch`].
pub ghost struct LaunchView {
    pub plan: LaunchPlan,
    pub command: CmdDisplayView,
    /// How many calls have succeeded.
    pub progress: nat,
    /// A call has failed.
    pub failed: bool,
}

impl View for Launch {
    type V = LaunchView;

    closed spec fn view(&self) -> LaunchView {
        LaunchView {
            plan: self.plan,
            command: self.command@,
            progress: self.pipes as nat + self.launched as nat,
            failed: self.failed,
        }
    }
}

/// The action that follows `progress` successful calls.
pub open spec fn action_at(plan: LaunchPlan, progress: nat) -> LaunchAction {
    if progress < plan.stages - 1 {
        LaunchAction::OpenPipe { pipe: progress as usize }
    } else if progress < 2 * plan.stages - 1 {
        let stage = progress - (plan.stages - 1);
        LaunchAction::Start { stage: stage as usize, wiring: plan.wiring(stage) }
    } else {
        LaunchAction::Ready
    }
}

impl LaunchView {
    /// A launch before its first call.
    pub open spec fn fresh(plan: LaunchPlan, command: CmdDisplayView) -> LaunchView {
        LaunchView { plan, command, progress: 0, failed: false }
    }

    /// How many stages run.
    pub open spec fn launched(self) -> nat {
        if self.progress < self.plan.stages {
            0
        } else {
            (self.progress - (self.plan.stages - 1)) as nat
        }
    }

    pub open spec fn next(self) -> LaunchAction {
        if self.failed {
            LaunchAction::Abandon { launched: self.launched() as usize }
        } else {
            action_at(self.plan, self.progress)
        }
    }

    /// The launch after its action went well (`done`) or failed.
    pub open spec fn after(self, done: bool) -> LaunchView {
        if !done {
            LaunchView { failed: true, ..self }
        } else if self.next() is Ready || self.next() is Abandon {
            self
        } else {
            LaunchView { progress: self.progress + 1, ..self }
        }
    }
}

impl Launch {
    #[verifier::type_invariant]
    spec fn in_order(self) -> bool {
        &&& self.plan.stages >= 1
        &&& self.pipes <= self.plan.stages - 1
        &&& self.launched <= self.plan.stages
        &&& self.launched > 0 ==> self.pipes == self.plan.stages - 1
    }

    pub fn new(plan: LaunchPlan, command: CmdDisplay) -> (l: Launch)
        requires
            plan.stages >= 1,
        ensures
            l@ == LaunchView::fresh(plan, command@),
    {
        Launch { plan, command, pipes: 0, launched: 0, failed: false }
    }

    /// The plan that is carried out.
    pub fn plan(&self) -> (p: LaunchPlan)
        ensures
            p == self@.plan,
            p.stages >= 1,
    {
        proof {
            use_type_invariant(self);
        }
        self.plan
    }

    /// What to do next.
    pub fn next(&self) -> (a: LaunchAction)
        ensures
            a == self@.next(),
    {
        proof {
            use_type_invariant(self);
        }
        if self.failed {
            LaunchAction::Abandon { launched: self.launched }
        } else if self.pipes < self.plan.stages - 1 {
            LaunchAction::OpenPipe { pipe: self.pipes }
        } else if self.launched < self.plan.stages {
            LaunchAction::Start {
                stage: self.launched,
                wiring: self.plan.wire_stage(self.launched),
            }
        } else {
            LaunchAction::Ready
        }
    }

    /// How many stages run.
    pub fn launched(&self) -> (n: usize)
        ensures
            n == self@.launched(),
    {
        proof {
            use_type_invariant(self);
        }
        self.launched
    }

    /// How the last action went. A failure ends the launch and becomes the
    /// error of the run.
    pub fn step(&mut self, done: Result<(), IoError>) -> (r: Result<(), RunError>)
        ensures
            final(self)@ == old(self)@.after(done is Ok),
            match done {
                Ok(_) => r is Ok,
                Err(source) => r matches Err(e) && e@ == (RunErrorView::Spawn {
                    command: old(self)@.command,
                    source: source@,
                }),
            },
    {
        proof {
            use_type_invariant(&*self);
        }
        match done {
            Ok(_) => {
                if !self.failed {
                    if self.pipes < self.plan.stages - 1 {
                        self.pipes = self.pipes + 1;
                    } else if self.launched < self.plan.stages {
                        self.launched = self.launched + 1;
                    }
                }
                Ok(())
            },
            Err(source) => {
                self.failed = true;
                Err(RunError::Spawn { command: self.command.clone(), source })
            },
        }
    }
}

/// Every pipe is opened before any stage starts, every stage starts exactly
/// once, from left to right, and the launch is ready after that.
pub proof fn law_stages_start_once_in_order(plan: LaunchPlan, stage: int)
    requires
        0 <= stage < plan.stages,
    ensures
        forall|t: nat| (#[trigger] action_at(plan, t)) matches LaunchAction::Start { stage: s, .. }
            && s == stage <==> t == plan.stages - 1 + stage,
        forall|t: nat| (#[trigger] action_at(plan, t)) is OpenPipe <==> t < plan.stages - 1,
        forall|t: nat| (#[trigger] action_at(plan, t)) is Ready <==> t >= 2 * plan.stages - 1,
{
}

/// Where starting stage `k` fails, exactly the stages before it run. The launch
/// is over then: it asks for these to be killed, and nothing that is reported
/// afterwards makes it start another stage.
pub proof fn law_failed_launch_is_over(l: LaunchView, k: int, done: bool)
    requires
        0 <= k < l.plan.stages,
        l.next() == (LaunchAction::Start { stage: k as usize, wiring: l.plan.wiring(k) }),
    ensures
        l.launched() == k,
        l.after(false).next() == (LaunchAction::Abandon { launched: k as usize }),
        l.after(false).after(done) == l.after(false),
{
}

/// A failed launch stays failed, whatever is reported: what it asks for does
/// not change any more.
pub proof fn law_failure_is_final(l: LaunchView, done: bool)
    requires
        l.failed,
    ensures
        l.after(done) == l,
        l.after(done).next() == (LaunchAction::Abandon { launched: l.launched() as usize }),
{
}

/// A launch starts each stage with the connections that the plan gives it, and
/// opens the pipe of each place between two stages once, from left to right.
pub proof fn law_stages_start_as_planned(plan: LaunchPlan, t: nat)
    requires
        plan.stages >= 1,
    ensures
        t < plan.stages - 1 ==> (action_at(plan, t) matches LaunchAction::OpenPipe { pipe } && pipe
            == t),
        plan.stages - 1 <= t < 2 * plan.stages - 1 ==> (action_at(
            plan,
            t,
        ) matches LaunchAction::Start { stage, wiring } && stage == t - (plan.stages - 1) && wiring
            == plan.wiring(stage as int)),
        t >= 2 * plan.stages - 1 ==> action_at(plan, t) is Ready,
{
}

/// A launch begins with nothing done. Each call that goes well takes it one
/// action further, until every stage runs; only a failure makes it give up. The
/// plan and the command stay the same throughout.
pub proof fn law_launch_goes_on_action_by_action(l: LaunchView, done: bool)
    requires
        l.plan.stages >= 1,
        l.progress <= 2 * l.plan.stages - 1,
    ensures
        l.after(done).plan == l.plan,
        l.after(done).command == l.command,
        !l.failed ==> l.next() == action_at(l.plan, l.progress),
        !l.failed && done && l.progress < 2 * l.plan.stages - 1 ==> l.after(done).progress
            == l.progress + 1,
        !l.failed && done && l.progress == 2 * l.plan.stages - 1 ==> l.after(done) == l,
        !done ==> l.after(done).progress == l.progress,
        l.after(done).failed <==> l.failed || !done,
        l.failed ==> l.next() is Abandon,
        l.failed ==> l.after(done).progress == l.progress,
{
}

/// A fresh launch has opened no pipe and started no stage.
pub proof fn law_fresh_launch_has_done_nothing(plan: LaunchPlan, command: CmdDisplayView)
    requires
        plan.stages >= 1,
    ensures
        LaunchView::fresh(plan, command).plan == plan,
        LaunchView::fresh(plan, command).command == command,
        LaunchView::fresh(plan, command).progress == 0,
        !LaunchView::fresh(plan, command).failed,
        LaunchView::fresh(plan, command).launched() == 0,
{
}

/// The stages that run are those that were started: none while pipes are being
/// opened, one more with every start, all of them in the end. A failed launch
/// has exactly those killed.
pub proof fn law_launched_counts_the_started(l: LaunchView)
    requires
        l.plan.stages >= 1,
        l.progress <= 2 * l.plan.stages - 1,
    ensures
        l.progress <= l.plan.stages - 1 ==> l.launched() == 0,
        l.progress >= l.plan.stages - 1 ==> l.launched() + (l.plan.stages - 1) == l.progress,
        !l.failed && l.next() is Start ==> {
            &&& l.next()->stage == l.launched()
            &&& l.after(true).launched() == l.launched() + 1
        },
        !l.failed && l.next() is Ready ==> l.launched() == l.plan.stages,
        l.failed ==> l.next() == (LaunchAction::Abandon { launched: l.launched() as usize }),
{
}

/// A launch, as it is driven: it begins with nothing done, a call that went well
/// takes it to its next action, and one that failed ends it with a spawn failure
/// of the command for that cause.
pub proof fn law_launches_are_driven_by_reports(
    plan: LaunchPlan,
    command: CmdDisplay,
    fresh: Launch,
    l: &mut Launch,
    done: Result<(), IoError>,
    r: Result<(), RunError>,
)
    ensures
        call_ensures(Launch::new, (plan, command), fresh) ==> {
            &&& fresh@.plan == plan
            &&& fresh@.command == command@
            &&& fresh@.progress == 0
            &&& !fresh@.failed
        },
        call_ensures(Launch::step, (l, done), r) ==> {
            &&& final(l)@.plan == old(l)@.plan
            &&& final(l)@.command == old(l)@.command
            &&& r is Ok <==> done is Ok
            &&& final(l)@.failed <==> old(l)@.failed || done is Err
            &&& done is Ok && !old(l)@.failed && old(l)@.progress < 2 * old(l)@.plan.stages - 1
                ==> final(l)@.progress == old(l)@.progress + 1
            &&& done is Err || old(l)@.failed ==> final(l)@.progress == old(l)@.progress
            &&& done matches Err(cause) ==> {
                &&& r matches Err(e)
                &&& e@ matches RunErrorView::Spawn { command: c, source }
                &&& c == old(l)@.command
                &&& source == cause@
            }
        },
{
}

/// What a launch asks for and tells: pipes first, then the stages from left to
/// right as the plan connects them, then nothing more; after a failure, the
/// stages that run are to be killed.
pub proof fn law_launches_ask_for_pipes_then_stages(
    l: &Launch,
    action: LaunchAction,
    n: usize,
    plan: LaunchPlan,
)
    requires
        l@.plan.stages >= 1,
        l@.progress <= 2 * l@.plan.stages - 1,
    ensures
        call_ensures(Launch::plan, (l,), plan) ==> plan == l@.plan,
        call_ensures(Launch::launched, (l,), n) ==> {
            &&& l@.progress < l@.plan.stages ==> n == 0
            &&& l@.progress >= l@.plan.stages ==> n + (l@.plan.stages - 1) == l@.progress
        },
        call_ensures(Launch::next, (l,), action) ==> {
            let pipes = l@.plan.stages - 1;
            &&& !l@.failed && l@.progress < pipes ==> (
            action matches LaunchAction::OpenPipe { pipe } && pipe == l@.progress)
            &&& !l@.failed && pipes <= l@.progress < pipes + l@.plan.stages ==> (
            action matches LaunchAction::Start { stage, wiring } && stage == l@.progress - pipes
                && wiring == l@.plan.wiring(stage as int))
            &&& !l@.failed && l@.progress == pipes + l@.plan.stages ==> action is Ready
            &&& l@.failed ==> (action matches LaunchAction::Abandon { launched } && if l@.progress
                <= pipes {
                launched == 0
            } else {
                launched + pipes == l@.progress
            })
        },
{
}

}
