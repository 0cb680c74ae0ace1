//! Pluggable backends for running a command.
//!
//! Code that takes a [`Runner`] can be given the real one in production and a
//! [`MockRunner`](crate::testing::MockRunner) in tests. Only running to the
//! end goes through the trait; spawning does not.

use vstd::prelude::*;

use crate::cmd::Cmd;
use crate::error::RunError;
use crate::output::RunOutput;
use crate::run::Run;
use crate::stdin;
use crate::stdin::StdinView;

verus! {

/// A backend that runs a [`Cmd`] to its end.
pub trait Runner: Send {
    /// The backend can be handed this command.
    spec fn accepts(&self, cmd: Cmd) -> bool;

    /// Run the command, and return when it has ended.
    fn run(&mut self, cmd: Cmd) -> (r: Result<RunOutput, RunError>)
        requires
            old(self).accepts(cmd),
    ;
}

/// The default backend, which does what [`Cmd::run`] says.
#[derive(Debug, Default, Clone, Copy)]
pub struct DefaultRunner;

impl DefaultRunner {
    /// The run that the host is to carry out, on the blocking runner.
    pub fn run(&self, cmd: Cmd) -> (r: Result<Run, RunError>)
        ensures
            match r {
                Ok(run) => !(cmd@.stdin matches Some(StdinView::AsyncReader(_)))
                    && run@.is_fresh(cmd@),
                Err(e) => {
                    &&& cmd@.stdin matches Some(StdinView::AsyncReader(_))
                    &&& e@ == stdin::async_reader_refusal(cmd@.display())
                },
            },
    {
        cmd.run()
    }
}

/// The default backend runs a command as the blocking runner does: refused for
/// an async reader, and else at its first attempt.
pub proof fn law_default_backend_runs_the_command(
    backend: &DefaultRunner,
    cmd: Cmd,
    r: Result<Run, RunError>,
)
    requires
        call_ensures(DefaultRunner::run, (backend, cmd), r),
    ensures
        r is Err <==> (cmd@.stdin matches Some(StdinView::AsyncReader(_))),
        r matches Err(e) ==> e@ is Spawn && e@.command() == cmd@.display(),
        r matches Ok(run) ==> run@.cmd == cmd@ && run@.attempt == 1 && run@.asked.len() == 0,
{
}

}
