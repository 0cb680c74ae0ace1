//! Waiting for the children of one attempt.
//!
//! The stages are waited for from left to right. All of them share one time
//! budget, counted from the moment the last stage was started; a stage that is
//! still running when it is used up is killed. Where the caller cancels the
//! run, every stage whose end is not known yet is stopped. A [`Waiting`] says
//! what to do next and is told what came of it; the host makes the calls.

use vstd::prelude::*;

use crate::cmd_display::{CmdDisplay, CmdDisplayView};
use crate::error;
use crate::error::{RunError, RunErrorView};
use crate::os::{ExitStatus, IoError};
use crate::outcome;
use crate::outcome::{Outcome, OutcomeView};
use crate::output;
use crate::output::{RunOutput, RunOutputView};
use crate::text;
use crate::time;
use crate::time::Duration;

verus! {

/// The next thing to do.
#[derive(Debug, Clone, Copy, PartialEq, Eq, Structural)]
pub enum WaitAction {
    /// Report how much of the attempt's time is used up.
    ReadClock,
    /// Wait for the stage, for no longer than the limit where there is one.
    Wait { stage: usize, limit: Option<Duration> },
    /// Kill the stage and reap it.
    Kill { stage: usize },
    /// Stop the stage, which was cancelled, and reap it: ask it to end, and
    /// kill it if it has not done so when a grace period is over.
    Stop { stage: usize },
    /// Every stage has ended: collect the captured output.
    Collect,
}

/// What came of an action.
pub enum WaitEvent {
    /// The clock was read: this much of the attempt's time is used up.
    Clock(Duration),
    /// The stage ended.
    Exited(ExitStatus),
    /// The stage could not be waited for.
    Failed(IoError),
    /// The limit passed before the stage ended.
    Expired,
    /// The stage was killed, with this much of the attempt's time used up.
    Killed(Duration),
    /// The caller cancelled the run. This may come at any time.
    Cancelled,
    /// The stage was stopped.
    Stopped,
}

/// The progress of the wait.
pub struct Waiting {
    stages: usize,
    budget: Option<Duration>,
    outcomes: Vec<Outcome>,
    cancelled: bool,
    next: WaitAction,
}

/// The contents of a [`Waiting`].
#[verifier::ext_equal]
pub ghost struct WaitingView {
    pub stages: nat,
    pub budget: Option<Duration>,
    /// How the stages ended, as far as they did.
    pub outcomes: Seq<OutcomeView>,
    /// The caller cancelled the run before every stage had ended.
    pub cancelled: bool,
    pub next: WaitAction,
}

impl View for Waiting {
    type V = WaitingView;

    closed spec fn view(&self) -> WaitingView {
        WaitingView {
            stages: self.stages as nat,
            budget: self.budget,
            outcomes: outcome::outcome_views(self.outcomes@),
            cancelled: self.cancelled,
            next: self.next,
        }
    }
}

/// What to do first once `done` stages have ended. A single command has its
/// whole budget; later stages of a pipeline have what the earlier ones left. A
/// cancelled run only stops the stages that are left.
pub open spec fn turn(
    stages: nat,
    budget: Option<Duration>,
    cancelled: bool,
    done: nat,
) -> WaitAction {
    if done >= stages {
        WaitAction::Collect
    } else if cancelled {
        WaitAction::Stop { stage: done as usize }
    } else if budget is Some && stages > 1 {
        WaitAction::ReadClock
    } else {
        WaitAction::Wait { stage: done as usize, limit: budget }
    }
}

impl WaitingView {
    /// The wait for `stages` stages, before it began.
    pub open spec fn fresh(stages: nat, budget: Option<Duration>) -> WaitingView {
        WaitingView {
            stages,
            budget,
            outcomes: Seq::empty(),
            cancelled: false,
            next: turn(stages, budget, false, 0),
        }
    }

    /// The stage at hand ended like this.
    pub open spec fn recorded(self, how: OutcomeView) -> WaitingView {
        let outcomes = self.outcomes.push(how);
        WaitingView {
            outcomes,
            next: turn(self.stages, self.budget, self.cancelled, outcomes.len()),
            ..self
        }
    }

    /// The state after an event. One that does not answer the action at hand
    /// changes nothing.
    pub open spec fn after(self, event: WaitEvent) -> WaitingView {
        let stage = self.outcomes.len() as usize;
        match (self.next, event) {
            (WaitAction::ReadClock, WaitEvent::Clock(used)) => {
                let left = time::minus(self.budget->0@, used@);
                WaitingView {
                    next: if left == 0 {
                        WaitAction::Kill { stage }
                    } else {
                        WaitAction::Wait { stage, limit: Some(Duration { nanos: left as u128 }) }
                    },
                    ..self
                }
            },
            (WaitAction::Wait { .. }, WaitEvent::Exited(status)) => {
                self.recorded(OutcomeView::Exited(status))
            },
            (WaitAction::Wait { .. }, WaitEvent::Failed(source)) => {
                self.recorded(OutcomeView::WaitFailed(source@))
            },
            (WaitAction::Wait { limit, .. }, WaitEvent::Expired) => if limit is Some {
                WaitingView { next: WaitAction::Kill { stage }, ..self }
            } else {
                self
            },
            (WaitAction::Kill { .. }, WaitEvent::Killed(used)) => {
                self.recorded(OutcomeView::TimedOut(used))
            },
            (WaitAction::Stop { .. }, WaitEvent::Stopped) => {
                self.recorded(OutcomeView::Cancelled)
            },
            (WaitAction::Collect, WaitEvent::Cancelled) => self,
            (_, WaitEvent::Cancelled) => WaitingView {
                cancelled: true,
                next: WaitAction::Stop { stage },
                ..self
            },
            _ => self,
        }
    }

    /// The action at hand is about the leftmost stage whose end is not known,
    /// time is read and limited only under a budget, and only a stage that ran
    /// out of a budget counts as timed out. From a cancellation on, stages are
    /// stopped and nothing else, up to the last one.
    pub open spec fn in_order(self) -> bool {
        &&& 1 <= self.stages <= usize::MAX
        &&& self.outcomes.len() <= self.stages
        &&& self.next is Collect <==> self.outcomes.len() == self.stages
        &&& self.next is ReadClock ==> self.budget is Some && self.stages > 1
        &&& self.next matches WaitAction::Wait { stage, limit } ==> {
            &&& stage == self.outcomes.len()
            &&& limit is Some <==> self.budget is Some
            &&& limit is Some ==> limit->0@ <= self.budget->0@
            &&& self.stages == 1 ==> limit == self.budget
        }
        &&& self.next matches WaitAction::Kill { stage } ==> {
            &&& stage == self.outcomes.len()
            &&& self.budget is Some
        }
        &&& self.next matches WaitAction::Stop { stage } ==> {
            &&& stage == self.outcomes.len()
            &&& self.cancelled
        }
        &&& self.cancelled ==> self.next is Stop || self.next is Collect
            && self.outcomes.last() is Cancelled
        &&& forall|i: int|
            0 <= i < self.outcomes.len() && (#[trigger] self.outcomes[i]) is Cancelled
                ==> self.cancelled
        &&& forall|i: int|
            0 <= i < self.outcomes.len() && (#[trigger] self.outcomes[i]) is TimedOut
                ==> self.budget is Some
    }

    /// How many events the wait still needs at most.
    pub open spec fn to_go(self) -> nat {
        let left = self.stages - self.outcomes.len();
        (match self.next {
            WaitAction::Collect => 0,
            WaitAction::Stop { .. } => left,
            WaitAction::ReadClock => 3 * left + 1,
            WaitAction::Wait { .. } => 3 * left,
            WaitAction::Kill { .. } => 3 * left - 1,
        }) as nat
    }
}

/// The decoded text of several captured chunks, one after the other. A chunk
/// that was lost counts as empty.
pub open spec fn joined_text(chunks: Seq<Option<Vec<u8>>>) -> Seq<char>
    decreases chunks.len(),
{
    if chunks.len() == 0 {
        Seq::empty()
    } else {
        joined_text(chunks.drop_last()) + match chunks.last() {
            Some(bytes) => text::lossy(bytes@),
            None => Seq::empty(),
        }
    }
}

/// The bytes of a captured stream; none where nothing was captured.
pub open spec fn captured(bytes: Option<Vec<u8>>) -> Seq<u8> {
    match bytes {
        Some(b) => b@,
        None => Seq::empty(),
    }
}

/// Decode each chunk and join the texts.
pub fn join_text(chunks: &Vec<Option<Vec<u8>>>) -> (out: String)
    ensures
        out@ == joined_text(chunks@),
{
    let mut out = String::new();
    let mut i: usize = 0;
    assert(chunks@.take(0) =~= Seq::<Option<Vec<u8>>>::empty());
    while i < chunks.len()
        invariant
            i <= chunks@.len(),
            out@ == joined_text(chunks@.take(i as int)),
        decreases chunks@.len() - i,
    {
        assert(chunks@.take(i + 1).drop_last() =~= chunks@.take(i as int));
        match &chunks[i] {
            Some(bytes) => {
                out.append(text::decode_lossy(bytes.as_slice()).as_str());
            },
            None => {},
        }
        assert(out@ =~= joined_text(chunks@.take(i + 1)));
        i += 1;
    }
    assert(chunks@.take(i as int) =~= chunks@);
    out
}

fn first_of_turn(
    stages: usize,
    budget: Option<Duration>,
    cancelled: bool,
    done: usize,
) -> (a: WaitAction)
    ensures
        a == turn(stages as nat, budget, cancelled, done as nat),
{
    if done >= stages {
        WaitAction::Collect
    } else if cancelled {
        WaitAction::Stop { stage: done }
    } else if budget.is_some() && stages > 1 {
        WaitAction::ReadClock
    } else {
        WaitAction::Wait { stage: done, limit: budget }
    }
}

impl Waiting {
    #[verifier::type_invariant]
    spec fn ordered(self) -> bool {
        self@.in_order()
    }

    /// Start to wait for `stages` running stages.
    pub fn new(stages: usize, budget: Option<Duration>) -> (w: Waiting)
        requires
            stages >= 1,
        ensures
            w@ == WaitingView::fresh(stages as nat, budget),
    {
        let outcomes: Vec<Outcome> = Vec::new();
        assert(outcome::outcome_views(outcomes@) =~= Seq::<OutcomeView>::empty());
        Waiting {
            stages,
            budget,
            outcomes,
            cancelled: false,
            next: first_of_turn(stages, budget, false, 0),
        }
    }

    /// What to do next.
    pub fn next(&self) -> (a: WaitAction)
        ensures
            a == self@.next,
            self@.in_order(),
    {
        proof {
            use_type_invariant(self);
        }
        self.next
    }

    fn record(self, how: Outcome) -> (w: Waiting)
        requires
            self@.next !is Collect,
            how@ is TimedOut ==> self@.budget is Some,
            how@ is Cancelled <==> self@.next is Stop,
        ensures
            w@ == self@.recorded(how@),
    {
        proof {
            use_type_invariant(&self);
        }
        let Waiting { stages, budget, mut outcomes, cancelled, next: _ } = self;
        let ghost before = outcome::outcome_views(outcomes@);
        outcomes.push(how);
        assert(outcome::outcome_views(outcomes@) =~= before.push(how@));
        let done: usize = outcomes.len();
        let next = first_of_turn(stages, budget, cancelled, done);
        proof {
            lemma_recording_keeps_order(self@, how@);
        }
        Waiting { stages, budget, outcomes, cancelled, next }
    }

    /// What came of the action.
    pub fn step(self, event: WaitEvent) -> (w: Waiting)
        ensures
            w@ == self@.after(event),
    {
        proof {
            use_type_invariant(&self);
        }
        let stage: usize = self.outcomes.len();
        match (self.next, event) {
            (WaitAction::ReadClock, WaitEvent::Clock(used)) => {
                let left = self.budget.unwrap().saturating_sub(used);
                let next = if left.is_zero() {
                    WaitAction::Kill { stage }
                } else {
                    WaitAction::Wait { stage, limit: Some(left) }
                };
                Waiting { next, ..self }
            },
            (WaitAction::Wait { .. }, WaitEvent::Exited(status)) => {
                self.record(Outcome::Exited(status))
            },
            (WaitAction::Wait { .. }, WaitEvent::Failed(source)) => {
                self.record(Outcome::WaitFailed(source))
            },
            (WaitAction::Wait { limit, .. }, WaitEvent::Expired) => if limit.is_some() {
                Waiting { next: WaitAction::Kill { stage }, ..self }
            } else {
                self
            },
            (WaitAction::Kill { .. }, WaitEvent::Killed(used)) => {
                self.record(Outcome::TimedOut(used))
            },
            (WaitAction::Stop { .. }, WaitEvent::Stopped) => self.record(Outcome::Cancelled),
            (WaitAction::Collect, WaitEvent::Cancelled) => self,
            (_, WaitEvent::Cancelled) => Waiting {
                cancelled: true,
                next: WaitAction::Stop { stage },
                ..self
            },
            _ => self,
        }
    }

    /// The result of the attempt, once every stage has ended: that of the
    /// rightmost stage that failed, with the last stage's stdout and every
    /// stage's stderr.
    pub fn finish(
        self,
        command: &CmdDisplay,
        stdout: Option<Vec<u8>>,
        stderr: Vec<Option<Vec<u8>>>,
    ) -> (r: Result<RunOutput, RunError>)
        requires
            self@.next is Collect,
        ensures
            output::result_view(r) == outcome::finalized(
                command@,
                outcome::combined(self@.outcomes),
                captured(stdout),
                joined_text(stderr@),
            ),
    {
        proof {
            use_type_invariant(&self);
        }
        let chosen = outcome::combine_outcomes(self.outcomes);
        let bytes = match stdout {
            Some(bytes) => bytes,
            None => Vec::new(),
        };
        outcome::finalize_outcome(command, chosen, bytes, join_text(&stderr))
    }
}

proof fn lemma_recording_keeps_order(w: WaitingView, how: OutcomeView)
    requires
        w.in_order(),
        w.next !is Collect,
        how is TimedOut ==> w.budget is Some,
        how is Cancelled <==> w.next is Stop,
    ensures
        w.recorded(how).in_order(),
{
    let after = w.recorded(how);
    assert forall|i: int|
        0 <= i < after.outcomes.len() && (#[trigger] after.outcomes[i]) is Cancelled
            implies after.cancelled by {
        if i < w.outcomes.len() {
            assert(w.outcomes[i] == after.outcomes[i]);
        }
    }
    assert forall|i: int|
        0 <= i < after.outcomes.len() && (#[trigger] after.outcomes[i]) is TimedOut
            implies after.budget is Some by {
        if i < w.outcomes.len() {
            assert(w.outcomes[i] == after.outcomes[i]);
        }
    }
}

// ---------- laws ----------

/// A wait starts in order and every event keeps it so.
pub proof fn law_wait_stays_in_order(w: WaitingView, event: WaitEvent)
    requires
        w.in_order(),
    ensures
        w.after(event).in_order(),
        forall|stages: nat, budget: Option<Duration>|
            1 <= stages <= usize::MAX ==> (#[trigger] WaitingView::fresh(
                stages,
                budget,
            )).in_order(),
{
    match (w.next, event) {
        (WaitAction::Wait { .. }, WaitEvent::Exited(status)) => {
            lemma_recording_keeps_order(w, OutcomeView::Exited(status));
        },
        (WaitAction::Wait { .. }, WaitEvent::Failed(source)) => {
            lemma_recording_keeps_order(w, OutcomeView::WaitFailed(source@));
        },
        (WaitAction::Kill { .. }, WaitEvent::Killed(used)) => {
            lemma_recording_keeps_order(w, OutcomeView::TimedOut(used));
        },
        (WaitAction::Stop { .. }, WaitEvent::Stopped) => {
            lemma_recording_keeps_order(w, OutcomeView::Cancelled);
        },
        _ => {},
    }
}

/// Every event that changes anything brings the end nearer, so a wait for `n`
/// stages is over after at most `3 * n + 1` of them; what is recorded of a
/// stage never changes again.
pub proof fn law_wait_comes_to_an_end(w: WaitingView, event: WaitEvent)
    requires
        w.in_order(),
    ensures
        w.after(event) == w || w.after(event).to_go() < w.to_go(),
        w.to_go() == 0 <==> w.next is Collect,
        w.to_go() <= 3 * w.stages + 1,
        w.next is Collect ==> w.after(event) == w,
        w.outcomes.is_prefix_of(w.after(event).outcomes),
{
}

/// Under a budget, no stage of a pipeline is waited for beyond it, and a stage
/// whose turn comes when nothing is left is killed at once.
pub proof fn law_stages_share_the_budget(w: WaitingView, used: Duration)
    requires
        w.in_order(),
        w.next is ReadClock,
    ensures
        w.after(WaitEvent::Clock(used)).next matches WaitAction::Wait { limit, .. } ==> limit
            is Some && used@ + limit->0@ == w.budget->0@,
        w.after(WaitEvent::Clock(used)).next is Kill <==> used@ >= w.budget->0@,
{
}

/// A stage that outlives its limit is killed and counts as timed out.
pub proof fn law_expired_stage_is_killed(w: WaitingView, used: Duration)
    requires
        w.in_order(),
        w.next matches WaitAction::Wait { limit, .. } && limit is Some,
    ensures
        w.after(WaitEvent::Expired).next == (WaitAction::Kill { stage: w.outcomes.len() as usize }),
        w.after(WaitEvent::Expired).after(WaitEvent::Killed(used)).outcomes == w.outcomes.push(
            OutcomeView::TimedOut(used),
        ),
{
}

/// A cancelled run stops every stage whose end is not known, from the one at
/// hand on, and whatever the other stages did, it ends with the cancellation:
/// the error holds the tail of what was captured until then. A cancellation
/// that comes when every stage has ended changes nothing, and no other run ends
/// as cancelled.
pub proof fn law_cancellation_decides(
    w: WaitingView,
    event: WaitEvent,
    command: CmdDisplayView,
    stdout: Seq<u8>,
    stderr: Seq<char>,
)
    requires
        w.in_order(),
    ensures
        w.next !is Collect ==> w.after(WaitEvent::Cancelled) == (WaitingView {
            cancelled: true,
            next: WaitAction::Stop { stage: w.outcomes.len() as usize },
            ..w
        }),
        w.next is Collect ==> w.after(WaitEvent::Cancelled) == w,
        w.cancelled ==> w.next is Stop || w.next is Collect,
        w.cancelled ==> w.after(event).cancelled,
        w.next is Collect ==> {
            let result = outcome::finalized(
                command,
                outcome::combined(w.outcomes),
                stdout,
                stderr,
            );
            if w.cancelled {
                result == Err::<RunOutputView, _>(
                    RunErrorView::Cancelled {
                        command,
                        stdout: error::kept_bytes(stdout),
                        stderr: error::kept_text(stderr),
                        attempts: 1,
                    },
                )
            } else {
                !(result matches Err(e) && e is Cancelled)
            }
        },
{
    if w.next is Collect {
        let ok = w.outcomes.map_values(|o: OutcomeView| o.succeeded());
        outcome::law_rightmost_failure_decides(ok);
        let d = outcome::deciding_stage(ok);
        assert(outcome::combined(w.outcomes) == w.outcomes[d]);
        if w.cancelled {
            assert(!ok.last());
        }
    }
}

/// The collected text is that of every chunk, in order: two lists of chunks one
/// after the other give one text after the other, a single chunk gives its
/// lossy decoding, and one that was lost gives nothing.
pub proof fn law_collected_text_holds_every_chunk(
    a: Seq<Option<Vec<u8>>>,
    b: Seq<Option<Vec<u8>>>,
    chunk: Vec<u8>,
)
    ensures
        joined_text(a + b) == joined_text(a) + joined_text(b),
        joined_text(seq![Some(chunk)]) == text::lossy(chunk@),
        joined_text(seq![None::<Vec<u8>>]).len() == 0,
        joined_text(Seq::empty()).len() == 0,
    decreases b.len(),
{
    let (one, none) = (seq![Some(chunk)], seq![None::<Vec<u8>>]);
    assert(one.drop_last() =~= Seq::empty());
    assert(none.drop_last() =~= Seq::empty());
    assert(joined_text(one.drop_last()).len() == 0);
    assert(joined_text(none.drop_last()).len() == 0);
    assert(joined_text(one) =~= text::lossy(chunk@));
    if b.len() == 0 {
        assert(a + b =~= a);
        assert(joined_text(a) + joined_text(b) =~= joined_text(a));
    } else {
        law_collected_text_holds_every_chunk(a, b.drop_last(), chunk);
        assert((a + b).drop_last() =~= a + b.drop_last());
        assert((a + b).last() == b.last());
        assert(joined_text(a + b) =~= joined_text(a) + joined_text(b));
    }
}

/// Captured bytes are handed on as they are; a stream that was not captured is
/// empty.
pub proof fn law_captured_bytes_stay_whole(bytes: Vec<u8>)
    ensures
        captured(Some(bytes)) == bytes@,
        captured(None).len() == 0,
{
}

/// A fresh wait knows of no end, and begins with the leftmost stage: a single
/// command may take its whole budget, a pipeline under a budget looks at the
/// clock first, and without a budget nothing limits the wait.
pub proof fn law_wait_begins_with_the_leftmost_stage(stages: nat, budget: Option<Duration>)
    requires
        1 <= stages <= usize::MAX,
    ensures
        ({
            let w = WaitingView::fresh(stages, budget);
            &&& w.stages == stages
            &&& w.budget == budget
            &&& w.outcomes.len() == 0
            &&& !w.cancelled
            &&& w.next is ReadClock <==> stages > 1 && budget is Some
            &&& w.next !is ReadClock ==> w.next == (WaitAction::Wait { stage: 0, limit: budget })
        }),
{
}

/// What is reported of the stage at hand is recorded as it was reported: an
/// exit with its status, a failed wait with its cause, a kill at the end of the
/// budget with the time that was used, a stop as the cancellation. Nothing else
/// of the wait changes, and it goes on to the next stage, or to collecting the
/// output after the last.
pub proof fn law_reports_are_recorded(w: WaitingView, event: WaitEvent)
    requires
        w.in_order(),
        (w.next is Wait && (event is Exited || event is Failed)) || (w.next is Kill
            && event is Killed) || (w.next is Stop && event is Stopped),
    ensures
        ({
            let after = w.after(event);
            let done = w.outcomes.len() + 1;
            &&& after.outcomes.len() == done
            &&& after.outcomes.drop_last() == w.outcomes
            &&& event matches WaitEvent::Exited(s) ==> after.outcomes.last()
                == OutcomeView::Exited(s)
            &&& event matches WaitEvent::Failed(e) ==> after.outcomes.last()
                == OutcomeView::WaitFailed(e@)
            &&& event matches WaitEvent::Killed(t) ==> after.outcomes.last()
                == OutcomeView::TimedOut(t)
            &&& event is Stopped ==> after.outcomes.last() is Cancelled
            &&& after.stages == w.stages
            &&& after.budget == w.budget
            &&& after.cancelled == w.cancelled
            &&& after.next is Collect <==> done == w.stages
            &&& done < w.stages && w.cancelled ==> after.next == (WaitAction::Stop {
                stage: done as usize,
            })
            &&& done < w.stages && !w.cancelled && w.budget is Some ==> after.next is ReadClock
            &&& done < w.stages && !w.cancelled && w.budget is None ==> after.next == (
            WaitAction::Wait { stage: done as usize, limit: None })
        }),
{
    assert(w.after(event).outcomes.drop_last() =~= w.outcomes);
}

/// Looking at the clock decides between waiting for the stage at hand, for
/// exactly what is left of the budget, and killing it where nothing is left;
/// running out of that time decides for killing it. Neither touches what is
/// recorded.
pub proof fn law_clock_decides_between_waiting_and_killing(w: WaitingView, used: Duration)
    requires
        w.in_order(),
    ensures
        w.next is ReadClock ==> {
            let after = w.after(WaitEvent::Clock(used));
            let stage = w.outcomes.len() as usize;
            &&& used.nanos >= w.budget->0.nanos ==> after.next == (WaitAction::Kill { stage })
            &&& used.nanos < w.budget->0.nanos ==> {
                &&& after.next matches WaitAction::Wait { stage: s, limit: Some(left) }
                &&& s == stage
                &&& used.nanos + left.nanos == w.budget->0.nanos
            }
            &&& after.outcomes == w.outcomes
            &&& after.stages == w.stages
            &&& after.budget == w.budget
            &&& !after.cancelled
        },
        (w.next matches WaitAction::Wait { limit, .. } && limit is Some) ==> {
            let after = w.after(WaitEvent::Expired);
            &&& after.next == (WaitAction::Kill { stage: w.outcomes.len() as usize })
            &&& after.outcomes == w.outcomes
            &&& after.stages == w.stages
            &&& after.budget == w.budget
            &&& !after.cancelled
        },
{
}

/// An event that does not answer the action at hand, and is no cancellation,
/// changes nothing.
pub proof fn law_stray_events_are_ignored(w: WaitingView, event: WaitEvent)
    requires
        event !is Cancelled,
        w.next is ReadClock ==> event !is Clock,
        w.next is Wait ==> event !is Exited && event !is Failed,
        (w.next matches WaitAction::Wait { limit, .. } && limit is Some) ==> event !is Expired,
        w.next is Kill ==> event !is Killed,
        w.next is Stop ==> event !is Stopped,
    ensures
        w.after(event) == w,
{
}

/// A command of one stage that exits within its limit ends with that exit: it
/// is not killed, and its result is the one that belongs to the status.
pub proof fn law_exit_in_time_is_the_result(
    budget: Option<Duration>,
    status: ExitStatus,
    command: CmdDisplayView,
    stdout: Seq<u8>,
    stderr: Seq<char>,
)
    ensures
        ({
            let w = WaitingView::fresh(1, budget).after(WaitEvent::Exited(status));
            let result = outcome::finalized(
                command,
                outcome::combined(w.outcomes),
                stdout,
                stderr,
            );
            &&& w.next is Collect
            &&& status.raw == 0 ==> result == Ok::<_, RunErrorView>(
                RunOutputView { stdout, stderr },
            )
            &&& status.raw != 0 ==> (result matches Err(
                RunErrorView::NonZeroExit { status: s, .. },
            ) && s == status)
        }),
{
    let w = WaitingView::fresh(1, budget).after(WaitEvent::Exited(status));
    assert(w.outcomes =~= seq![OutcomeView::Exited(status)]);
    outcome::law_last_unsuccessful_stage_decides(w.outcomes, 0);
}

/// The text that is collected, as it is joined: of two lists of chunks it is the
/// one text and then the other.
pub proof fn law_joining_loses_no_chunk(
    a: &Vec<Option<Vec<u8>>>,
    b: &Vec<Option<Vec<u8>>>,
    both: &Vec<Option<Vec<u8>>>,
    first: String,
    second: String,
    whole: String,
    chunk: Vec<u8>,
)
    requires
        call_ensures(join_text, (a,), first),
        call_ensures(join_text, (b,), second),
        call_ensures(join_text, (both,), whole),
    ensures
        both@ == a@ + b@ ==> whole@ == first@ + second@,
        a@ == seq![Some(chunk)] ==> first@ == text::lossy(chunk@),
        a@ == seq![None::<Vec<u8>>] ==> first@.len() == 0,
        a@.len() == 0 ==> first@.len() == 0,
{
    law_collected_text_holds_every_chunk(a@, b@, chunk);
    if a@.len() == 0 {
        assert(a@ =~= Seq::empty());
    }
}

/// A wait, as it is driven: it begins with the stages and the budget that it is
/// given, each event takes it one step, and what it asks for is its state's next
/// action.
pub proof fn law_waits_are_driven_by_events(
    stages: usize,
    budget: Option<Duration>,
    fresh: Waiting,
    w: Waiting,
    action: WaitAction,
    event: WaitEvent,
    after: Waiting,
)
    ensures
        call_ensures(Waiting::new, (stages, budget), fresh) ==> {
            &&& fresh@.stages == stages
            &&& fresh@.budget == budget
            &&& fresh@.outcomes.len() == 0
            &&& !fresh@.cancelled
            &&& stages >= 1 ==> (fresh@.next is ReadClock <==> stages > 1 && budget is Some)
            &&& stages >= 1 && fresh@.next !is ReadClock ==> fresh@.next == (WaitAction::Wait {
                stage: 0,
                limit: budget,
            })
        },
        call_ensures(Waiting::next, (&w,), action) ==> action == w@.next && w@.in_order(),
        call_ensures(Waiting::step, (w, event), after) ==> after@ == w@.after(event),
{
}

/// The result of an attempt, as it is put together: every stage exited with
/// status zero for a success, which has the stdout that was captured and the
/// stderr of every stage; else the last stage that did not decides, and its
/// error keeps the tail of both.
pub proof fn law_finished_wait_reports_the_last_failure(
    w: Waiting,
    command: &CmdDisplay,
    stdout: Option<Vec<u8>>,
    stderr: Vec<Option<Vec<u8>>>,
    r: Result<RunOutput, RunError>,
    i: int,
)
    requires
        call_ensures(Waiting::finish, (w, command, stdout, stderr), r),
        0 <= i < w@.outcomes.len(),
        forall|j: int|
            i < j < w@.outcomes.len() ==> (#[trigger] w@.outcomes[j] matches OutcomeView::Exited(s)
                && s.raw == 0),
    ensures
        !(w@.outcomes[i] matches OutcomeView::Exited(s) && s.raw == 0) ==> {
            &&& r matches Err(e)
            &&& e@.command() == command@
            &&& w@.outcomes[i] matches OutcomeView::Exited(s) ==> (
            e@ matches RunErrorView::NonZeroExit { status, .. } && status == s)
            &&& w@.outcomes[i] matches OutcomeView::TimedOut(d) ==> (
            e@ matches RunErrorView::Timeout { elapsed, .. } && elapsed == d)
            &&& w@.outcomes[i] matches OutcomeView::WaitFailed(cause) ==> (
            e@ matches RunErrorView::Spawn { source, .. } && source == cause)
            &&& w@.outcomes[i] is Cancelled ==> e@ is Cancelled
            &&& e@.stdout() matches Some(kept) ==> {
                let all = match stdout {
                    Some(bytes) => bytes@,
                    None => Seq::empty(),
                };
                &&& kept == all.skip(all.len() - kept.len())
                &&& kept.len() == if all.len() <= 128 * 1024 {
                    all.len()
                } else {
                    128 * 1024
                }
            }
            &&& e@.stderr() matches Some(text) ==> {
                let all = joined_text(stderr@);
                &&& text.len() <= all.len()
                &&& text == all.skip(all.len() - text.len())
                &&& vstd::utf8::encode_utf8(all).len() <= 128 * 1024 ==> text == all
            }
        },
        (w@.outcomes[i] matches OutcomeView::Exited(s) && s.raw == 0) && i == 0 ==> {
            &&& r matches Ok(out)
            &&& out@.stderr == joined_text(stderr@)
            &&& stdout matches Some(bytes) ==> out@.stdout == bytes@
            &&& stdout is None ==> out@.stdout.len() == 0
        },
{
    let all = match stdout {
        Some(bytes) => bytes@,
        None => Seq::empty(),
    };
    let text = joined_text(stderr@);
    if !(w@.outcomes[i] matches OutcomeView::Exited(s) && s.raw == 0) {
        outcome::law_last_unsuccessful_stage_decides(w@.outcomes, i);
        if let Err(e) = r {
            if w@.outcomes[i] !is WaitFailed {
                outcome::law_errors_keep_the_captured_tail(
                    command@,
                    w@.outcomes[i],
                    all,
                    text,
                    e@,
                );
                assert(text.skip(0) =~= text);
            }
        }
    } else if i == 0 {
        assert forall|j: int| 0 <= j < w@.outcomes.len() implies (
        #[trigger] w@.outcomes[j] matches OutcomeView::Exited(s) && s.raw == 0) by {}
        outcome::law_last_unsuccessful_stage_decides(w@.outcomes, w@.outcomes.len() - 1);
    }
}

}
