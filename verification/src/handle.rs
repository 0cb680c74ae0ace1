//! What the blocking and the async handle to running children have in common:
//! how a wait proceeds, what is stored of children that have ended, and the
//! result that this stands for.

use vstd::prelude::*;

use crate::cmd_display::{CmdDisplay, CmdDisplayView};
use crate::error::{RunError, RunErrorView};
use crate::os::{ExitStatus, IoError, IoErrorView};
use crate::outcome;
use crate::outcome::{Outcome, OutcomeView};
use crate::output;
use crate::output::{RunOutput, RunOutputView};
use crate::text;
use crate::time;
use crate::time::Duration;

verus! {

// ---------- what is stored of children that have ended ----------

/// The exit statuses and the captured output of children that have ended.
pub struct FinalizedState {
    pub statuses: Vec<ExitStatus>,
    pub stdout: Vec<u8>,
    pub stderr: String,
}

/// The contents of a [`FinalizedState`].
pub ghost struct FinalizedView {
    pub statuses: Seq<ExitStatus>,
    pub stdout: Seq<u8>,
    pub stderr: Seq<char>,
}

impl View for FinalizedState {
    type V = FinalizedView;

    open spec fn view(&self) -> FinalizedView {
        FinalizedView { statuses: self.statuses@, stdout: self.stdout@, stderr: self.stderr@ }
    }
}

/// The result that a finished handle stands for: that of the deciding stage.
pub open spec fn reconstructed(command: CmdDisplayView, state: FinalizedView) -> Result<
    RunOutputView,
    RunErrorView,
> {
    let status = state.statuses[outcome::deciding_stage(outcome::successes(state.statuses))];
    outcome::finalized(command, OutcomeView::Exited(status), state.stdout, state.stderr)
}

/// The result that a finished handle stands for.
pub fn reconstruct(command: &CmdDisplay, state: &FinalizedState) -> (r: Result<RunOutput, RunError>)
    requires
        state@.statuses.len() >= 1,
    ensures
        output::result_view(r) == reconstructed(command@, state@),
{
    let chosen = outcome::pipefail_status(&state.statuses);
    outcome::finalize_outcome(
        command,
        Outcome::Exited(chosen),
        vstd::slice::slice_to_vec(state.stdout.as_slice()),
        state.stderr.clone(),
    )
}

/// All captured bytes, one stage after the other. What was lost is left out.
pub open spec fn joined_bytes(chunks: Seq<Option<Vec<u8>>>) -> Seq<u8>
    decreases chunks.len(),
{
    if chunks.len() == 0 {
        Seq::empty()
    } else {
        joined_bytes(chunks.drop_last()) + match chunks.last() {
            Some(bytes) => bytes@,
            None => Seq::empty(),
        }
    }
}

/// All captured bytes, one stage after the other.
pub fn join_bytes(chunks: Vec<Option<Vec<u8>>>) -> (out: Vec<u8>)
    ensures
        out@ == joined_bytes(chunks@),
{
    let mut out: Vec<u8> = Vec::new();
    let mut i: usize = 0;
    assert(chunks@.take(0) =~= Seq::<Option<Vec<u8>>>::empty());
    while i < chunks.len()
        invariant
            i <= chunks@.len(),
            out@ == joined_bytes(chunks@.take(i as int)),
        decreases chunks@.len() - i,
    {
        assert(chunks@.take(i + 1).drop_last() =~= chunks@.take(i as int));
        match &chunks[i] {
            Some(bytes) => {
                let mut copy = vstd::slice::slice_to_vec(bytes.as_slice());
                out.append(&mut copy);
            },
            None => {},
        }
        assert(out@ =~= joined_bytes(chunks@.take(i + 1)));
        i += 1;
    }
    assert(chunks@.take(i as int) =~= chunks@);
    out
}

/// What a handle stores once its children have ended.
pub open spec fn stored(
    statuses: Seq<ExitStatus>,
    stdout: Seq<u8>,
    stderr: Seq<Option<Vec<u8>>>,
) -> FinalizedView {
    FinalizedView { statuses, stdout, stderr: text::lossy(joined_bytes(stderr)) }
}

/// What a handle stores once its children have ended.
pub fn store(
    statuses: Vec<ExitStatus>,
    stdout: Vec<u8>,
    stderr: Vec<Option<Vec<u8>>>,
) -> (state: FinalizedState)
    ensures
        state@ == stored(statuses@, stdout@, stderr@),
{
    let bytes = join_bytes(stderr);
    FinalizedState { statuses, stdout, stderr: text::decode_lossy(bytes.as_slice()) }
}

// ---------- killing ----------

/// The first error among several results.
pub open spec fn first_error(results: Seq<Result<(), IoError>>) -> Option<IoErrorView>
    decreases results.len(),
{
    if results.len() == 0 {
        None
    } else {
        match results[0] {
            Ok(_) => first_error(results.drop_first()),
            Err(e) => Some(e@),
        }
    }
}

/// The result of killing every stage: the first error, after all were tried.
pub fn killed(results: Vec<Result<(), IoError>>) -> (r: Result<(), IoError>)
    ensures
        match r {
            Ok(_) => first_error(results@) is None,
            Err(e) => first_error(results@) == Some(e@),
        },
{
    let mut i: usize = 0;
    assert(results@.skip(0) =~= results@);
    while i < results.len()
        invariant
            i <= results@.len(),
            first_error(results@) == first_error(results@.skip(i as int)),
        decreases results@.len() - i,
    {
        assert(results@.skip(i as int).drop_first() =~= results@.skip(i + 1));
        assert(results@.skip(i as int)[0] == results@[i as int]);
        match &results[i] {
            Ok(_) => {},
            Err(e) => {
                return Err(e.clone());
            },
        }
        i += 1;
    }
    Ok(())
}

// ---------- waiting ----------

/// How long a wait may take.
#[derive(Debug, Clone, Copy, PartialEq, Eq, Structural)]
pub enum Patience {
    /// Look, and do not wait.
    NoWait,
    /// Wait for as long as it takes.
    Forever,
    /// Wait for at most this long.
    UpTo(Duration),
}

/// The patience that is left after some time.
pub open spec fn patience_left(p: Patience, used: nat) -> Patience {
    match p {
        Patience::UpTo(limit) => Patience::UpTo(
            Duration { nanos: time::minus(limit@, used) as u128 },
        ),
        _ => p,
    }
}

/// The next thing to do.
#[derive(Debug, Clone, Copy, PartialEq, Eq, Structural)]
pub enum PollAction {
    /// Ask for the end of a stage with this much patience.
    Poll { stage: usize, patience: Patience },
    /// Every stage has ended: drain the captured output and finalize.
    Finalize,
}

/// A wait in progress: the statuses of the stages that have ended, asked for
/// from left to right.
pub struct Polling {
    stages: usize,
    patience: Patience,
    statuses: Vec<ExitStatus>,
}

/// The contents of a [`Polling`].
#[verifier::ext_equal]
pub ghost struct PollingView {
    pub stages: nat,
    pub patience: Patience,
    pub statuses: Seq<ExitStatus>,
}

impl View for Polling {
    type V = PollingView;

    closed spec fn view(&self) -> PollingView {
        PollingView {
            stages: self.stages as nat,
            patience: self.patience,
            statuses: self.statuses@,
        }
    }
}

impl PollingView {
    pub open spec fn fresh(stages: nat, patience: Patience) -> PollingView {
        PollingView { stages, patience, statuses: Seq::empty() }
    }

    /// What to do next, `used` nanoseconds after the wait began.
    pub open spec fn next(self, used: nat) -> PollAction {
        if self.statuses.len() < self.stages {
            PollAction::Poll {
                stage: self.statuses.len() as usize,
                patience: patience_left(self.patience, used),
            }
        } else {
            PollAction::Finalize
        }
    }
}

impl Polling {
    #[verifier::type_invariant]
    spec fn in_order(self) -> bool {
        self.statuses@.len() <= self.stages && self.stages >= 1
    }

    fn start(stages: usize, patience: Patience) -> (p: Polling)
        requires
            stages >= 1,
        ensures
            p@ == PollingView::fresh(stages as nat, patience),
    {
        Polling { stages, patience, statuses: Vec::new() }
    }

    /// What to do next, this long after the wait began.
    pub fn next(&self, used: Duration) -> (a: PollAction)
        ensures
            a == self@.next(used@),
    {
        proof {
            use_type_invariant(self);
        }
        if self.statuses.len() < self.stages {
            let patience = match self.patience {
                Patience::UpTo(limit) => Patience::UpTo(limit.saturating_sub(used)),
                other => other,
            };
            PollAction::Poll { stage: self.statuses.len(), patience }
        } else {
            PollAction::Finalize
        }
    }

    /// What came of asking for a stage. `Ok(Some(_))` goes on with the wait;
    /// `Ok(None)` ends it because that stage is still running; an error ends
    /// it too.
    pub fn step(
        self,
        command: &CmdDisplay,
        report: Result<Option<ExitStatus>, IoError>,
    ) -> (r: Result<Option<Polling>, RunError>)
        requires
            self@.statuses.len() < self@.stages,
        ensures
            match report {
                Ok(Some(status)) => r matches Ok(Some(p)) && p@ == (PollingView {
                    statuses: self@.statuses.push(status),
                    ..self@
                }),
                Ok(None) => r matches Ok(None),
                Err(source) => r matches Err(e) && e@ == (RunErrorView::Spawn {
                    command: command@,
                    source: source@,
                }),
            },
    {
        let Polling { stages, patience, mut statuses } = self;
        match report {
            Ok(Some(status)) => {
                statuses.push(status);
                Ok(Some(Polling { stages, patience, statuses }))
            },
            Ok(None) => Ok(None),
            Err(source) => Err(RunError::Spawn { command: command.clone(), source }),
        }
    }

    /// The statuses, once every stage has ended.
    pub fn into_statuses(self) -> (s: Vec<ExitStatus>)
        ensures
            s@ == self@.statuses,
    {
        self.statuses
    }
}

/// How a wait begins.
pub enum WaitStart {
    /// The children were seen to end before: here is the result.
    Cached(Result<RunOutput, RunError>),
    /// The stages must be asked.
    Poll(Polling),
}

/// The contents of a [`WaitStart`].
pub ghost enum WaitStartView {
    Cached(Result<RunOutputView, RunErrorView>),
    Poll(PollingView),
}

impl View for WaitStart {
    type V = WaitStartView;

    open spec fn view(&self) -> WaitStartView {
        match self {
            WaitStart::Cached(r) => WaitStartView::Cached(output::result_view(*r)),
            WaitStart::Poll(p) => WaitStartView::Poll(p@),
        }
    }
}

/// The start of a wait for `stages` stages, of which `finalized` is known.
pub open spec fn wait_start(
    command: CmdDisplayView,
    stages: nat,
    finalized: Option<FinalizedView>,
    patience: Patience,
) -> WaitStartView {
    match finalized {
        Some(state) => WaitStartView::Cached(reconstructed(command, state)),
        None => WaitStartView::Poll(PollingView::fresh(stages, patience)),
    }
}

/// The view of what is known of the end.
pub open spec fn finalized_view(finalized: Option<FinalizedState>) -> Option<FinalizedView> {
    match finalized {
        Some(state) => Some(state@),
        None => None,
    }
}

/// Begin a wait.
pub(crate) fn start_wait(
    command: &CmdDisplay,
    stages: usize,
    finalized: &Option<FinalizedState>,
    patience: Patience,
) -> (w: WaitStart)
    requires
        stages >= 1,
        finalized matches Some(state) ==> state@.statuses.len() >= 1,
    ensures
        w@ == wait_start(command@, stages as nat, finalized_view(*finalized), patience),
{
    match finalized {
        Some(state) => WaitStart::Cached(reconstruct(command, state)),
        None => WaitStart::Poll(Polling::start(stages, patience)),
    }
}

/// `[1, 2, 3]`.
pub open spec fn listed(pids: Seq<u32>) -> Seq<char> {
    "["@ + text::joined(pids.map_values(|p: u32| text::decimal(p as nat)), ", "@) + "]"@
}

/// The debugging rendering of a handle: the command, and the pids.
pub open spec fn handle_debug(
    name: Seq<char>,
    command: CmdDisplayView,
    pids: Seq<u32>,
) -> Seq<char> {
    name + " { command: "@ + command.debug() + ", pids: "@ + listed(pids) + " }"@
}

/// The debugging rendering of a handle.
pub(crate) fn render_handle(name: &str, command: &CmdDisplay, pids: &Vec<u32>) -> (out: String)
    ensures
        out@ == handle_debug(name@, command@, pids@),
{
    let mut parts: Vec<String> = Vec::new();
    let mut i: usize = 0;
    while i < pids.len()
        invariant
            i <= pids@.len(),
            parts@.len() == i,
            forall|k: int|
                0 <= k < i ==> (#[trigger] parts@[k])@ == text::decimal(pids@[k] as nat),
        decreases pids@.len() - i,
    {
        parts.push(text::decimal_string(pids[i] as u64));
        i += 1;
    }
    assert(parts@.map_values(|p: String| p@) =~= pids@.map_values(|p: u32| text::decimal(p as nat)));
    let mut out = name.to_owned();
    out.append(" { command: ");
    out.append(command.debug().as_str());
    out.append(", pids: ");
    out.append("[");
    out.append(text::join(&parts, ", ").as_str());
    out.append("]");
    out.append(" }");
    assert(out@ =~= handle_debug(name@, command@, pids@));
    out
}

// ---------- laws ----------

/// The collected bytes are those of every chunk, in order; one that was lost
/// gives none.
pub proof fn law_collected_bytes_hold_every_chunk(
    a: Seq<Option<Vec<u8>>>,
    b: Seq<Option<Vec<u8>>>,
    chunk: Vec<u8>,
)
    ensures
        joined_bytes(a + b) == joined_bytes(a) + joined_bytes(b),
        joined_bytes(seq![Some(chunk)]) == chunk@,
        joined_bytes(seq![None::<Vec<u8>>]).len() == 0,
        joined_bytes(Seq::empty()).len() == 0,
    decreases b.len(),
{
    let (one, none) = (seq![Some(chunk)], seq![None::<Vec<u8>>]);
    assert(one.drop_last() =~= Seq::empty());
    assert(none.drop_last() =~= Seq::empty());
    assert(joined_bytes(one.drop_last()).len() == 0);
    assert(joined_bytes(none.drop_last()).len() == 0);
    assert(joined_bytes(one) =~= chunk@);
    if b.len() == 0 {
        assert(a + b =~= a);
        assert(joined_bytes(a) + joined_bytes(b) =~= joined_bytes(a));
    } else {
        law_collected_bytes_hold_every_chunk(a, b.drop_last(), chunk);
        assert((a + b).drop_last() =~= a + b.drop_last());
        assert((a + b).last() == b.last());
        assert(joined_bytes(a + b) =~= joined_bytes(a) + joined_bytes(b));
    }
}

/// A handle stores the statuses and stdout as they came, and as stderr the
/// bytes of every stage, decoded together. UTF-8 comes through unchanged.
pub proof fn law_handle_stores_what_came(
    statuses: Seq<ExitStatus>,
    stdout: Seq<u8>,
    stderr: Seq<Option<Vec<u8>>>,
    text: Seq<char>,
)
    ensures
        stored(statuses, stdout, stderr).statuses == statuses,
        stored(statuses, stdout, stderr).stdout == stdout,
        stored(statuses, stdout, stderr).stderr == text::lossy(joined_bytes(stderr)),
        joined_bytes(stderr) == vstd::utf8::encode_utf8(text) ==> stored(
            statuses,
            stdout,
            stderr,
        ).stderr == text,
{
    text::law_text_survives_lossy_decoding(text);
}

/// The result of a finished handle is that of the last stage whose status is
/// not zero; where all are zero, it is a success with both streams in full.
pub proof fn law_last_failed_stage_is_the_result(
    command: CmdDisplayView,
    state: FinalizedView,
    i: int,
)
    requires
        0 <= i < state.statuses.len(),
        state.statuses[i].raw != 0 || i == state.statuses.len() - 1 && forall|j: int|
            0 <= j < state.statuses.len() ==> (#[trigger] state.statuses[j]).raw == 0,
        forall|j: int| i < j < state.statuses.len() ==> (#[trigger] state.statuses[j]).raw == 0,
    ensures
        state.statuses[i].raw == 0 ==> reconstructed(command, state) == Ok::<_, RunErrorView>(
            RunOutputView { stdout: state.stdout, stderr: state.stderr },
        ),
        state.statuses[i].raw != 0 ==> {
            &&& reconstructed(command, state) matches Err(e)
            &&& e.command() == command
            &&& e.attempts() == 1
            &&& e matches RunErrorView::NonZeroExit { status, stdout, stderr, .. }
            &&& status == state.statuses[i]
            &&& stdout.len() == if state.stdout.len() <= 128 * 1024 {
                state.stdout.len()
            } else {
                128 * 1024
            }
            &&& stdout == state.stdout.skip(state.stdout.len() - stdout.len())
            &&& stderr.len() <= state.stderr.len()
            &&& stderr == state.stderr.skip(state.stderr.len() - stderr.len())
            &&& vstd::utf8::encode_utf8(stderr).len() <= 128 * 1024
            &&& forall|k: int|
                0 <= k < state.stderr.len() - stderr.len() ==> vstd::utf8::encode_utf8(
                    #[trigger] state.stderr.skip(k),
                ).len() > 128 * 1024
        },
{
    outcome::law_last_nonzero_status_decides(state.statuses, i);
    if state.statuses[i].raw != 0 {
        outcome::law_errors_keep_the_captured_tail(
            command,
            OutcomeView::Exited(state.statuses[i]),
            state.stdout,
            state.stderr,
            reconstructed(command, state)->Err_0,
        );
    }
}

/// The first error counts: one with nothing but successes before it is what is
/// reported, whatever follows, and nothing is reported of successes alone.
pub proof fn law_first_error_counts(
    before: Seq<Result<(), IoError>>,
    e: IoError,
    after: Seq<Result<(), IoError>>,
)
    requires
        forall|i: int| 0 <= i < before.len() ==> (#[trigger] before[i]) is Ok,
    ensures
        first_error(before) is None,
        first_error(before.push(Err(e)) + after) == Some(e@),
    decreases before.len(),
{
    let all = before.push(Err(e)) + after;
    if before.len() > 0 {
        assert(before[0] is Ok);
        let rest = before.drop_first();
        assert forall|i: int| 0 <= i < rest.len() implies (#[trigger] rest[i]) is Ok by {
            assert(rest[i] == before[i + 1]);
        }
        law_first_error_counts(rest, e, after);
        assert(all.drop_first() =~= rest.push(Err(e)) + after);
        assert(all[0] == before[0]);
    }
}

/// A limit is used up by the time that passes, down to nothing; looking without
/// waiting and waiting for ever stay what they are.
pub proof fn law_patience_runs_out(limit: Duration, used: nat)
    ensures
        patience_left(Patience::NoWait, used) is NoWait,
        patience_left(Patience::Forever, used) is Forever,
        patience_left(Patience::UpTo(limit), used) matches Patience::UpTo(left) && {
            &&& used <= limit.nanos ==> used + left.nanos == limit.nanos
            &&& used >= limit.nanos ==> left.nanos == 0
        },
{
}

/// A wait that nothing is known for asks all stages with the patience that it
/// was given; one whose result is known does not ask.
pub proof fn law_wait_asks_unless_the_end_is_known(
    command: CmdDisplayView,
    stages: nat,
    state: FinalizedView,
    patience: Patience,
)
    ensures
        wait_start(command, stages, None, patience) matches WaitStartView::Poll(p) && {
            &&& p.stages == stages
            &&& p.patience == patience
            &&& p.statuses.len() == 0
        },
        wait_start(command, stages, Some(state), patience) == WaitStartView::Cached(
            reconstructed(command, state),
        ),
{
}

/// What is known of the end is what was stored.
pub proof fn law_stored_contents(state: FinalizedState)
    ensures
        state@.statuses == state.statuses@,
        state@.stdout == state.stdout@,
        state@.stderr == state.stderr@,
        finalized_view(Some(state)) == Some(state@),
        finalized_view(None) is None,
{
}

/// The debugging rendering of a handle shows its name, the command as the
/// command renders itself, and every pid in decimal.
pub proof fn law_handle_shows_command_and_pids(
    name: Seq<char>,
    command: CmdDisplayView,
    pids: Seq<u32>,
    pid: u32,
)
    ensures
        listed(Seq::empty()) == "["@ + "]"@,
        listed(seq![pid]) == "["@ + text::decimal(pid as nat) + "]"@,
        pids.len() > 0 ==> listed(pids.push(pid)) == listed(pids).drop_last() + ", "@
            + text::decimal(pid as nat) + "]"@,
        handle_debug(name, command, pids) == name + " { command: "@ + command.debug() + ", pids: "@
            + listed(pids) + " }"@,
{
    let f = |p: u32| text::decimal(p as nat);
    assert(Seq::<u32>::empty().map_values(f) =~= Seq::empty());
    text::law_joining_composes(Seq::empty(), Seq::empty(), ", "@);
    assert(listed(Seq::empty()) =~= "["@ + "]"@);
    assert(seq![pid].map_values(f) =~= seq![text::decimal(pid as nat)]);
    reveal_strlit("]");
    if pids.len() > 0 {
        let all = pids.push(pid).map_values(f);
        assert(all =~= pids.map_values(f) + seq![text::decimal(pid as nat)]);
        text::law_joining_composes(pids.map_values(f), seq![text::decimal(pid as nat)], ", "@);
        text::law_joining_composes(seq![text::decimal(pid as nat)], Seq::empty(), ", "@);
        assert(listed(pids).drop_last() =~= "["@ + text::joined(pids.map_values(f), ", "@));
        assert(listed(pids.push(pid)) =~= listed(pids).drop_last() + ", "@ + text::decimal(
            pid as nat,
        ) + "]"@);
    }
}

/// What is stored and what is made of it, as it is done: statuses and stdout as
/// they came, the stderr bytes of every stage, decoded together.
pub proof fn law_storing_keeps_what_came(
    chunks: Vec<Option<Vec<u8>>>,
    bytes: Vec<u8>,
    statuses: Vec<ExitStatus>,
    stdout: Vec<u8>,
    state: FinalizedState,
)
    ensures
        call_ensures(join_bytes, (chunks,), bytes) ==> bytes@ == joined_bytes(chunks@),
        call_ensures(store, (statuses, stdout, chunks), state) ==> {
            &&& state@.statuses == statuses@
            &&& state@.stdout == stdout@
            &&& state@.stderr == text::lossy(joined_bytes(chunks@))
        },
{
}

/// The result that a finished handle gives, as it is made: a success exactly if
/// every status is zero, and else the exit of the last stage whose status is
/// not.
pub proof fn law_finished_handle_gives_the_last_failure(
    command: &CmdDisplay,
    state: &FinalizedState,
    r: Result<RunOutput, RunError>,
    i: int,
)
    requires
        call_ensures(reconstruct, (command, state), r),
        0 <= i < state@.statuses.len(),
        forall|j: int| i < j < state@.statuses.len() ==> (#[trigger] state@.statuses[j]).raw == 0,
    ensures
        state@.statuses[i].raw != 0 ==> {
            &&& r matches Err(e)
            &&& e@.command() == command@
            &&& e@ matches RunErrorView::NonZeroExit { status, .. }
            &&& status == state@.statuses[i]
        },
        state@.statuses[i].raw == 0 && i == 0 ==> {
            &&& r matches Ok(out)
            &&& out@.stdout == state@.stdout
            &&& out@.stderr == state@.stderr
        },
{
    if state@.statuses[i].raw != 0 {
        law_last_failed_stage_is_the_result(command@, state@, i);
    } else if i == 0 {
        assert forall|j: int| 0 <= j < state@.statuses.len() implies (
        #[trigger] state@.statuses[j]).raw == 0 by {}
        law_last_failed_stage_is_the_result(command@, state@, state@.statuses.len() - 1);
    }
}

/// Killing fails with the first error among the results, and only if there is
/// one.
pub proof fn law_killing_reports_the_first_error(
    results: Vec<Result<(), IoError>>,
    r: Result<(), IoError>,
    i: int,
)
    requires
        call_ensures(killed, (results,), r),
    ensures
        (0 <= i < results@.len() && results@[i] is Err && forall|j: int|
            0 <= j < i ==> (#[trigger] results@[j]) is Ok) ==> (r matches Err(e) && e@
            == results@[i]->Err_0@),
        (forall|j: int| 0 <= j < results@.len() ==> (#[trigger] results@[j]) is Ok) ==> r is Ok,
{
    if 0 <= i < results@.len() && results@[i] is Err && forall|j: int|
        0 <= j < i ==> (#[trigger] results@[j]) is Ok {
        let before = results@.take(i);
        let e = results@[i]->Err_0;
        assert forall|j: int| 0 <= j < before.len() implies (#[trigger] before[j]) is Ok by {
            assert(results@[j] is Ok);
        }
        law_first_error_counts(before, e, results@.skip(i + 1));
        assert(before.push(Err(e)) + results@.skip(i + 1) =~= results@);
    }
    if forall|j: int| 0 <= j < results@.len() ==> (#[trigger] results@[j]) is Ok {
        if r is Err {
            law_first_error_counts(results@, r->Err_0, results@);
        }
    }
}

/// A wait that asks, as it is driven: the leftmost stage whose end is not known
/// comes next, with the patience that is left; an end is kept, a stage that runs
/// on ends the wait without a result, and an error becomes that of the wait.
pub proof fn law_polls_ask_from_left_to_right(
    p: Polling,
    used: Duration,
    action: PollAction,
    command: &CmdDisplay,
    report: Result<Option<ExitStatus>, IoError>,
    r: Result<Option<Polling>, RunError>,
    statuses: Vec<ExitStatus>,
)
    requires
        p@.statuses.len() <= p@.stages <= usize::MAX,
    ensures
        call_ensures(Polling::next, (&p, used), action) ==> {
            &&& action is Finalize <==> p@.statuses.len() == p@.stages
            &&& action matches PollAction::Poll { stage, patience } ==> {
                &&& stage == p@.statuses.len()
                &&& p@.patience !is UpTo ==> patience == p@.patience
                &&& p@.patience matches Patience::UpTo(limit) ==> {
                    &&& patience matches Patience::UpTo(left)
                    &&& used.nanos <= limit.nanos ==> used.nanos + left.nanos == limit.nanos
                    &&& used.nanos >= limit.nanos ==> left.nanos == 0
                }
            }
        },
        call_ensures(Polling::step, (p, command, report), r) ==> match report {
            Ok(Some(status)) => {
                &&& r matches Ok(Some(q))
                &&& q@.statuses == p@.statuses.push(status)
                &&& q@.stages == p@.stages
                &&& q@.patience == p@.patience
            },
            Ok(None) => r matches Ok(None),
            Err(cause) => {
                &&& r matches Err(e)
                &&& e@ matches RunErrorView::Spawn { command: c, source }
                &&& c == command@
                &&& source == cause@
            },
        },
        call_ensures(Polling::into_statuses, (p,), statuses) ==> statuses@ == p@.statuses,
{
}

}
