//! How stages end, and how the ends of all stages become one result.
//!
//! A pipeline fails if any stage does, and the rightmost failure decides.

use vstd::prelude::*;
use vstd::utf8::*;

use crate::cmd_display::{CmdDisplay, CmdDisplayView};
use crate::error;
use crate::error::{RunError, RunErrorView};
use crate::os::{ExitStatus, IoError, IoErrorView};
use crate::output;
use crate::output::{RunOutput, RunOutputView};
use crate::time::Duration;

verus! {

// ---------- pipefail ----------

/// The place of the rightmost `false`, or -1 where there is none.
pub open spec fn rightmost_failure(ok: Seq<bool>) -> int
    decreases ok.len(),
{
    if ok.len() == 0 {
        -1
    } else if !ok.last() {
        ok.len() - 1
    } else {
        rightmost_failure(ok.drop_last())
    }
}

/// The stage that decides: the rightmost one that failed, or the last one
/// where all succeeded.
pub open spec fn deciding_stage(ok: Seq<bool>) -> int {
    if rightmost_failure(ok) >= 0 {
        rightmost_failure(ok)
    } else {
        ok.len() - 1
    }
}

/// The deciding stage of a pipeline is its rightmost failure: it failed and
/// every later stage succeeded, unless all stages succeeded.
pub proof fn law_rightmost_failure_decides(ok: Seq<bool>)
    requires
        ok.len() >= 1,
    ensures
        0 <= deciding_stage(ok) < ok.len(),
        forall|j: int| deciding_stage(ok) < j < ok.len() ==> #[trigger] ok[j],
        ok[deciding_stage(ok)] <==> forall|j: int| 0 <= j < ok.len() ==> #[trigger] ok[j],
    decreases ok.len(),
{
    if ok.last() {
        if ok.len() == 1 {
            assert(rightmost_failure(ok.drop_last()) == -1);
        } else {
            law_rightmost_failure_decides(ok.drop_last());
            assert forall|j: int| deciding_stage(ok) < j < ok.len() implies #[trigger] ok[j] by {
                if j < ok.len() - 1 {
                    assert(ok.drop_last()[j] == ok[j]);
                }
            }
            let d = deciding_stage(ok);
            if rightmost_failure(ok) >= 0 {
                lemma_failure_is_false(ok.drop_last());
                assert(!ok[d]);
            } else {
                lemma_no_failure(ok);
            }
        }
    }
}

proof fn lemma_failure_is_false(ok: Seq<bool>)
    requires
        rightmost_failure(ok) >= 0,
    ensures
        rightmost_failure(ok) < ok.len(),
        !ok[rightmost_failure(ok)],
    decreases ok.len(),
{
    if ok.last() {
        lemma_failure_is_false(ok.drop_last());
    }
}

proof fn lemma_no_failure(ok: Seq<bool>)
    requires
        rightmost_failure(ok) < 0,
    ensures
        forall|j: int| 0 <= j < ok.len() ==> #[trigger] ok[j],
    decreases ok.len(),
{
    if ok.len() > 0 {
        lemma_no_failure(ok.drop_last());
        assert forall|j: int| 0 <= j < ok.len() implies #[trigger] ok[j] by {
            if j < ok.len() - 1 {
                assert(ok.drop_last()[j] == ok[j]);
            }
        }
    }
}

/// Appending the end of one more stage: a failure decides, and so does a
/// success where nothing failed before.
proof fn lemma_deciding_push(ok: Seq<bool>, next: bool)
    requires
        ok.len() >= 1,
    ensures
        deciding_stage(ok.push(next)) == if !next || ok[deciding_stage(ok)] {
            ok.len() as int
        } else {
            deciding_stage(ok)
        },
{
    assert(ok.push(next).drop_last() =~= ok);
    law_rightmost_failure_decides(ok);
    if rightmost_failure(ok) >= 0 {
        lemma_failure_is_false(ok);
    } else {
        lemma_no_failure(ok);
    }
}

/// Which statuses are successes.
pub open spec fn successes(statuses: Seq<ExitStatus>) -> Seq<bool> {
    statuses.map_values(|s: ExitStatus| s.succeeded())
}

/// The status of the deciding stage.
pub fn pipefail_status(statuses: &Vec<ExitStatus>) -> (chosen: ExitStatus)
    requires
        statuses@.len() >= 1,
    ensures
        chosen == statuses@[deciding_stage(successes(statuses@))],
{
    let ghost ok = successes(statuses@);
    let mut chosen = statuses[0];
    let mut i: usize = 1;
    proof {
        assert(ok.take(1) =~= seq![ok[0]]);
        assert(ok.take(1).drop_last() =~= Seq::<bool>::empty());
        assert(rightmost_failure(ok.take(1).drop_last()) == -1);
    }
    while i < statuses.len()
        invariant
            1 <= i <= statuses@.len(),
            ok == successes(statuses@),
            0 <= deciding_stage(ok.take(i as int)) < i,
            chosen == statuses@[deciding_stage(ok.take(i as int))],
        decreases statuses@.len() - i,
    {
        let s = statuses[i];
        proof {
            lemma_deciding_push(ok.take(i as int), ok[i as int]);
            assert(ok.take(i + 1) =~= ok.take(i as int).push(ok[i as int]));
            assert(ok[i as int] == s.succeeded());
            assert(ok[deciding_stage(ok.take(i as int))] == chosen.succeeded());
        }
        if !s.success() || chosen.success() {
            chosen = s;
        }
        i += 1;
    }
    assert(ok.take(i as int) =~= ok);
    chosen
}

// ---------- outcomes ----------

/// How one stage ended.
pub enum Outcome {
    Exited(ExitStatus),
    /// Killed after this much of the attempt's time.
    TimedOut(Duration),
    WaitFailed(IoError),
    /// Stopped because the caller cancelled the run.
    Cancelled,
}

/// The contents of an [`Outcome`].
pub ghost enum OutcomeView {
    Exited(ExitStatus),
    TimedOut(Duration),
    WaitFailed(IoErrorView),
    Cancelled,
}

impl View for Outcome {
    type V = OutcomeView;

    open spec fn view(&self) -> OutcomeView {
        match self {
            Outcome::Exited(s) => OutcomeView::Exited(*s),
            Outcome::TimedOut(d) => OutcomeView::TimedOut(*d),
            Outcome::WaitFailed(e) => OutcomeView::WaitFailed(e@),
            Outcome::Cancelled => OutcomeView::Cancelled,
        }
    }
}

impl OutcomeView {
    pub open spec fn succeeded(self) -> bool {
        self matches OutcomeView::Exited(s) && s.succeeded()
    }
}

/// The views of several outcomes.
pub open spec fn outcome_views(outcomes: Seq<Outcome>) -> Seq<OutcomeView> {
    outcomes.map_values(|o: Outcome| o@)
}

/// The outcome of the deciding stage.
pub open spec fn combined(outcomes: Seq<OutcomeView>) -> OutcomeView {
    outcomes[deciding_stage(outcomes.map_values(|o: OutcomeView| o.succeeded()))]
}

impl Outcome {
    pub fn success(&self) -> (b: bool)
        ensures
            b == self@.succeeded(),
    {
        match self {
            Outcome::Exited(s) => s.success(),
            _ => false,
        }
    }
}

/// Reduce the outcomes of all stages to the deciding one.
pub fn combine_outcomes(outcomes: Vec<Outcome>) -> (chosen: Outcome)
    requires
        outcomes@.len() >= 1,
    ensures
        chosen@ == combined(outcome_views(outcomes@)),
{
    let ghost views = outcome_views(outcomes@);
    let ghost ok = views.map_values(|o: OutcomeView| o.succeeded());
    let mut outcomes = outcomes;
    let mut at: usize = 0;
    let mut i: usize = 1;
    proof {
        assert(ok.take(1) =~= seq![ok[0]]);
        assert(ok.take(1).drop_last() =~= Seq::<bool>::empty());
        assert(rightmost_failure(ok.take(1).drop_last()) == -1);
    }
    while i < outcomes.len()
        invariant
            1 <= i <= outcomes@.len(),
            views == outcome_views(outcomes@),
            ok == views.map_values(|o: OutcomeView| o.succeeded()),
            at < i,
            at == deciding_stage(ok.take(i as int)),
        decreases outcomes@.len() - i,
    {
        proof {
            lemma_deciding_push(ok.take(i as int), ok[i as int]);
            assert(ok.take(i + 1) =~= ok.take(i as int).push(ok[i as int]));
            assert(ok[i as int] == outcomes@[i as int]@.succeeded());
            assert(ok[at as int] == outcomes@[at as int]@.succeeded());
        }
        if !outcomes[i].success() || outcomes[at].success() {
            at = i;
        }
        i += 1;
    }
    assert(ok.take(i as int) =~= ok);
    outcomes.swap_remove(at)
}

/// The result of a run whose deciding outcome is given: errors keep only the
/// tail of each stream.
pub open spec fn finalized(
    command: CmdDisplayView,
    outcome: OutcomeView,
    stdout: Seq<u8>,
    stderr: Seq<char>,
) -> Result<RunOutputView, RunErrorView> {
    match outcome {
        OutcomeView::Exited(status) => if status.succeeded() {
            Ok(RunOutputView { stdout, stderr })
        } else {
            Err(
                RunErrorView::NonZeroExit {
                    command,
                    status,
                    stdout: error::kept_bytes(stdout),
                    stderr: error::kept_text(stderr),
                    attempts: 1,
                },
            )
        },
        OutcomeView::TimedOut(elapsed) => Err(
            RunErrorView::Timeout {
                command,
                elapsed,
                stdout: error::kept_bytes(stdout),
                stderr: error::kept_text(stderr),
                attempts: 1,
            },
        ),
        OutcomeView::WaitFailed(source) => Err(RunErrorView::Spawn { command, source }),
        OutcomeView::Cancelled => Err(
            RunErrorView::Cancelled {
                command,
                stdout: error::kept_bytes(stdout),
                stderr: error::kept_text(stderr),
                attempts: 1,
            },
        ),
    }
}

/// Turn the deciding outcome and the captured streams into a result.
pub fn finalize_outcome(
    command: &CmdDisplay,
    outcome: Outcome,
    stdout: Vec<u8>,
    stderr: String,
) -> (r: Result<RunOutput, RunError>)
    ensures
        output::result_view(r) == finalized(command@, outcome@, stdout@, stderr@),
{
    match outcome {
        Outcome::Exited(status) => {
            if status.success() {
                Ok(RunOutput { stdout, stderr })
            } else {
                Err(
                    RunError::NonZeroExit {
                        command: command.clone(),
                        status,
                        stdout: error::truncate_suffix(stdout),
                        stderr: error::truncate_suffix_string(stderr),
                        attempts: 1,
                    },
                )
            }
        },
        Outcome::TimedOut(elapsed) => Err(
            RunError::Timeout {
                command: command.clone(),
                elapsed,
                stdout: error::truncate_suffix(stdout),
                stderr: error::truncate_suffix_string(stderr),
                attempts: 1,
            },
        ),
        Outcome::WaitFailed(source) => Err(RunError::Spawn { command: command.clone(), source }),
        Outcome::Cancelled => Err(
            RunError::Cancelled {
                command: command.clone(),
                stdout: error::truncate_suffix(stdout),
                stderr: error::truncate_suffix_string(stderr),
                attempts: 1,
            },
        ),
    }
}

/// A run succeeds exactly if every stage does, and then hands back both streams
/// in full.
pub proof fn law_run_succeeds_iff_every_stage_does(
    command: CmdDisplayView,
    outcomes: Seq<OutcomeView>,
    stdout: Seq<u8>,
    stderr: Seq<char>,
)
    requires
        outcomes.len() >= 1,
    ensures
        finalized(command, combined(outcomes), stdout, stderr) is Ok <==> forall|i: int|
            0 <= i < outcomes.len() ==> (#[trigger] outcomes[i]).succeeded(),
        finalized(command, combined(outcomes), stdout, stderr) matches Ok(out) ==> out == (
        RunOutputView { stdout, stderr }),
{
    let ok = outcomes.map_values(|o: OutcomeView| o.succeeded());
    law_rightmost_failure_decides(ok);
    assert forall|i: int| 0 <= i < ok.len() implies #[trigger] ok[i] == outcomes[i].succeeded() by {}
    if forall|i: int| 0 <= i < ok.len() ==> #[trigger] ok[i] {
        assert forall|i: int| 0 <= i < outcomes.len() implies (
        #[trigger] outcomes[i]).succeeded() by {
            assert(ok[i]);
        }
    } else {
        let i = choose|i: int| 0 <= i < ok.len() && !(#[trigger] ok[i]);
        assert(!outcomes[i].succeeded());
    }
}

/// Whatever a run captured, an error keeps at most [`error::STREAM_SUFFIX_SIZE`]
/// bytes of each stream, and it names the command.
pub proof fn law_errors_are_bounded(
    command: CmdDisplayView,
    outcome: OutcomeView,
    stdout: Seq<u8>,
    stderr: Seq<char>,
)
    ensures
        finalized(command, outcome, stdout, stderr) matches Err(e) ==> {
            &&& e.command() == command
            &&& e.stdout() matches Some(bytes) ==> bytes.len() <= error::STREAM_SUFFIX_SIZE
            &&& e.stderr() matches Some(text) ==> encode_utf8(text).len()
                <= error::STREAM_SUFFIX_SIZE
        },
{
    error::law_kept_bytes_are_the_bounded_tail(stdout);
    error::law_kept_text_is_the_bounded_tail(stderr);
}

/// In terms of the exits themselves: the stage that decides is the last one
/// that did not exit with status zero, and the last of all where every one did.
pub proof fn law_last_unsuccessful_stage_decides(outcomes: Seq<OutcomeView>, i: int)
    requires
        0 <= i < outcomes.len(),
        i == outcomes.len() - 1 || !(outcomes[i] matches OutcomeView::Exited(s) && s.raw == 0),
        forall|j: int|
            i < j < outcomes.len() ==> (#[trigger] outcomes[j] matches OutcomeView::Exited(s)
                && s.raw == 0),
        (outcomes[i] matches OutcomeView::Exited(s) && s.raw == 0) ==> forall|j: int|
            0 <= j < outcomes.len() ==> (#[trigger] outcomes[j] matches OutcomeView::Exited(s)
                && s.raw == 0),
    ensures
        combined(outcomes) == outcomes[i],
{
    let ok = outcomes.map_values(|o: OutcomeView| o.succeeded());
    law_rightmost_failure_decides(ok);
    let d = deciding_stage(ok);
    assert forall|j: int| 0 <= j < ok.len() implies #[trigger] ok[j] == (
    outcomes[j] matches OutcomeView::Exited(s) && s.raw == 0) by {}
    if ok[i] {
        assert forall|j: int| 0 <= j < ok.len() implies #[trigger] ok[j] by {
            assert(outcomes[j] matches OutcomeView::Exited(s) && s.raw == 0);
        }
        assert(ok[d]);
        if rightmost_failure(ok) >= 0 {
            lemma_failure_is_false(ok);
        }
    } else {
        assert(!ok[d]);
        if d < i {
            assert(ok[i]);
        } else if d > i {
            assert(outcomes[d] matches OutcomeView::Exited(s) && s.raw == 0);
        }
    }
}

/// The same of exit statuses: the last one that is not zero decides.
pub proof fn law_last_nonzero_status_decides(statuses: Seq<ExitStatus>, i: int)
    requires
        0 <= i < statuses.len(),
        statuses[i].raw != 0 || i == statuses.len() - 1 && forall|j: int|
            0 <= j < statuses.len() ==> (#[trigger] statuses[j]).raw == 0,
        forall|j: int| i < j < statuses.len() ==> (#[trigger] statuses[j]).raw == 0,
    ensures
        deciding_stage(successes(statuses)) == i,
{
    let ok = successes(statuses);
    law_rightmost_failure_decides(ok);
    let d = deciding_stage(ok);
    assert forall|j: int| 0 <= j < ok.len() implies #[trigger] ok[j] == (statuses[j].raw == 0) by {}
    if statuses[i].raw == 0 {
        if rightmost_failure(ok) >= 0 {
            lemma_failure_is_false(ok);
            assert(statuses[d].raw == 0);
        }
    } else {
        assert(!ok[i]);
        assert(!ok[d]);
        if d < i {
            assert(ok[i]);
        } else if d > i {
            assert(statuses[d].raw == 0);
        }
    }
}

/// What the deciding stage did is what is reported: success only of a stage
/// that exited with status zero, another exit with its own status, a timeout
/// with the time that it took, a failed wait with its cause. The error names
/// the command and, until it is stamped, the first attempt.
pub proof fn law_result_tells_how_the_stage_ended(
    command: CmdDisplayView,
    outcome: OutcomeView,
    stdout: Seq<u8>,
    stderr: Seq<char>,
)
    ensures
        ({
            let result = finalized(command, outcome, stdout, stderr);
            &&& result matches Err(e) ==> e.command() == command && e.attempts() == 1
            &&& match outcome {
                OutcomeView::Exited(s) => if s.raw == 0 {
                    result matches Ok(out) && out.stdout == stdout && out.stderr == stderr
                } else {
                    result matches Err(RunErrorView::NonZeroExit { status, .. }) && status.raw
                        == s.raw
                },
                OutcomeView::TimedOut(d) => {
                    result matches Err(RunErrorView::Timeout { elapsed, .. }) && elapsed.nanos
                        == d.nanos
                },
                OutcomeView::WaitFailed(cause) => {
                    result matches Err(RunErrorView::Spawn { source, .. }) && source == cause
                },
                OutcomeView::Cancelled => {
                    result matches Err(RunErrorView::Cancelled { .. })
                },
            }
        }),
{
}

/// Every error of an attempt but a spawn failure keeps what was captured: all
/// of stdout, or its last 128 KiB where it is longer, and of stderr the longest
/// tail of whole characters that takes no more than that.
pub proof fn law_errors_keep_the_captured_tail(
    command: CmdDisplayView,
    outcome: OutcomeView,
    stdout: Seq<u8>,
    stderr: Seq<char>,
    e: RunErrorView,
)
    requires
        finalized(command, outcome, stdout, stderr) == Err::<RunOutputView, _>(e),
        e !is Spawn,
    ensures
        e.stdout() matches Some(kept) && {
            &&& kept.len() == if stdout.len() <= 128 * 1024 {
                stdout.len()
            } else {
                128 * 1024
            }
            &&& kept == stdout.skip(stdout.len() - kept.len())
        },
        e.stderr() matches Some(kept) && {
            &&& kept.len() <= stderr.len()
            &&& kept == stderr.skip(stderr.len() - kept.len())
            &&& encode_utf8(kept).len() <= 128 * 1024
            &&& forall|k: int|
                0 <= k < stderr.len() - kept.len() ==> encode_utf8(#[trigger] stderr.skip(k)).len()
                    > 128 * 1024
        },
{
    error::law_kept_bytes_are_the_bounded_tail(stdout);
    error::law_kept_text_is_the_bounded_tail(stderr);
}

/// An outcome's contents are what it holds.
pub proof fn law_outcome_contents(status: ExitStatus, elapsed: Duration, cause: IoError)
    ensures
        Outcome::Exited(status)@ == OutcomeView::Exited(status),
        Outcome::TimedOut(elapsed)@ == OutcomeView::TimedOut(elapsed),
        Outcome::WaitFailed(cause)@ == OutcomeView::WaitFailed(cause@),
        Outcome::Cancelled@ == OutcomeView::Cancelled,
{
}

/// The status of a pipeline, as it is worked out: the last one that is not zero,
/// or zero where all are.
pub proof fn law_worked_out_status_is_the_last_failure(
    statuses: &Vec<ExitStatus>,
    chosen: ExitStatus,
    i: int,
)
    requires
        call_ensures(pipefail_status, (statuses,), chosen),
        0 <= i < statuses@.len(),
    ensures
        (statuses@[i].raw != 0 && forall|j: int|
            i < j < statuses@.len() ==> (#[trigger] statuses@[j]).raw == 0) ==> chosen
            == statuses@[i],
        (forall|j: int| 0 <= j < statuses@.len() ==> (#[trigger] statuses@[j]).raw == 0)
            ==> chosen.raw == 0,
{
    if statuses@[i].raw != 0 && forall|j: int|
        i < j < statuses@.len() ==> (#[trigger] statuses@[j]).raw == 0 {
        law_last_nonzero_status_decides(statuses@, i);
    }
    if forall|j: int| 0 <= j < statuses@.len() ==> (#[trigger] statuses@[j]).raw == 0 {
        law_last_nonzero_status_decides(statuses@, statuses@.len() - 1);
    }
}

/// The outcome of a pipeline, as it is worked out: that of the last stage that
/// did not exit with status zero, or a success where every stage did.
pub proof fn law_worked_out_outcome_is_the_last_failure(
    outcomes: Vec<Outcome>,
    chosen: Outcome,
    i: int,
)
    requires
        call_ensures(combine_outcomes, (outcomes,), chosen),
        0 <= i < outcomes@.len(),
    ensures
        (!(outcomes@[i]@ matches OutcomeView::Exited(s) && s.raw == 0) && forall|j: int|
            i < j < outcomes@.len() ==> ((#[trigger] outcomes@[j])@ matches OutcomeView::Exited(s)
                && s.raw == 0)) ==> chosen@ == outcomes@[i]@,
        (forall|j: int|
            0 <= j < outcomes@.len() ==> ((#[trigger] outcomes@[j])@ matches OutcomeView::Exited(s)
                && s.raw == 0)) ==> (chosen@ matches OutcomeView::Exited(s) && s.raw == 0),
{
    let views = outcome_views(outcomes@);
    assert forall|j: int| 0 <= j < views.len() implies #[trigger] views[j] == outcomes@[j]@ by {}
    if !(outcomes@[i]@ matches OutcomeView::Exited(s) && s.raw == 0) && forall|j: int|
        i < j < outcomes@.len() ==> ((#[trigger] outcomes@[j])@ matches OutcomeView::Exited(s)
            && s.raw == 0) {
        assert forall|j: int| i < j < views.len() implies (
        #[trigger] views[j] matches OutcomeView::Exited(s) && s.raw == 0) by {
            assert(outcomes@[j]@ matches OutcomeView::Exited(s) && s.raw == 0);
        }
        law_last_unsuccessful_stage_decides(views, i);
    }
    if forall|j: int|
        0 <= j < outcomes@.len() ==> ((#[trigger] outcomes@[j])@ matches OutcomeView::Exited(s)
            && s.raw == 0) {
        assert forall|j: int| 0 <= j < views.len() implies (
        #[trigger] views[j] matches OutcomeView::Exited(s) && s.raw == 0) by {
            assert(outcomes@[j]@ matches OutcomeView::Exited(s) && s.raw == 0);
        }
        law_last_unsuccessful_stage_decides(views, views.len() - 1);
    }
}

/// The result that is made of an outcome and the captured streams. A success has
/// both streams in full. Any other exit, a timeout and a cancellation keep the
/// tails that fit; a failed wait keeps its cause. All of them name the command.
pub proof fn law_results_keep_what_was_captured(
    command: &CmdDisplay,
    outcome: Outcome,
    stdout: Vec<u8>,
    stderr: String,
    r: Result<RunOutput, RunError>,
)
    requires
        call_ensures(finalize_outcome, (command, outcome, stdout, stderr), r),
    ensures
        r is Ok <==> (outcome@ matches OutcomeView::Exited(s) && s.raw == 0),
        r matches Ok(out) ==> out@.stdout == stdout@ && out@.stderr == stderr@,
        r matches Err(e) ==> {
            &&& e@.command() == command@
            &&& e@.attempts() == 1
            &&& outcome@ matches OutcomeView::Exited(s) ==> (
            e@ matches RunErrorView::NonZeroExit { status, .. } && status == s)
            &&& outcome@ matches OutcomeView::TimedOut(d) ==> (
            e@ matches RunErrorView::Timeout { elapsed, .. } && elapsed == d)
            &&& outcome@ matches OutcomeView::WaitFailed(cause) ==> (
            e@ matches RunErrorView::Spawn { source, .. } && source == cause)
            &&& outcome@ is Cancelled ==> e@ is Cancelled
            &&& outcome@ !is WaitFailed ==> {
                &&& e@.stdout() matches Some(kept)
                &&& kept == stdout@.skip(stdout@.len() - kept.len())
                &&& kept.len() == if stdout@.len() <= 128 * 1024 {
                    stdout@.len()
                } else {
                    128 * 1024
                }
                &&& e@.stderr() matches Some(text)
                &&& text.len() <= stderr@.len()
                &&& text == stderr@.skip(stderr@.len() - text.len())
                &&& encode_utf8(text).len() <= 128 * 1024
                &&& forall|k: int|
                    0 <= k < stderr@.len() - text.len() ==> encode_utf8(
                        #[trigger] stderr@.skip(k),
                    ).len() > 128 * 1024
            }
        },
{
    if let Err(e) = r {
        if outcome@ !is WaitFailed {
            law_errors_keep_the_captured_tail(command@, outcome@, stdout@, stderr@, e@);
        }
    }
}

/// An outcome is a success if and only if the stage exited with status zero.
pub proof fn law_success_is_status_zero(o: &Outcome, b: bool)
    requires
        call_ensures(Outcome::success, (o,), b),
    ensures
        b <==> (o@ matches OutcomeView::Exited(s) && s.raw == 0),
{
}

}
