//! Retry policy: how retries are spaced, and which errors trigger them.
//!
//! The spacing is that of `backon`'s exponential backoff.

use backon::{BackoffBuilder, ExponentialBackoff, ExponentialBuilder};
use vstd::prelude::*;

use crate::callbacks::{RetryAsker, SharedRetryPredicate};
use crate::error::{RunError, RunErrorView};
use crate::text;
use crate::time;
use crate::time::Duration;

verus! {

// ---------- backoff ----------

/// Settings of an exponential backoff that doubles its delay every time.
#[derive(Debug, Clone, Copy, PartialEq, Eq, Structural)]
pub struct Backoff {
    /// The first delay, in nanoseconds.
    pub min_delay: u64,
    /// Where the delay stops growing, in nanoseconds.
    pub max_delay: Option<u64>,
    /// Most delays that are handed out.
    pub max_times: Option<usize>,
    /// Most time that all delays may take together, in nanoseconds.
    pub total_delay: Option<u64>,
    /// Whether a random part of the delay, at most all of it, is added to it.
    pub jitter: bool,
}

/// `backon`'s settings of an exponential backoff.
#[verifier::external_type_specification]
#[verifier::external_body]
pub struct ExExponentialBuilder(ExponentialBuilder);

/// `backon`'s exponential backoff: an iterator over delays.
#[verifier::external_type_specification]
#[verifier::external_body]
pub struct ExExponentialBackoff(ExponentialBackoff);

/// The delays that a backoff hands out one after the other, in nanoseconds,
/// before it first declines to; none where the sum of its delays overflows on
/// the way.
pub uninterp spec fn delays_left(backoff: ExponentialBackoff) -> Option<Seq<nat>>;

/// What is known of a builder.
pub ghost enum Spacing {
    /// It doubles its delays, with these settings.
    Doubling(Backoff),
    /// Its delays grow in some other way, or some are too long for
    /// [`Backoff`]. `total` tells whether their sum is bounded.
    Other { max_times: Option<usize>, total: bool },
    /// Adding up its delays, to hold them against the bound on their sum,
    /// overflows.
    Overflowing,
}

/// What is known of a builder.
pub uninterp spec fn spacing_of(builder: ExponentialBuilder) -> Spacing;

/// The sum of several delays.
pub open spec fn total(delays: Seq<nat>) -> nat
    decreases delays.len(),
{
    if delays.len() == 0 {
        0
    } else {
        total(delays.drop_last()) + delays.last()
    }
}

/// The longest delay there is, in nanoseconds.
pub open spec fn longest_delay() -> nat {
    18_446_744_073_709_551_615_999_999_999
}

/// `actual` is `ideal` up to one part in a million and one nanosecond: delays
/// are computed in single-precision seconds.
pub open spec fn about(actual: nat, ideal: nat) -> bool {
    &&& actual * 1_000_000 <= ideal * 1_000_001 + 1_000_000
    &&& ideal * 999_999 <= actual * 1_000_000 + 1_000_000
}

/// `next` may follow the delay `now`: twice as long, as far as the cap allows.
pub open spec fn doubles(now: nat, next: nat, cap: Option<u64>) -> bool {
    let ideal = time::least(2 * now, longest_delay());
    match cap {
        Some(c) => if now >= c {
            next == c
        } else {
            exists|x: nat| #[trigger] about(x, ideal) && next == time::least(x, c as nat)
        },
        None => about(next, ideal),
    }
}

/// Delays before jitter: the first is the shortest one, each further one
/// doubles the one before it.
pub open spec fn doubling(base: Seq<nat>, settings: Backoff) -> bool {
    &&& base.len() > 0 ==> base[0] == settings.min_delay
    &&& forall|i: int|
        0 < i < base.len() ==> doubles(base[i - 1], #[trigger] base[i], settings.max_delay)
}

/// `delay` is `base` with jitter added, if there is any: at most as much again.
pub open spec fn jittered(delay: nat, base: nat, jitter: bool) -> bool {
    if jitter {
        base <= delay && delay * 1_000_000 <= base * 2_000_001 + 1_000_000
    } else {
        delay == base
    }
}

/// `delays` are the doubling delays `base`, jitter added.
pub open spec fn spaced(delays: Seq<nat>, base: Seq<nat>, settings: Backoff) -> bool {
    &&& base.len() == delays.len()
    &&& doubling(base, settings)
    &&& forall|i: int|
        0 <= i < delays.len() ==> jittered(#[trigger] delays[i], base[i], settings.jitter)
}

/// How many delays there are at most.
pub open spec fn most(max_times: Option<usize>) -> nat {
    match max_times {
        Some(n) => n as nat,
        None => usize::MAX as nat,
    }
}

/// One more delay after `delays` would take them beyond the limit.
pub open spec fn cut_short(delays: Seq<nat>, settings: Backoff, limit: nat) -> bool {
    exists|more: Seq<nat>, base: Seq<nat>|
        {
            &&& #[trigger] spaced(more, base, settings)
            &&& more.len() == delays.len() + 1
            &&& more.drop_last() == delays
            &&& total(more) > limit
        }
}

/// What a fresh backoff with these settings may hand out, whatever the jitter:
/// doubling delays, as many as allowed unless the total cuts them short.
pub open spec fn honours(delays: Seq<nat>, settings: Backoff) -> bool {
    &&& delays.len() <= most(settings.max_times)
    &&& settings.total_delay is None ==> delays.len() == most(settings.max_times)
    &&& settings.total_delay matches Some(limit) ==> {
        &&& total(delays) <= limit
        &&& delays.len() < most(settings.max_times) ==> cut_short(delays, settings, limit as nat)
    }
    &&& exists|base: Seq<nat>| spaced(delays, base, settings)
}

/// How many delays a fresh backoff hands out at most.
pub open spec fn most_delays(spacing: Spacing) -> nat
    recommends
        spacing !is Overflowing,
{
    match spacing {
        Spacing::Doubling(settings) => most(settings.max_times),
        Spacing::Other { max_times, .. } => most(max_times),
        Spacing::Overflowing => 0,
    }
}

/// What a fresh backoff may hand out, by what is known of its builder.
pub open spec fn begins(delays: Option<Seq<nat>>, spacing: Spacing) -> bool {
    match spacing {
        Spacing::Doubling(settings) => delays matches Some(d) && honours(d, settings),
        Spacing::Other { max_times, total } => delays matches Some(d) && d.len() <= most(max_times)
            && (!total ==> d.len() == most(max_times)),
        Spacing::Overflowing => true,
    }
}

/// `ExponentialBuilder::default`: three delays from one second on, doubling up
/// to a minute, without jitter or a total.
#[verifier::external_body]
fn default_builder() -> (b: ExponentialBuilder)
    ensures
        spacing_of(b) == Spacing::Doubling(
            Backoff {
                min_delay: 1_000_000_000,
                max_delay: Some(60_000_000_000),
                max_times: Some(3),
                total_delay: None,
                jitter: false,
            },
        ),
{
    ExponentialBuilder::default()
}

/// `ExponentialBuilder::with_min_delay`: sets the first delay.
#[verifier::external_body]
fn with_min_delay(b: ExponentialBuilder, nanos: u64) -> (r: ExponentialBuilder)
    ensures
        spacing_of(b) matches Spacing::Doubling(s) ==> spacing_of(r) == Spacing::Doubling(
            Backoff { min_delay: nanos, ..s },
        ),
{
    b.with_min_delay(std::time::Duration::from_nanos(nanos))
}

/// `ExponentialBuilder::with_max_delay`: sets the cap.
#[verifier::external_body]
fn with_max_delay(b: ExponentialBuilder, nanos: u64) -> (r: ExponentialBuilder)
    ensures
        spacing_of(b) matches Spacing::Doubling(s) ==> spacing_of(r) == Spacing::Doubling(
            Backoff { max_delay: Some(nanos), ..s },
        ),
{
    b.with_max_delay(std::time::Duration::from_nanos(nanos))
}

/// `ExponentialBuilder::without_max_delay`: takes the cap off.
#[verifier::external_body]
fn without_max_delay(b: ExponentialBuilder) -> (r: ExponentialBuilder)
    ensures
        spacing_of(b) matches Spacing::Doubling(s) ==> spacing_of(r) == Spacing::Doubling(
            Backoff { max_delay: None, ..s },
        ),
{
    b.without_max_delay()
}

/// `ExponentialBuilder::with_max_times`: sets how many delays there are.
#[verifier::external_body]
fn with_max_times(b: ExponentialBuilder, times: usize) -> (r: ExponentialBuilder)
    ensures
        spacing_of(b) matches Spacing::Doubling(s) ==> spacing_of(r) == Spacing::Doubling(
            Backoff { max_times: Some(times), ..s },
        ),
{
    b.with_max_times(times)
}

/// `ExponentialBuilder::without_max_times`: takes the bound on their number
/// off.
#[verifier::external_body]
fn without_max_times(b: ExponentialBuilder) -> (r: ExponentialBuilder)
    ensures
        spacing_of(b) matches Spacing::Doubling(s) ==> spacing_of(r) == Spacing::Doubling(
            Backoff { max_times: None, ..s },
        ),
{
    b.without_max_times()
}

/// `ExponentialBuilder::with_total_delay`: sets or takes off the bound on the
/// sum of the delays.
#[verifier::external_body]
fn with_total_delay(b: ExponentialBuilder, nanos: Option<u64>) -> (r: ExponentialBuilder)
    ensures
        spacing_of(b) matches Spacing::Doubling(s) ==> spacing_of(r) == Spacing::Doubling(
            Backoff { total_delay: nanos, ..s },
        ),
{
    b.with_total_delay(nanos.map(std::time::Duration::from_nanos))
}

/// `ExponentialBuilder::with_jitter`: adds a random part to every delay.
#[verifier::external_body]
fn with_jitter(b: ExponentialBuilder) -> (r: ExponentialBuilder)
    ensures
        spacing_of(b) matches Spacing::Doubling(s) ==> spacing_of(r) == Spacing::Doubling(
            Backoff { jitter: true, ..s },
        ),
{
    b.with_jitter()
}

/// `ExponentialBuilder::build`: a fresh backoff. Its delays start at the
/// shortest one and double up to the cap, to within the rounding of
/// single-precision seconds; jitter adds to each of them a random part of it;
/// there are as many as `max_times` says, unless one more would take their sum
/// beyond the total delay; within it they stay. How much jitter adds is left
/// open, and so are the lengths of delays that do not double.
#[verifier::external_body]
fn build(b: ExponentialBuilder) -> (r: ExponentialBackoff)
    ensures
        begins(delays_left(r), spacing_of(b)),
{
    b.build()
}

/// `ExponentialBackoff::next`: hands out the next delay, in nanoseconds, or
/// declines where none is left. What a backoff does after it declined is left
/// open.
#[verifier::external_body]
fn next_delay(b: &mut ExponentialBackoff) -> (d: Option<u128>)
    requires
        delays_left(*old(b)) is Some,
    ensures
        delays_left(*old(b))->0.len() == 0 ==> d is None,
        delays_left(*old(b))->0.len() > 0 ==> {
            &&& d matches Some(nanos)
            &&& nanos == delays_left(*old(b))->0[0]
            &&& delays_left(*final(b)) == Some(delays_left(*old(b))->0.drop_first())
        },
{
    match b.next() {
        Some(delay) => Some(delay.as_nanos()),
        None => None,
    }
}

impl Backoff {
    /// The builder of a backoff with these settings.
    pub fn builder(&self) -> (b: ExponentialBuilder)
        ensures
            spacing_of(b) == Spacing::Doubling(*self),
    {
        let b = with_min_delay(default_builder(), self.min_delay);
        let b = match self.max_delay {
            Some(nanos) => with_max_delay(b, nanos),
            None => without_max_delay(b),
        };
        let b = match self.max_times {
            Some(times) => with_max_times(b, times),
            None => without_max_times(b),
        };
        let b = with_total_delay(b, self.total_delay);
        if self.jitter {
            with_jitter(b)
        } else {
            b
        }
    }
}

/// With a cap, no delay is shorter than the shortest one (or the cap, where
/// that is shorter still), and none is longer than the cap (or the shortest
/// one, where that is longer) but for jitter, which at most doubles it.
pub proof fn law_delays_stay_in_range(delays: Seq<nat>, settings: Backoff, i: int)
    requires
        honours(delays, settings),
        settings.max_delay is Some,
        0 <= i < delays.len(),
    ensures
        ({
            let cap = settings.max_delay->0 as nat;
            let low = time::least(settings.min_delay as nat, cap);
            let high = if settings.min_delay >= cap {
                settings.min_delay as nat
            } else {
                cap
            };
            &&& low <= delays[i]
            &&& !settings.jitter ==> delays[i] <= high
            &&& delays[i] * 1_000_000 <= high * 2_000_001 + 1_000_000
        }),
{
    let base = choose|base: Seq<nat>| spaced(delays, base, settings);
    lemma_base_in_range(base, settings, i);
    assert(jittered(delays[i], base[i], settings.jitter));
}

proof fn lemma_base_in_range(base: Seq<nat>, settings: Backoff, i: int)
    requires
        doubling(base, settings),
        settings.max_delay is Some,
        0 <= i < base.len(),
    ensures
        time::least(settings.min_delay as nat, settings.max_delay->0 as nat) <= base[i],
        base[i] <= settings.min_delay || base[i] <= settings.max_delay->0,
    decreases i,
{
    if i > 0 {
        lemma_base_in_range(base, settings, i - 1);
        assert(doubles(base[i - 1], base[i], settings.max_delay));
        let c = settings.max_delay->0 as nat;
        let now = base[i - 1];
        if now < c {
            let x = choose|x: nat| #[trigger]
                about(x, time::least(2 * now, longest_delay())) && base[i] == time::least(x, c);
            assert(x >= now);
        }
    }
}

// ---------- predicates ----------

/// A failed exit whose stderr speaks of a stale working copy or of a lock
/// file.
pub open spec fn transient(err: RunErrorView) -> bool {
    err matches RunErrorView::NonZeroExit { stderr, .. } && (text::occurs_in(stderr, "stale"@)
        || text::occurs_in(stderr, ".lock"@))
}

/// Default transient-error predicate. Spawn failures, timeouts and
/// cancellations are never retried.
pub fn default_transient(err: &RunError) -> (answer: bool)
    ensures
        answer == transient(err@),
{
    match err {
        RunError::NonZeroExit { stderr, .. } => {
            text::contains(stderr.as_str(), "stale") || text::contains(stderr.as_str(), ".lock")
        },
        RunError::Spawn { .. } | RunError::Timeout { .. } | RunError::Cancelled { .. } => false,
    }
}

// ---------- the policy ----------

/// How retries are scheduled and which errors trigger them.
pub struct RetryPolicy {
    backoff: ExponentialBuilder,
    predicate: SharedRetryPredicate,
}

impl RetryPolicy {
    #[verifier::type_invariant]
    spec fn usable(self) -> bool {
        &&& self.predicate.callable()
        &&& spacing_of(self.backoff) !is Overflowing
    }

    /// What is known of the spacing of the retries.
    pub closed spec fn spacing(self) -> Spacing {
        spacing_of(self.backoff)
    }

    /// `answer` is an answer that the policy's predicate may give about `err`.
    pub closed spec fn may_answer(self, err: RunError, answer: bool) -> bool {
        self.predicate.may_answer(err, answer)
    }

    /// A policy with the given backoff and the default predicate. The sum of
    /// the delays must not overflow; see [`RetryPolicy::with_settings`] for
    /// settings with which it cannot.
    pub fn with_backoff(backoff: ExponentialBuilder) -> (p: RetryPolicy)
        requires
            spacing_of(backoff) !is Overflowing,
        ensures
            p.spacing() == spacing_of(backoff),
            forall|err: RunError, answer: bool| #[trigger]
                p.may_answer(err, answer) ==> answer == transient(err@),
    {
        RetryPolicy { backoff, predicate: SharedRetryPredicate::new(default_transient) }
    }

    /// A policy with doubling delays and the default predicate.
    pub fn with_settings(settings: Backoff) -> (p: RetryPolicy)
        ensures
            p.spacing() == Spacing::Doubling(settings),
            forall|err: RunError, answer: bool| #[trigger]
                p.may_answer(err, answer) ==> answer == transient(err@),
    {
        RetryPolicy::with_backoff(settings.builder())
    }

    /// Replace the predicate.
    pub fn when<F: Fn(&RunError) -> bool + Send + Sync + 'static>(self, f: F) -> (p: RetryPolicy)
        requires
            forall|err: &RunError| #[trigger] call_requires(f, (err,)),
        ensures
            p.spacing() == self.spacing(),
            forall|err: RunError, answer: bool| #[trigger]
                p.may_answer(err, answer) <==> call_ensures(f, (&err,), answer),
    {
        proof {
            use_type_invariant(&self);
        }
        RetryPolicy { backoff: self.backoff, predicate: SharedRetryPredicate::new(f) }
    }

    /// Ask the predicate.
    pub fn should_retry(&self, err: &RunError) -> (answer: bool)
        ensures
            self.may_answer(*err, answer),
    {
        proof {
            use_type_invariant(self);
        }
        self.predicate.should_retry(err)
    }

    /// The debugging rendering, which shows neither part.
    pub fn debug(&self) -> (out: String)
        ensures
            out@ == "RetryPolicy { backoff: \"<ExponentialBuilder>\", predicate: \"<closure>\" }"@,
    {
        "RetryPolicy { backoff: \"<ExponentialBuilder>\", predicate: \"<closure>\" }".to_owned()
    }
}

impl Clone for RetryPolicy {
    fn clone(&self) -> (p: RetryPolicy)
        ensures
            p == *self,
    {
        proof {
            use_type_invariant(self);
        }
        RetryPolicy { backoff: self.backoff, predicate: self.predicate.clone() }
    }
}

/// The default spacing: three retries, from a tenth of a second on, with
/// jitter and with delays capped at a minute.
pub open spec fn default_spacing() -> Backoff {
    Backoff {
        min_delay: 100_000_000,
        max_delay: Some(60_000_000_000),
        max_times: Some(3),
        total_delay: None,
        jitter: true,
    }
}

impl Default for RetryPolicy {
    fn default() -> (p: RetryPolicy)
        ensures
            p.spacing() == Spacing::Doubling(default_spacing()),
            forall|err: RunError, answer: bool| #[trigger]
                p.may_answer(err, answer) ==> answer == transient(err@),
    {
        RetryPolicy::with_settings(
            Backoff {
                min_delay: 100_000_000,
                max_delay: Some(60_000_000_000),
                max_times: Some(3),
                total_delay: None,
                jitter: true,
            },
        )
    }
}

/// The default policy pauses three times: for about a tenth, two tenths and
/// four tenths of a second, each with up to as much again in jitter.
pub proof fn law_default_delays(delays: Seq<nat>)
    requires
        honours(delays, default_spacing()),
    ensures
        delays.len() == 3,
        100_000_000 <= delays[0] <= 200_001_000,
        199_999_000 <= delays[1] <= 400_002_000,
        399_997_000 <= delays[2] <= 800_004_000,
{
    let settings = default_spacing();
    let base = choose|base: Seq<nat>| spaced(delays, base, settings);
    assert(jittered(delays[0], base[0], true));
    assert(jittered(delays[1], base[1], true));
    assert(jittered(delays[2], base[2], true));
    assert(doubles(base[1 - 1], base[1], settings.max_delay));
    assert(doubles(base[2 - 1], base[2], settings.max_delay));
}

// ---------- one run's retries ----------

/// The retries of one run: the policy's predicate, and the delays that are left
/// of the policy.
pub struct Retries {
    asker: RetryAsker,
    backoff: ExponentialBackoff,
    declined: bool,
    policy: Ghost<RetryPolicy>,
}

impl Retries {
    #[verifier::type_invariant]
    spec fn steppable(self) -> bool {
        &&& !self.declined ==> delays_left(self.backoff) is Some
        &&& self.asker.callable()
        &&& forall|err: RunError, answer: bool| #[trigger]
            self.asker.may_answer(err, answer) <==> self.policy@.may_answer(err, answer)
    }

    pub closed spec fn policy(self) -> RetryPolicy {
        self.policy@
    }

    /// The errors that the predicate was asked about, with the answers.
    pub closed spec fn asked(self) -> Seq<(RunError, bool)> {
        self.asker.asked()
    }

    /// The delays that are left, in nanoseconds.
    pub closed spec fn left(self) -> Seq<nat> {
        if self.declined {
            Seq::empty()
        } else {
            delays_left(self.backoff)->0
        }
    }

    /// Start over with a policy.
    pub fn start(policy: RetryPolicy) -> (r: Retries)
        ensures
            r.policy() == policy,
            r.asked() == Seq::<(RunError, bool)>::empty(),
            begins(Some(r.left()), policy.spacing()),
    {
        proof {
            use_type_invariant(&policy);
        }
        let backoff = build(policy.backoff);
        Retries {
            asker: policy.predicate.asker(),
            backoff,
            declined: false,
            policy: Ghost(policy),
        }
    }

    /// After a failed attempt: the delay before the next one, or `None` where
    /// the error is final, because the predicate declines or no delay is left.
    /// The predicate is asked once.
    pub fn after_failure(self, err: &RunError) -> (out: (Option<Duration>, Retries))
        ensures
            out.1.policy() == self.policy(),
            ({
                let answer = out.1.asked().last().1;
                &&& self.policy().may_answer(*err, answer)
                &&& out.1.asked() == self.asked().push((*err, answer))
                &&& match out.0 {
                    Some(d) => {
                        &&& answer
                        &&& self.left().len() > 0
                        &&& d@ == self.left()[0]
                        &&& out.1.left() == self.left().drop_first()
                    },
                    None => {
                        &&& !answer || self.left().len() == 0
                        &&& out.1.left() == self.left()
                    },
                }
            }),
    {
        proof {
            use_type_invariant(&self);
        }
        let Retries { mut asker, mut backoff, declined, policy } = self;
        let answer = asker.ask(err);
        if !answer || declined {
            return (None, Retries { asker, backoff, declined, policy });
        }
        match next_delay(&mut backoff) {
            Some(nanos) => (
                Some(Duration::from_nanos(nanos)),
                Retries { asker, backoff, declined: false, policy },
            ),
            None => {
                let r = Retries { asker, backoff, declined: true, policy };
                assert(r.left() =~= self.left());
                (None, r)
            },
        }
    }
}

/// Which failures are transient depends on stderr alone: a failed exit is one if
/// and only if the text `stale` or `.lock` stands somewhere in its stderr,
/// whatever the command, the status, the output and the attempt. No other error
/// ever is.
pub proof fn law_transient_failures_are_told_by_stderr(err: RunErrorView)
    ensures
        err !is NonZeroExit ==> !transient(err),
        err matches RunErrorView::NonZeroExit { stderr, .. } ==> (transient(err) <==> (exists|
            before: Seq<char>,
            after: Seq<char>,
        |
            stderr == #[trigger] (before + "stale"@ + after)) || (exists|
            before: Seq<char>,
            after: Seq<char>,
        |
            stderr == #[trigger] (before + ".lock"@ + after))),
{
    if let RunErrorView::NonZeroExit { stderr, .. } = err {
        text::law_occurring_is_standing_between(stderr, "stale"@);
        text::law_occurring_is_standing_between(stderr, ".lock"@);
    }
}

/// Two failed exits with the same stderr are both transient or neither is.
pub proof fn law_transience_ignores_all_but_stderr(a: RunErrorView, b: RunErrorView)
    requires
        a is NonZeroExit,
        b is NonZeroExit,
        a.stderr() == b.stderr(),
    ensures
        transient(a) == transient(b),
{
}

/// By default there are three retries, the first after a tenth of a second,
/// with jitter, delays of at most a minute before it, and no bound on their
/// sum.
pub proof fn law_default_spacing()
    ensures
        default_spacing().min_delay == 100 * 1_000_000,
        (default_spacing().max_delay matches Some(cap) && cap == 60 * 1_000_000_000),
        default_spacing().max_times == Some(3usize),
        default_spacing().total_delay is None,
        default_spacing().jitter,
        most_delays(Spacing::Doubling(default_spacing())) == 3,
{
}

/// A backoff without a bound on the sum of its delays hands out as many as its
/// settings say; the first is the shortest delay, exactly where there is no
/// jitter.
pub proof fn law_delays_begin_with_the_shortest(delays: Seq<nat>, settings: Backoff)
    requires
        honours(delays, settings),
        settings.total_delay is None,
    ensures
        settings.max_times matches Some(n) ==> delays.len() == n,
        delays.len() > 0 ==> delays[0] >= settings.min_delay,
        delays.len() > 0 && !settings.jitter ==> delays[0] == settings.min_delay,
{
    let base = choose|base: Seq<nat>| spaced(delays, base, settings);
    if delays.len() > 0 {
        assert(jittered(delays[0], base[0], settings.jitter));
    }
}

/// A total is that of its parts.
pub proof fn law_totals_add_up(a: Seq<nat>, b: Seq<nat>, delay: nat)
    ensures
        total(a + b) == total(a) + total(b),
        total(seq![delay]) == delay,
        total(Seq::empty()) == 0,
    decreases b.len(),
{
    assert(seq![delay].drop_last() =~= Seq::empty());
    assert(total(seq![delay].drop_last()) == 0);
    if b.len() == 0 {
        assert(a + b =~= a);
    } else {
        law_totals_add_up(a, b.drop_last(), delay);
        assert((a + b).drop_last() =~= a + b.drop_last());
        assert((a + b).last() == b.last());
    }
}

/// The default predicate says of a failed exit whether `stale` or `.lock` stands
/// in its stderr, whatever else the error holds, and of any other error no.
pub proof fn law_default_predicate_reads_stderr(err: &RunError, answer: bool)
    requires
        call_ensures(default_transient, (err,), answer),
    ensures
        err@ !is NonZeroExit ==> !answer,
        err@ matches RunErrorView::NonZeroExit { stderr, .. } ==> (answer <==> (exists|
            before: Seq<char>,
            after: Seq<char>,
        |
            stderr == #[trigger] (before + "stale"@ + after)) || (exists|
            before: Seq<char>,
            after: Seq<char>,
        |
            stderr == #[trigger] (before + ".lock"@ + after))),
{
    law_transient_failures_are_told_by_stderr(err@);
}

/// A policy is spaced as it was asked to be and, until it is given another
/// predicate, retries the transient failures and no others.
pub proof fn law_policies_are_made_as_asked(
    builder: ExponentialBuilder,
    settings: Backoff,
    err: RunError,
    answer: bool,
    p: RetryPolicy,
)
    requires
        p.may_answer(err, answer),
    ensures
        call_ensures(RetryPolicy::with_backoff, (builder,), p) ==> {
            &&& p.spacing() == spacing_of(builder)
            &&& answer == transient(err@)
        },
        call_ensures(RetryPolicy::with_settings, (settings,), p) ==> {
            &&& p.spacing() == Spacing::Doubling(settings)
            &&& answer == transient(err@)
        },
        call_ensures(RetryPolicy::default, (), p) ==> {
            &&& p.spacing() == Spacing::Doubling(default_spacing())
            &&& answer == transient(err@)
        },
{
}

/// A policy's answers are its predicate's, a copy is the same policy, and the
/// builder of some settings has those settings.
pub proof fn law_policies_ask_their_predicate(
    p: &RetryPolicy,
    err: &RunError,
    answer: bool,
    copy: RetryPolicy,
    settings: &Backoff,
    b: ExponentialBuilder,
)
    ensures
        call_ensures(RetryPolicy::should_retry, (p, err), answer) ==> p.may_answer(*err, answer),
        call_ensures(RetryPolicy::clone, (p,), copy) ==> copy == *p,
        call_ensures(Backoff::builder, (settings,), b) ==> spacing_of(b) == Spacing::Doubling(
            *settings,
        ),
{
}

/// The retries of a run begin with all delays of the policy. A failure is
/// answered with the next one of them exactly if the predicate, asked once,
/// wants a retry and one is left; only a delay that is handed out is used up.
pub proof fn law_failures_use_up_delays_one_by_one(
    policy: RetryPolicy,
    fresh: Retries,
    before: Retries,
    err: &RunError,
    out: (Option<Duration>, Retries),
)
    ensures
        call_ensures(Retries::start, (policy,), fresh) ==> {
            &&& fresh.policy() == policy
            &&& fresh.asked().len() == 0
            &&& begins(Some(fresh.left()), policy.spacing())
        },
        call_ensures(Retries::after_failure, (before, err), out) ==> {
            let answer = out.1.asked().last().1;
            &&& before.policy().may_answer(*err, answer)
            &&& out.1.asked().len() == before.asked().len() + 1
            &&& out.1.asked().last().0 == *err
            &&& out.1.policy() == before.policy()
            &&& out.0 is Some <==> answer && before.left().len() > 0
            &&& out.0 matches Some(d) ==> {
                &&& d.nanos == before.left()[0]
                &&& before.left() == seq![before.left()[0]] + out.1.left()
            }
            &&& out.0 is None ==> out.1.left() == before.left()
        },
{
    if call_ensures(Retries::after_failure, (before, err), out) && out.0 is Some {
        assert(before.left() =~= seq![before.left()[0]] + out.1.left());
    }
}

/// Giving a policy another predicate leaves its spacing alone, and from then on
/// that predicate answers.
pub proof fn law_predicate_is_replaced_alone<F: Fn(&RunError) -> bool + Send + Sync + 'static>(
    before: RetryPolicy,
    f: F,
    after: RetryPolicy,
    err: RunError,
    answer: bool,
)
    requires
        call_ensures(RetryPolicy::when::<F>, (before, f), after),
    ensures
        after.spacing() == before.spacing(),
        after.may_answer(err, answer) <==> call_ensures(f, (&err,), answer),
{
}

/// The debugging rendering of a policy shows neither its spacing nor its
/// predicate: all policies look alike.
pub proof fn law_policies_look_alike(a: &RetryPolicy, b: &RetryPolicy, x: String, y: String)
    requires
        call_ensures(RetryPolicy::debug, (a,), x),
        call_ensures(RetryPolicy::debug, (b,), y),
    ensures
        x@ == y@,
        x@ == "RetryPolicy { backoff: \"<ExponentialBuilder>\", predicate: \"<closure>\" }"@,
{
}

}
