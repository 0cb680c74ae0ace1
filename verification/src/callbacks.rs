//! Closures that a caller hands over, each with a record of its calls.
//!
//! A closure is kept where nothing else reaches it, so that its record names
//! every call that was made: what it was asked and what it gave back.

use std::sync::Arc;

use vstd::prelude::*;

use crate::cmd::Cmd;
use crate::error::RunError;
use crate::testing::MockResult;

verus! {

// ---------- predicates on commands ----------

/// Decides which commands match. Closures are predicates.
pub trait CmdPredicate: Send + Sync {
    /// The predicate can be asked about any command.
    spec fn callable(&self) -> bool;

    /// `answer` is an answer that the predicate may give about `cmd`.
    spec fn may_answer(&self, cmd: Cmd, answer: bool) -> bool;

    fn matches(&self, cmd: &Cmd) -> (answer: bool)
        requires
            self.callable(),
        ensures
            self.may_answer(*cmd, answer),
    ;
}

impl<F: Fn(&Cmd) -> bool + Send + Sync> CmdPredicate for F {
    open spec fn callable(&self) -> bool {
        forall|cmd: &Cmd| #[trigger] call_requires(*self, (cmd,))
    }

    open spec fn may_answer(&self, cmd: Cmd, answer: bool) -> bool {
        call_ensures(*self, (&cmd,), answer)
    }

    fn matches(&self, cmd: &Cmd) -> (answer: bool) {
        self(cmd)
    }
}

/// A predicate on commands, with what it was asked.
pub struct Predicate {
    inner: Box<dyn CmdPredicate>,
    asked: Ghost<Seq<(Cmd, bool)>>,
}

impl Predicate {
    pub closed spec fn callable(self) -> bool {
        self.inner.callable()
    }

    pub closed spec fn may_answer(self, cmd: Cmd, answer: bool) -> bool {
        self.inner.may_answer(cmd, answer)
    }

    /// The commands that it was asked about, with the answers.
    pub closed spec fn asked(self) -> Seq<(Cmd, bool)> {
        self.asked@
    }

    /// `after` is the same predicate, asked once more.
    pub open spec fn asked_once(self, cmd: Cmd, answer: bool, after: Predicate) -> bool {
        &&& self.may_answer(cmd, answer)
        &&& after.asked() == self.asked().push((cmd, answer))
        &&& forall|c: Cmd, a: bool| #[trigger]
            after.may_answer(c, a) <==> self.may_answer(c, a)
    }

    pub fn new<F: Fn(&Cmd) -> bool + Send + Sync + 'static>(f: F) -> (p: Predicate)
        requires
            forall|cmd: &Cmd| #[trigger] call_requires(f, (cmd,)),
        ensures
            p.callable(),
            p.asked() == Seq::<(Cmd, bool)>::empty(),
            forall|cmd: Cmd, answer: bool| #[trigger]
                p.may_answer(cmd, answer) <==> call_ensures(f, (&cmd,), answer),
    {
        let inner: Box<dyn CmdPredicate> = Box::new(f);
        Predicate { inner, asked: Ghost(Seq::empty()) }
    }

    /// Ask the closure, once.
    pub fn ask(&mut self, cmd: &Cmd) -> (answer: bool)
        requires
            old(self).callable(),
        ensures
            final(self).callable(),
            old(self).asked_once(*cmd, answer, *final(self)),
    {
        let answer = self.inner.matches(cmd);
        self.asked = Ghost(self.asked@.push((*cmd, answer)));
        answer
    }
}

// ---------- result factories ----------

/// Makes a fresh result for every match. Closures are factories.
pub trait ResultFactory: Send {
    /// The factory can be asked for a result.
    spec fn callable(&self) -> bool;

    /// `result` is a result that the factory may make.
    spec fn may_produce(&self, result: MockResult) -> bool;

    /// Make a result. What the factory may make afterwards, it could make
    /// before.
    fn produce(&mut self) -> (result: MockResult)
        requires
            old(self).callable(),
        ensures
            old(self).may_produce(result),
            final(self).callable(),
            forall|r: MockResult| #[trigger]
                final(self).may_produce(r) ==> old(self).may_produce(r),
    ;
}

impl<F: FnMut() -> MockResult + Send> ResultFactory for F {
    open spec fn callable(&self) -> bool {
        call_requires(*self, ())
    }

    open spec fn may_produce(&self, result: MockResult) -> bool {
        call_ensures(*self, (), result)
    }

    fn produce(&mut self) -> (result: MockResult) {
        self()
    }
}

/// A factory of results, with those that it made.
pub struct Factory {
    inner: Box<dyn ResultFactory>,
    made: Ghost<Seq<MockResult>>,
}

impl Factory {
    pub closed spec fn callable(self) -> bool {
        self.inner.callable()
    }

    pub closed spec fn may_produce(self, result: MockResult) -> bool {
        self.inner.may_produce(result)
    }

    /// The results that it made, in order.
    pub closed spec fn made(self) -> Seq<MockResult> {
        self.made@
    }

    /// `after` is the same factory after it made one result more.
    pub open spec fn made_once(self, result: MockResult, after: Factory) -> bool {
        &&& self.may_produce(result)
        &&& after.made() == self.made().push(result)
        &&& forall|r: MockResult| #[trigger] after.may_produce(r) ==> self.may_produce(r)
    }

    pub fn new<F: FnMut() -> MockResult + Send + 'static>(f: F) -> (factory: Factory)
        requires
            call_requires(f, ()),
        ensures
            factory.callable(),
            factory.made() == Seq::<MockResult>::empty(),
            forall|result: MockResult| #[trigger]
                factory.may_produce(result) <==> call_ensures(f, (), result),
    {
        let inner: Box<dyn ResultFactory> = Box::new(f);
        Factory { inner, made: Ghost(Seq::empty()) }
    }

    /// Run the closure, once.
    pub fn produce(&mut self) -> (result: MockResult)
        requires
            old(self).callable(),
        ensures
            final(self).callable(),
            old(self).made_once(result, *final(self)),
    {
        let result = self.inner.produce();
        self.made = Ghost(self.made@.push(result));
        result
    }
}

// ---------- predicates on errors ----------

/// Decides which errors are worth another attempt. Closures are predicates.
pub trait RetryPredicate: Send + Sync {
    /// The predicate can be asked about any error.
    spec fn callable(&self) -> bool;

    /// `answer` is an answer that the predicate may give about `err`.
    spec fn may_answer(&self, err: RunError, answer: bool) -> bool;

    fn should_retry(&self, err: &RunError) -> (answer: bool)
        requires
            self.callable(),
        ensures
            self.may_answer(*err, answer),
    ;
}

impl<F: Fn(&RunError) -> bool + Send + Sync> RetryPredicate for F {
    open spec fn callable(&self) -> bool {
        forall|err: &RunError| #[trigger] call_requires(*self, (err,))
    }

    open spec fn may_answer(&self, err: RunError, answer: bool) -> bool {
        call_ensures(*self, (&err,), answer)
    }

    fn should_retry(&self, err: &RunError) -> (answer: bool) {
        self(err)
    }
}

/// A predicate on errors that policies share.
pub struct SharedRetryPredicate {
    inner: Arc<Box<dyn RetryPredicate>>,
}

impl SharedRetryPredicate {
    pub closed spec fn callable(self) -> bool {
        self.inner.callable()
    }

    pub closed spec fn may_answer(self, err: RunError, answer: bool) -> bool {
        self.inner.may_answer(err, answer)
    }

    pub fn new<F: Fn(&RunError) -> bool + Send + Sync + 'static>(f: F) -> (p: SharedRetryPredicate)
        requires
            forall|err: &RunError| #[trigger] call_requires(f, (err,)),
        ensures
            p.callable(),
            forall|err: RunError, answer: bool| #[trigger]
                p.may_answer(err, answer) <==> call_ensures(f, (&err,), answer),
    {
        let boxed: Box<dyn RetryPredicate> = Box::new(f);
        SharedRetryPredicate { inner: Arc::new(boxed) }
    }

    pub fn should_retry(&self, err: &RunError) -> (answer: bool)
        requires
            self.callable(),
        ensures
            self.may_answer(*err, answer),
    {
        self.inner.should_retry(err)
    }

    /// The same predicate for one run, with a record that is still empty.
    pub fn asker(&self) -> (a: RetryAsker)
        ensures
            a.callable() == self.callable(),
            a.asked() == Seq::<(RunError, bool)>::empty(),
            forall|err: RunError, answer: bool| #[trigger]
                a.may_answer(err, answer) <==> self.may_answer(err, answer),
    {
        RetryAsker { inner: Arc::clone(&self.inner), asked: Ghost(Seq::empty()) }
    }
}

impl Clone for SharedRetryPredicate {
    fn clone(&self) -> (p: SharedRetryPredicate)
        ensures
            p == *self,
    {
        SharedRetryPredicate { inner: Arc::clone(&self.inner) }
    }
}

/// A predicate on errors as one run uses it, with what it was asked.
pub struct RetryAsker {
    inner: Arc<Box<dyn RetryPredicate>>,
    asked: Ghost<Seq<(RunError, bool)>>,
}

impl RetryAsker {
    pub closed spec fn callable(self) -> bool {
        self.inner.callable()
    }

    pub closed spec fn may_answer(self, err: RunError, answer: bool) -> bool {
        self.inner.may_answer(err, answer)
    }

    /// The errors that it was asked about, with the answers.
    pub closed spec fn asked(self) -> Seq<(RunError, bool)> {
        self.asked@
    }

    /// Ask the closure, once.
    pub fn ask(&mut self, err: &RunError) -> (answer: bool)
        requires
            old(self).callable(),
        ensures
            final(self).callable(),
            old(self).may_answer(*err, answer),
            final(self).asked() == old(self).asked().push((*err, answer)),
            forall|e: RunError, a: bool| #[trigger]
                final(self).may_answer(e, a) <==> old(self).may_answer(e, a),
    {
        let answer = self.inner.should_retry(err);
        self.asked = Ghost(self.asked@.push((*err, answer)));
        answer
    }
}

// ---------- laws ----------

/// A predicate that was asked once more has one question more on record, the
/// last, and goes on answering as before; its answer was one that it may give.
pub proof fn law_asking_is_recorded(
    p: Predicate,
    cmd: Cmd,
    answer: bool,
    after: Predicate,
    other: Cmd,
    a: bool,
)
    requires
        p.asked_once(cmd, answer, after),
    ensures
        p.may_answer(cmd, answer),
        after.asked().len() == p.asked().len() + 1,
        after.asked().last() == (cmd, answer),
        after.asked().drop_last() == p.asked(),
        after.may_answer(other, a) == p.may_answer(other, a),
{
    assert(after.asked().drop_last() =~= p.asked());
}

/// A factory that made one result more has it on record, the last, and makes
/// nothing afterwards that it could not make before.
pub proof fn law_making_is_recorded(
    f: Factory,
    result: MockResult,
    after: Factory,
    other: MockResult,
)
    requires
        f.made_once(result, after),
    ensures
        f.may_produce(result),
        after.made().len() == f.made().len() + 1,
        after.made().last() == result,
        after.made().drop_last() == f.made(),
        after.may_produce(other) ==> f.may_produce(other),
{
    assert(after.made().drop_last() =~= f.made());
}

}
