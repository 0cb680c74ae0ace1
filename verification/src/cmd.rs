//! The command builder.
//!
//! A [`Cmd`] is one command or a pipeline of several. The per-stage settings
//! ([`Cmd::arg`], [`Cmd::env`], [`Cmd::in_dir`] and their kin) speak of the
//! rightmost stage; all others speak of the whole.

use vstd::prelude::*;

use crate::cmd_display::{CmdDisplay, CmdDisplayView, StageView};
use crate::error::RunError;
use crate::os;
use crate::os::OsText;
use crate::redirection::{FileHandle, Redirection};
use crate::retry;
use crate::retry::{RetryPolicy, Spacing};
use crate::stdin;
use crate::stdin::{StdinData, StdinView};
use crate::time::{Duration, Instant};

verus! {

// ---------- one stage ----------

/// A program with its arguments, directory and environment.
pub struct SingleCmd {
    pub program: OsText,
    pub args: Vec<OsText>,
    pub cwd: Option<OsText>,
    /// Start from an empty environment instead of the parent's.
    pub env_clear: bool,
    pub env_remove: Vec<OsText>,
    pub envs: Vec<(OsText, OsText)>,
}

/// The contents of a [`SingleCmd`].
pub ghost struct SingleView {
    pub program: Seq<u8>,
    pub args: Seq<Seq<u8>>,
    pub cwd: Option<Seq<u8>>,
    pub env_clear: bool,
    pub env_remove: Seq<Seq<u8>>,
    pub envs: Seq<(Seq<u8>, Seq<u8>)>,
}

/// The views of several environment entries.
pub open spec fn env_views(envs: Seq<(OsText, OsText)>) -> Seq<(Seq<u8>, Seq<u8>)> {
    envs.map_values(|e: (OsText, OsText)| (e.0@, e.1@))
}

impl View for SingleCmd {
    type V = SingleView;

    open spec fn view(&self) -> SingleView {
        SingleView {
            program: self.program@,
            args: os::os_views(self.args@),
            cwd: match self.cwd {
                Some(d) => Some(d@),
                None => None,
            },
            env_clear: self.env_clear,
            env_remove: os::os_views(self.env_remove@),
            envs: env_views(self.envs@),
        }
    }
}

impl SingleView {
    /// What a display shows of the stage.
    pub open spec fn shown(self) -> StageView {
        StageView { program: self.program, args: self.args }
    }
}

impl Clone for SingleCmd {
    fn clone(&self) -> (s: SingleCmd)
        ensures
            s@ == self@,
    {
        let mut envs: Vec<(OsText, OsText)> = Vec::new();
        let mut i: usize = 0;
        while i < self.envs.len()
            invariant
                i <= self.envs@.len(),
                envs@.len() == i,
                forall|k: int|
                    0 <= k < i ==> (#[trigger] envs@[k]).0@ == self.envs@[k].0@ && envs@[k].1@
                        == self.envs@[k].1@,
            decreases self.envs@.len() - i,
        {
            let copy = (self.envs[i].0.clone(), self.envs[i].1.clone());
            envs.push(copy);
            i += 1;
        }
        assert(env_views(envs@) =~= env_views(self.envs@));
        SingleCmd {
            program: self.program.clone(),
            args: os::clone_texts(&self.args),
            cwd: match &self.cwd {
                Some(d) => Some(d.clone()),
                None => None,
            },
            env_clear: self.env_clear,
            env_remove: os::clone_texts(&self.env_remove),
            envs,
        }
    }
}

/// The views of several stages.
pub open spec fn single_views(stages: Seq<SingleCmd>) -> Seq<SingleView> {
    stages.map_values(|s: SingleCmd| s@)
}

// ---------- pipelines ----------

/// A command, or two pipelines joined by a pipe.
pub enum CmdTree {
    Single(SingleCmd),
    Pipe(Box<CmdTree>, Box<CmdTree>),
}

impl CmdTree {
    /// The stages from left to right.
    pub open spec fn leaves(self) -> Seq<SingleCmd>
        decreases self,
    {
        match self {
            CmdTree::Single(s) => seq![s],
            CmdTree::Pipe(l, r) => l.leaves() + r.leaves(),
        }
    }

    /// The contents of the stages from left to right.
    pub open spec fn stages(self) -> Seq<SingleView> {
        single_views(self.leaves())
    }

    /// How many nodes the tree has.
    pub open spec fn nodes(self) -> nat
        decreases self,
    {
        match self {
            CmdTree::Single(_) => 1,
            CmdTree::Pipe(l, r) => 1 + l.nodes() + r.nodes(),
        }
    }

    /// There is at least one stage.
    pub proof fn lemma_has_a_stage(self)
        ensures
            self.leaves().len() >= 1,
        decreases self,
    {
        if let CmdTree::Pipe(l, r) = self {
            l.lemma_has_a_stage();
        }
    }

    /// The rightmost stage, to be changed in place.
    fn rightmost_mut(&mut self) -> (r: &mut SingleCmd)
        ensures
            old(self).leaves().len() >= 1,
            *r == old(self).leaves().last(),
            final(self).leaves() == old(self).leaves().drop_last().push(*final(r)),
        decreases *old(self),
    {
        match self {
            CmdTree::Single(s) => {
                assert(seq![*s].drop_last() =~= Seq::<SingleCmd>::empty());
                s
            },
            CmdTree::Pipe(l, r) => r.rightmost_mut(),
        }
    }

    /// The rightmost stage.
    fn rightmost(&self) -> (r: &SingleCmd)
        ensures
            self.leaves().len() >= 1,
            *r == self.leaves().last(),
        decreases self,
    {
        match self {
            CmdTree::Single(s) => s,
            CmdTree::Pipe(_, r) => r.rightmost(),
        }
    }
}

/// The stages that a stack of trees still holds, the top of the stack first.
spec fn pending(stack: Seq<CmdTree>) -> Seq<SingleCmd>
    decreases stack.len(),
{
    if stack.len() == 0 {
        Seq::empty()
    } else {
        stack.last().leaves() + pending(stack.drop_last())
    }
}

/// How many nodes a stack of trees holds.
spec fn weight(stack: Seq<CmdTree>) -> nat
    decreases stack.len(),
{
    if stack.len() == 0 {
        0
    } else {
        stack.last().nodes() + weight(stack.drop_last())
    }
}

/// Replacing a pipe on top of the stack by its two sides, the left one on
/// top, keeps what is pending and makes the stack lighter.
proof fn lemma_split_top(below: Seq<CmdTree>, l: CmdTree, r: CmdTree)
    ensures
        pending(below.push(r).push(l)) == l.leaves() + r.leaves() + pending(below),
        weight(below.push(r).push(l)) == l.nodes() + r.nodes() + weight(below),
{
    assert(below.push(r).push(l).drop_last() =~= below.push(r));
    assert(below.push(r).drop_last() =~= below);
    assert(pending(below.push(r)) == r.leaves() + pending(below));
    assert(weight(below.push(r)) == r.nodes() + weight(below));
    assert(l.leaves() + (r.leaves() + pending(below)) =~= l.leaves() + r.leaves() + pending(
        below,
    ));
}

/// Append the stages of a tree, from left to right, without recursion.
pub fn flatten_tree_owned(tree: CmdTree, out: &mut Vec<SingleCmd>)
    ensures
        final(out)@ == old(out)@ + tree.leaves(),
{
    let ghost leaves = tree.leaves();
    let mut stack: Vec<CmdTree> = Vec::new();
    stack.push(tree);
    proof {
        assert(stack@.drop_last() =~= Seq::<CmdTree>::empty());
        assert(pending(stack@.drop_last()) =~= Seq::<SingleCmd>::empty());
        assert(pending(stack@) =~= leaves);
    }
    while stack.len() > 0
        invariant
            out@ + pending(stack@) == old(out)@ + leaves,
        decreases weight(stack@),
    {
        let ghost before = out@;
        let ghost top = stack@.last();
        let node = stack.pop().unwrap();
        let ghost below = stack@;
        match node {
            CmdTree::Single(s) => {
                out.push(s);
                assert(out@ + pending(below) =~= before + (top.leaves() + pending(below)));
            },
            CmdTree::Pipe(l, r) => {
                proof {
                    lemma_split_top(below, *l, *r);
                    assert(before + (top.leaves() + pending(below)) == before + (l.leaves()
                        + r.leaves() + pending(below)));
                }
                stack.push(*r);
                stack.push(*l);
            },
        }
    }
    assert(pending(stack@) =~= Seq::<SingleCmd>::empty());
}

/// The trees behind several references.
spec fn derefs(stack: Seq<&CmdTree>) -> Seq<CmdTree> {
    stack.map_values(|t: &CmdTree| *t)
}

/// The stages behind several references.
pub open spec fn stage_derefs(stages: Seq<&SingleCmd>) -> Seq<SingleCmd> {
    stages.map_values(|s: &SingleCmd| *s)
}

impl CmdTree {
    /// The stages from left to right, without recursion.
    pub fn flatten(&self) -> (out: Vec<&SingleCmd>)
        ensures
            stage_derefs(out@) == self.leaves(),
    {
        let mut out: Vec<&SingleCmd> = Vec::new();
        let mut stack: Vec<&CmdTree> = Vec::new();
        stack.push(self);
        proof {
            assert(derefs(stack@) =~= seq![*self]);
            assert(seq![*self].drop_last() =~= Seq::<CmdTree>::empty());
            assert(pending(seq![*self].drop_last()) =~= Seq::<SingleCmd>::empty());
            assert(pending(seq![*self]) =~= self.leaves());
        }
        while stack.len() > 0
            invariant
                stage_derefs(out@) + pending(derefs(stack@)) == self.leaves(),
            decreases weight(derefs(stack@)),
        {
            let ghost whole = derefs(stack@);
            let ghost before = stage_derefs(out@);
            let node = stack.pop().unwrap();
            let ghost below = derefs(stack@);
            assert(whole.drop_last() =~= below);
            assert(whole.last() == *node);
            match node {
                CmdTree::Single(s) => {
                    out.push(s);
                    assert(stage_derefs(out@) =~= before.push(*s));
                    assert(before.push(*s) + pending(below) =~= before + (node.leaves() + pending(
                        below,
                    )));
                },
                CmdTree::Pipe(l, r) => {
                    stack.push(&**r);
                    stack.push(&**l);
                    proof {
                        lemma_split_top(below, **l, **r);
                        assert(derefs(stack@) =~= below.push(**r).push(**l));
                    }
                },
            }
        }
        assert(pending(derefs(stack@)) =~= Seq::<SingleCmd>::empty());
        out
    }
}

// ---------- the builder ----------

/// A hook of the host that runs before every spawn, by the number that the
/// host filed it under.
#[derive(Debug, Clone, Copy, PartialEq, Eq, Structural)]
pub struct HookHandle {
    pub id: u64,
}

/// Builder for one command or a pipeline.
pub struct Cmd {
    pub tree: CmdTree,
    pub stdin: Option<StdinData>,
    pub stdout_mode: Redirection,
    pub stderr_mode: Redirection,
    pub timeout: Option<Duration>,
    pub deadline: Option<Instant>,
    pub retry: Option<RetryPolicy>,
    pub before_spawn: Option<HookHandle>,
    pub secret: bool,
}

/// The contents of a [`Cmd`].
pub ghost struct CmdView {
    pub stages: Seq<SingleView>,
    pub stdin: Option<StdinView>,
    pub stdout_mode: Redirection,
    pub stderr_mode: Redirection,
    pub timeout: Option<Duration>,
    pub deadline: Option<Instant>,
    pub retry: Option<RetryPolicy>,
    pub before_spawn: Option<HookHandle>,
    pub secret: bool,
}

impl View for Cmd {
    type V = CmdView;

    open spec fn view(&self) -> CmdView {
        CmdView {
            stages: self.tree.stages(),
            stdin: stdin::stdin_view(self.stdin),
            stdout_mode: self.stdout_mode,
            stderr_mode: self.stderr_mode,
            timeout: self.timeout,
            deadline: self.deadline,
            retry: self.retry,
            before_spawn: self.before_spawn,
            secret: self.secret,
        }
    }
}

impl CmdView {
    /// The stage that the per-stage settings speak of.
    pub open spec fn rightmost(self) -> SingleView {
        self.stages.last()
    }

    /// The same command with another rightmost stage.
    pub open spec fn with_rightmost(self, stage: SingleView) -> CmdView {
        CmdView { stages: self.stages.drop_last().push(stage), ..self }
    }

    /// What a display shows of the command.
    pub open spec fn display(self) -> CmdDisplayView {
        CmdDisplayView {
            stages: self.stages.map_values(|s: SingleView| s.shown()),
            secret: self.secret,
        }
    }

    /// The two commands joined by a pipe: the stages of both, hidden if either
    /// was, with the other settings of the left one.
    pub open spec fn piped(self, next: CmdView) -> CmdView {
        CmdView {
            stages: self.stages + next.stages,
            secret: self.secret || next.secret,
            ..self
        }
    }
}

/// A stage with nothing but a program.
pub open spec fn bare(program: Seq<u8>) -> SingleView {
    SingleView {
        program,
        args: Seq::empty(),
        cwd: None,
        env_clear: false,
        env_remove: Seq::empty(),
        envs: Seq::empty(),
    }
}

impl Cmd {
    /// A command without arguments or settings: both streams are captured,
    /// there is no stdin, no time limit and no retry.
    pub fn new(program: OsText) -> (r: Cmd)
        ensures
            r@ == (CmdView {
                stages: seq![bare(program@)],
                stdin: None,
                stdout_mode: Redirection::Capture,
                stderr_mode: Redirection::Capture,
                timeout: None,
                deadline: None,
                retry: None,
                before_spawn: None,
                secret: false,
            }),
    {
        let single = SingleCmd {
            program,
            args: Vec::new(),
            cwd: None,
            env_clear: false,
            env_remove: Vec::new(),
            envs: Vec::new(),
        };
        assert(single@.args =~= Seq::<Seq<u8>>::empty());
        assert(single@.env_remove =~= Seq::<Seq<u8>>::empty());
        assert(single@.envs =~= Seq::<(Seq<u8>, Seq<u8>)>::empty());
        assert(single_views(seq![single]) =~= seq![bare(program@)]);
        Cmd {
            tree: CmdTree::Single(single),
            stdin: None,
            stdout_mode: Redirection::Capture,
            stderr_mode: Redirection::Capture,
            timeout: None,
            deadline: None,
            retry: None,
            before_spawn: None,
            secret: false,
        }
    }

    /// Add an argument to the rightmost stage.
    pub fn arg(self, arg: OsText) -> (r: Cmd)
        ensures
            r@ == self@.with_rightmost(
                SingleView { args: self@.rightmost().args.push(arg@), ..self@.rightmost() },
            ),
    {
        let mut cmd = self;
        let stage = cmd.tree.rightmost_mut();
        let ghost before = os::os_views(stage.args@);
        stage.args.push(arg);
        assert(os::os_views(stage.args@) =~= before.push(arg@));
        assert(cmd@.stages =~= self@.stages.drop_last().push(cmd@.stages.last()));
        cmd
    }

    /// Add several arguments to the rightmost stage.
    pub fn args(self, args: Vec<OsText>) -> (r: Cmd)
        ensures
            r@ == self@.with_rightmost(
                SingleView {
                    args: self@.rightmost().args + os::os_views(args@),
                    ..self@.rightmost()
                },
            ),
    {
        let mut cmd = self;
        let mut args = args;
        let ghost given = os::os_views(args@);
        let stage = cmd.tree.rightmost_mut();
        let ghost before = os::os_views(stage.args@);
        stage.args.append(&mut args);
        assert(os::os_views(stage.args@) =~= before + given);
        assert(cmd@.stages =~= self@.stages.drop_last().push(cmd@.stages.last()));
        cmd
    }

    /// Run the rightmost stage in a directory.
    pub fn in_dir(self, dir: OsText) -> (r: Cmd)
        ensures
            r@ == self@.with_rightmost(
                SingleView { cwd: Some(dir@), ..self@.rightmost() },
            ),
    {
        let mut cmd = self;
        let stage = cmd.tree.rightmost_mut();
        stage.cwd = Some(dir);
        assert(cmd@.stages =~= self@.stages.drop_last().push(cmd@.stages.last()));
        cmd
    }

    /// Set an environment variable of the rightmost stage.
    pub fn env(self, key: OsText, value: OsText) -> (r: Cmd)
        ensures
            r@ == self@.with_rightmost(
                SingleView {
                    envs: self@.rightmost().envs.push((key@, value@)),
                    ..self@.rightmost()
                },
            ),
    {
        let mut cmd = self;
        let stage = cmd.tree.rightmost_mut();
        let ghost before = env_views(stage.envs@);
        stage.envs.push((key, value));
        assert(env_views(stage.envs@) =~= before.push((key@, value@)));
        assert(cmd@.stages =~= self@.stages.drop_last().push(cmd@.stages.last()));
        cmd
    }

    /// Set several environment variables of the rightmost stage.
    pub fn envs(self, envs: Vec<(OsText, OsText)>) -> (r: Cmd)
        ensures
            r@ == self@.with_rightmost(
                SingleView {
                    envs: self@.rightmost().envs + env_views(envs@),
                    ..self@.rightmost()
                },
            ),
    {
        let mut cmd = self;
        let mut envs = envs;
        let ghost given = env_views(envs@);
        let stage = cmd.tree.rightmost_mut();
        let ghost before = env_views(stage.envs@);
        stage.envs.append(&mut envs);
        assert(env_views(stage.envs@) =~= before + given);
        assert(cmd@.stages =~= self@.stages.drop_last().push(cmd@.stages.last()));
        cmd
    }

    /// Drop an inherited environment variable of the rightmost stage.
    pub fn env_remove(self, key: OsText) -> (r: Cmd)
        ensures
            r@ == self@.with_rightmost(
                SingleView {
                    env_remove: self@.rightmost().env_remove.push(key@),
                    ..self@.rightmost()
                },
            ),
    {
        let mut cmd = self;
        let stage = cmd.tree.rightmost_mut();
        let ghost before = os::os_views(stage.env_remove@);
        stage.env_remove.push(key);
        assert(os::os_views(stage.env_remove@) =~= before.push(key@));
        assert(cmd@.stages =~= self@.stages.drop_last().push(cmd@.stages.last()));
        cmd
    }

    /// Start the rightmost stage from an empty environment.
    pub fn env_clear(self) -> (r: Cmd)
        ensures
            r@ == self@.with_rightmost(SingleView { env_clear: true, ..self@.rightmost() }),
    {
        let mut cmd = self;
        let stage = cmd.tree.rightmost_mut();
        stage.env_clear = true;
        assert(cmd@.stages =~= self@.stages.drop_last().push(cmd@.stages.last()));
        cmd
    }

    /// Feed the leftmost stage.
    pub fn stdin(self, data: StdinData) -> (r: Cmd)
        ensures
            r@ == (CmdView { stdin: Some(data@), ..self@ }),
    {
        Cmd { stdin: Some(data), ..self }
    }

    /// Route the rightmost stage's stdout.
    pub fn stdout(self, mode: Redirection) -> (r: Cmd)
        ensures
            r@ == (CmdView { stdout_mode: mode, ..self@ }),
    {
        Cmd { stdout_mode: mode, ..self }
    }

    /// Route every stage's stderr.
    pub fn stderr(self, mode: Redirection) -> (r: Cmd)
        ensures
            r@ == (CmdView { stderr_mode: mode, ..self@ }),
    {
        Cmd { stderr_mode: mode, ..self }
    }

    /// Write the rightmost stage's stdout to a file.
    pub fn stdout_file(self, f: FileHandle) -> (r: Cmd)
        ensures
            r@ == (CmdView { stdout_mode: Redirection::File(f), ..self@ }),
    {
        Cmd { stdout_mode: Redirection::file(f), ..self }
    }

    /// Write every stage's stderr to a file.
    pub fn stderr_file(self, f: FileHandle) -> (r: Cmd)
        ensures
            r@ == (CmdView { stderr_mode: Redirection::File(f), ..self@ }),
    {
        Cmd { stderr_mode: Redirection::file(f), ..self }
    }

    /// Bound each attempt.
    pub fn timeout(self, limit: Duration) -> (r: Cmd)
        ensures
            r@ == (CmdView { timeout: Some(limit), ..self@ }),
    {
        Cmd { timeout: Some(limit), ..self }
    }

    /// Bound the whole run, all attempts and the delays between them included.
    pub fn deadline(self, at: Instant) -> (r: Cmd)
        ensures
            r@ == (CmdView { deadline: Some(at), ..self@ }),
    {
        Cmd { deadline: Some(at), ..self }
    }

    /// Retry failed attempts.
    pub fn retry(self, policy: RetryPolicy) -> (r: Cmd)
        ensures
            r@ == (CmdView { retry: Some(policy), ..self@ }),
    {
        Cmd { retry: Some(policy), ..self }
    }

    /// Run a hook of the host before every spawn.
    pub fn before_spawn(self, hook: HookHandle) -> (r: Cmd)
        ensures
            r@ == (CmdView { before_spawn: Some(hook), ..self@ }),
    {
        Cmd { before_spawn: Some(hook), ..self }
    }

    /// Hide the arguments of every stage in displays.
    pub fn secret(self) -> (r: Cmd)
        ensures
            r@ == (CmdView { secret: true, ..self@ }),
    {
        Cmd { secret: true, ..self }
    }

    /// Choose which errors are retried. Without a policy so far, retries are
    /// spaced as by default.
    pub fn retry_when<F: Fn(&RunError) -> bool + Send + Sync + 'static>(self, f: F) -> (r: Cmd)
        requires
            forall|err: &RunError| #[trigger] call_requires(f, (err,)),
        ensures
            r@.retry matches Some(p) && {
                &&& p.spacing() == match self@.retry {
                    Some(old_policy) => old_policy.spacing(),
                    None => Spacing::Doubling(retry::default_spacing()),
                }
                &&& forall|err: RunError, answer: bool| #[trigger]
                    p.may_answer(err, answer) <==> call_ensures(f, (&err,), answer)
            },
            r@ == (CmdView { retry: r@.retry, ..self@ }),
    {
        let mut cmd = self;
        let policy = match cmd.retry.take() {
            Some(policy) => policy,
            None => RetryPolicy::default(),
        };
        cmd.retry = Some(policy.when(f));
        cmd
    }

    /// Pipe this command's stdout into `next`.
    pub fn pipe(self, next: Cmd) -> (r: Cmd)
        ensures
            r@ == self@.piped(next@),
    {
        let secret = self.secret || next.secret;
        let tree = CmdTree::Pipe(Box::new(self.tree), Box::new(next.tree));
        assert(tree.stages() =~= self@.stages + next@.stages);
        Cmd {
            tree,
            stdin: self.stdin,
            stdout_mode: self.stdout_mode,
            stderr_mode: self.stderr_mode,
            timeout: self.timeout,
            deadline: self.deadline,
            retry: self.retry,
            before_spawn: self.before_spawn,
            secret,
        }
    }

    /// A snapshot for display.
    pub fn display(&self) -> (d: CmdDisplay)
        ensures
            d@ == self@.display(),
    {
        let stages = self.tree.flatten();
        let ghost shown = self@.display().stages;
        proof {
            self.tree.lemma_has_a_stage();
            assert(stage_derefs(stages@) == self.tree.leaves());
            assert forall|k: int| 0 <= k < stages@.len() implies #[trigger] shown[k]
                == stages@[k]@.shown() by {
                assert(stage_derefs(stages@)[k] == *stages@[k]);
            }
            assert(shown.len() == stages@.len());
        }
        let mut d = CmdDisplay::new(
            stages[0].program.clone(),
            os::clone_texts(&stages[0].args),
            self.secret,
        );
        assert(d@.stages =~= shown.take(1));
        let mut i: usize = 1;
        while i < stages.len()
            invariant
                1 <= i <= stages@.len(),
                shown.len() == stages@.len(),
                forall|k: int|
                    0 <= k < stages@.len() ==> #[trigger] shown[k] == stages@[k]@.shown(),
                d@.stages == shown.take(i as int),
                d@.secret == self.secret,
            decreases stages@.len() - i,
        {
            d.push_stage(stages[i].program.clone(), os::clone_texts(&stages[i].args));
            assert(shown.take(i + 1) =~= shown.take(i as int).push(shown[i as int]));
            i += 1;
        }
        assert(shown.take(i as int) =~= shown);
        d
    }

    /// The rightmost stage.
    pub fn to_rightmost_command(&self) -> (s: &SingleCmd)
        ensures
            s@ == self@.rightmost(),
    {
        self.tree.rightmost()
    }

    /// A copy of every stage, leftmost first.
    pub fn to_commands(&self) -> (out: Vec<SingleCmd>)
        ensures
            out@.len() >= 1,
            single_views(out@) == self@.stages,
    {
        let stages = self.tree.flatten();
        let mut out: Vec<SingleCmd> = Vec::new();
        let mut i: usize = 0;
        while i < stages.len()
            invariant
                i <= stages@.len(),
                out@.len() == i,
                forall|k: int| 0 <= k < i ==> (#[trigger] out@[k])@ == stages@[k]@,
            decreases stages@.len() - i,
        {
            out.push(stages[i].clone());
            i += 1;
        }
        proof {
            self.tree.lemma_has_a_stage();
            let leaves = stage_derefs(stages@);
            assert(leaves == self.tree.leaves());
            assert(leaves.len() == stages@.len());
            assert forall|k: int| 0 <= k < out@.len() implies (#[trigger] out@[k])@
                == self@.stages[k] by {
                assert(leaves[k] == *stages@[k]);
            }
            assert(single_views(out@) =~= self@.stages);
        }
        out
    }
}

impl Clone for CmdTree {
    fn clone(&self) -> (t: CmdTree)
        ensures
            t.stages() == self.stages(),
        decreases self,
    {
        match self {
            CmdTree::Single(s) => {
                let copy = s.clone();
                assert(single_views(seq![copy]) =~= single_views(seq![*s]));
                CmdTree::Single(copy)
            },
            CmdTree::Pipe(l, r) => {
                let left = (&**l).clone();
                let right = (&**r).clone();
                let t = CmdTree::Pipe(Box::new(left), Box::new(right));
                assert(t.stages() =~= left.stages() + right.stages());
                assert(self.stages() =~= l.stages() + r.stages());
                t
            },
        }
    }
}

impl Clone for Cmd {
    fn clone(&self) -> (c: Cmd)
        ensures
            c@ == self@,
    {
        Cmd {
            tree: self.tree.clone(),
            stdin: match &self.stdin {
                Some(data) => Some(data.clone()),
                None => None,
            },
            stdout_mode: self.stdout_mode,
            stderr_mode: self.stderr_mode,
            timeout: self.timeout,
            deadline: self.deadline,
            retry: match &self.retry {
                Some(policy) => Some(policy.clone()),
                None => None,
            },
            before_spawn: self.before_spawn,
            secret: self.secret,
        }
    }
}

/// `a | b` is `a.pipe(b)`.
impl std::ops::BitOr<Cmd> for Cmd {
    type Output = Cmd;

    fn bitor(self, rhs: Cmd) -> (r: Cmd)
        ensures
            r@ == self@.piped(rhs@),
    {
        self.pipe(rhs)
    }
}

impl vstd::std_specs::ops::BitOrSpecImpl<Cmd> for Cmd {
    open spec fn obeys_bitor_spec() -> bool {
        false
    }

    open spec fn bitor_req(self, rhs: Cmd) -> bool {
        true
    }

    open spec fn bitor_spec(self, rhs: Cmd) -> Cmd {
        arbitrary()
    }
}

// ---------- laws ----------

/// Piping is associative: however a pipeline is put together, it has the same
/// stages and settings.
pub proof fn law_pipe_is_associative(a: CmdView, b: CmdView, c: CmdView)
    ensures
        a.piped(b).piped(c) == a.piped(b.piped(c)),
{
    assert(a.stages + b.stages + c.stages =~= a.stages + (b.stages + c.stages));
}

/// The display of a pipeline is that of its left part, ` | `, and that of its
/// right part, where both are hidden or neither is.
pub proof fn law_pipe_joins_displays(a: CmdView, b: CmdView)
    requires
        a.stages.len() >= 1,
        b.stages.len() >= 1,
        a.secret == b.secret,
    ensures
        a.piped(b).display().rendered() == a.display().rendered() + " | "@
            + b.display().rendered(),
    decreases b.stages.len(),
{
    let last = b.stages.last();
    let init = CmdView { stages: b.stages.drop_last(), ..b };
    let whole = a.piped(b);
    let front = a.piped(init);
    assert(whole.display().stages =~= front.display().stages.push(last.shown()));
    assert(b.display().stages =~= init.display().stages.push(last.shown()));
    crate::cmd_display::law_stage_extends_rendering(front.display(), last.shown());
    if init.stages.len() == 0 {
        assert(front.display().stages =~= a.display().stages);
        let f = |s: StageView| s.rendered(b.secret);
        assert(b.display().stages.map_values(f) =~= seq![last.shown().rendered(b.secret)]);
    } else {
        law_pipe_joins_displays(a, init);
        crate::cmd_display::law_stage_extends_rendering(init.display(), last.shown());
        let sep = " | "@;
        let (x, y, z) = (
            a.display().rendered(),
            init.display().rendered(),
            last.shown().rendered(a.secret),
        );
        assert(x + sep + y + sep + z =~= x + sep + (y + sep + z));
    }
}

/// A pipeline is hidden where either side of it was.
pub proof fn law_pipe_keeps_secrets(a: CmdView, b: CmdView)
    ensures
        a.secret || b.secret ==> a.piped(b).display().secret,
{
}

/// The stages of a tree are those of its left part and then those of its right
/// part, and a single command is its own only stage.
pub proof fn law_stages_stand_from_left_to_right(single: SingleCmd, l: CmdTree, r: CmdTree)
    ensures
        CmdTree::Single(single).leaves() == seq![single],
        CmdTree::Pipe(Box::new(l), Box::new(r)).leaves() == l.leaves() + r.leaves(),
        CmdTree::Single(single).stages() == seq![single@],
        CmdTree::Pipe(Box::new(l), Box::new(r)).stages() == l.stages() + r.stages(),
{
    assert(CmdTree::Single(single).stages() =~= seq![single@]);
    assert(CmdTree::Pipe(Box::new(l), Box::new(r)).stages() =~= l.stages() + r.stages());
}

/// A pipeline has the stages of both commands, the left ones first, is secret
/// if either was, and has every other setting from the left one.
pub proof fn law_pipe_has_both_commands_stages(a: CmdView, b: CmdView, i: int)
    ensures
        ({
            let p = a.piped(b);
            &&& p.stages.len() == a.stages.len() + b.stages.len()
            &&& 0 <= i < a.stages.len() ==> p.stages[i] == a.stages[i]
            &&& 0 <= i < b.stages.len() ==> p.stages[a.stages.len() + i] == b.stages[i]
            &&& p.secret <==> a.secret || b.secret
            &&& p.stdin == a.stdin
            &&& p.stdout_mode == a.stdout_mode
            &&& p.stderr_mode == a.stderr_mode
            &&& p.timeout == a.timeout
            &&& p.deadline == a.deadline
            &&& p.retry == a.retry
            &&& p.before_spawn == a.before_spawn
        }),
{
}

/// A per-stage setting touches the rightmost stage and nothing else; after a
/// pipe that is the last stage of the right command.
pub proof fn law_stage_settings_touch_the_rightmost_stage(
    c: CmdView,
    next: CmdView,
    stage: SingleView,
    i: int,
)
    requires
        c.stages.len() >= 1,
    ensures
        c.rightmost() == c.stages[c.stages.len() - 1],
        next.stages.len() >= 1 ==> c.piped(next).rightmost() == next.rightmost(),
        c.with_rightmost(stage).rightmost() == stage,
        c.with_rightmost(stage).stages.len() == c.stages.len(),
        0 <= i < c.stages.len() - 1 ==> c.with_rightmost(stage).stages[i] == c.stages[i],
        c.with_rightmost(c.rightmost()) == c,
        c.with_rightmost(stage) == (CmdView { stages: c.with_rightmost(stage).stages, ..c }),
{
    assert(c.with_rightmost(c.rightmost()).stages =~= c.stages);
}

/// A display shows the program and the arguments of every stage, in order, and
/// whether the command is secret; nothing else of a command shows in it.
pub proof fn law_display_shows_every_stage(c: CmdView, i: int)
    ensures
        c.display().stages.len() == c.stages.len(),
        c.display().secret == c.secret,
        0 <= i < c.stages.len() ==> {
            &&& c.display().stages[i].program == c.stages[i].program
            &&& c.display().stages[i].args == c.stages[i].args
        },
{
}

/// A bare stage has a program and nothing besides: no arguments, the parent's
/// directory and the parent's environment.
pub proof fn law_bare_stage_has_a_program_alone(program: Seq<u8>)
    ensures
        bare(program).program == program,
        bare(program).args.len() == 0,
        bare(program).cwd is None,
        !bare(program).env_clear,
        bare(program).env_remove.len() == 0,
        bare(program).envs.len() == 0,
{
}

/// The contents of a command are its settings and those of its stages.
pub proof fn law_command_contents(c: Cmd, s: SingleCmd, stages: Seq<SingleCmd>, i: int)
    ensures
        c@.stages == c.tree.stages(),
        c@.stdin == stdin::stdin_view(c.stdin),
        c@.stdout_mode == c.stdout_mode,
        c@.stderr_mode == c.stderr_mode,
        c@.timeout == c.timeout,
        c@.deadline == c.deadline,
        c@.retry == c.retry,
        c@.before_spawn == c.before_spawn,
        c@.secret == c.secret,
        s@.program == s.program@,
        s@.args == os::os_views(s.args@),
        s.cwd is None ==> s@.cwd is None,
        s.cwd matches Some(dir) ==> s@.cwd == Some(dir@),
        s@.env_clear == s.env_clear,
        s@.env_remove == os::os_views(s.env_remove@),
        s@.envs.len() == s.envs@.len(),
        0 <= i < s.envs@.len() ==> s@.envs[i] == (s.envs@[i].0@, s.envs@[i].1@),
        single_views(stages).len() == stages.len(),
        0 <= i < stages.len() ==> single_views(stages)[i] == stages[i]@,
{
}

/// A new command has one stage with nothing but its program, captures both
/// streams, and has no other setting.
pub proof fn law_new_commands_are_bare(program: OsText, r: Cmd)
    requires
        call_ensures(Cmd::new, (program,), r),
    ensures
        r@.stages.len() == 1,
        r@.stages[0].program == program.bytes@,
        r@.stages[0].args.len() == 0,
        r@.stages[0].cwd is None,
        !r@.stages[0].env_clear,
        r@.stages[0].env_remove.len() == 0,
        r@.stages[0].envs.len() == 0,
        r@.stdin is None,
        r@.stdout_mode is Capture,
        r@.stderr_mode is Capture,
        r@.timeout is None,
        r@.deadline is None,
        r@.retry is None,
        r@.before_spawn is None,
        !r@.secret,
{
}

/// Each setting of a stage is made on the last stage, where it adds what it was
/// given behind what is there, and changes nothing else of the command.
pub proof fn law_stage_settings_add_what_they_are_given(
    c: Cmd,
    text: OsText,
    value: OsText,
    texts: Vec<OsText>,
    pairs: Vec<(OsText, OsText)>,
    r: Cmd,
)
    ensures
        ({
            let before = c@.stages[c@.stages.len() - 1];
            let after = r@.stages[r@.stages.len() - 1];
            let rest_stays = {
                &&& r@.stages.len() == c@.stages.len()
                &&& r@.stages.drop_last() == c@.stages.drop_last()
                &&& r@ == CmdView { stages: r@.stages, ..c@ }
            };
            &&& c@.stages.len() >= 1 && call_ensures(Cmd::arg, (c, text), r) ==> {
                &&& rest_stays
                &&& after.args == before.args.push(text.bytes@)
                &&& after == SingleView { args: after.args, ..before }
            }
            &&& c@.stages.len() >= 1 && call_ensures(Cmd::args, (c, texts), r) ==> {
                &&& rest_stays
                &&& after.args.len() == before.args.len() + texts@.len()
                &&& forall|i: int|
                    0 <= i < before.args.len() ==> #[trigger] after.args[i] == before.args[i]
                &&& forall|i: int|
                    0 <= i < texts@.len() ==> after.args[before.args.len() + i] == (
                    #[trigger] texts@[i]).bytes@
                &&& after == SingleView { args: after.args, ..before }
            }
            &&& c@.stages.len() >= 1 && call_ensures(Cmd::in_dir, (c, text), r) ==> {
                &&& rest_stays
                &&& after.cwd == Some(text.bytes@)
                &&& after == SingleView { cwd: after.cwd, ..before }
            }
            &&& c@.stages.len() >= 1 && call_ensures(Cmd::env, (c, text, value), r) ==> {
                &&& rest_stays
                &&& after.envs == before.envs.push((text.bytes@, value.bytes@))
                &&& after == SingleView { envs: after.envs, ..before }
            }
            &&& c@.stages.len() >= 1 && call_ensures(Cmd::envs, (c, pairs), r) ==> {
                &&& rest_stays
                &&& after.envs.len() == before.envs.len() + pairs@.len()
                &&& forall|i: int|
                    0 <= i < before.envs.len() ==> #[trigger] after.envs[i] == before.envs[i]
                &&& forall|i: int|
                    0 <= i < pairs@.len() ==> after.envs[before.envs.len() + i] == (
                        (#[trigger] pairs@[i]).0.bytes@,
                        pairs@[i].1.bytes@,
                    )
                &&& after == SingleView { envs: after.envs, ..before }
            }
            &&& c@.stages.len() >= 1 && call_ensures(Cmd::env_remove, (c, text), r) ==> {
                &&& rest_stays
                &&& after.env_remove == before.env_remove.push(text.bytes@)
                &&& after == SingleView { env_remove: after.env_remove, ..before }
            }
            &&& c@.stages.len() >= 1 && call_ensures(Cmd::env_clear, (c,), r) ==> {
                &&& rest_stays
                &&& after == SingleView { env_clear: true, ..before }
            }
        }),
{
    let before = c@.stages[c@.stages.len() - 1];
    assert(c@.stages.last() == before);
    assert(c@.stages.drop_last().push(r@.stages.last()).drop_last() =~= c@.stages.drop_last());
    if c@.stages.len() >= 1 {
        assert forall|s: SingleView| #[trigger]
            c@.with_rightmost(s).stages.drop_last() == c@.stages.drop_last() by {
            assert(c@.with_rightmost(s).stages.drop_last() =~= c@.stages.drop_last());
        }
    }
}

/// Each setting of a command sets what it names and leaves the rest alone.
pub proof fn law_settings_set_what_they_name(
    c: Cmd,
    data: StdinData,
    mode: Redirection,
    f: FileHandle,
    limit: Duration,
    at: Instant,
    policy: RetryPolicy,
    hook: HookHandle,
    r: Cmd,
)
    ensures
        call_ensures(Cmd::stdin, (c, data), r) ==> r@ == (CmdView { stdin: Some(data@), ..c@ }),
        call_ensures(Cmd::stdout, (c, mode), r) ==> r@ == (CmdView { stdout_mode: mode, ..c@ }),
        call_ensures(Cmd::stderr, (c, mode), r) ==> r@ == (CmdView { stderr_mode: mode, ..c@ }),
        call_ensures(Cmd::stdout_file, (c, f), r) ==> r@ == (CmdView {
            stdout_mode: Redirection::File(f),
            ..c@
        }),
        call_ensures(Cmd::stderr_file, (c, f), r) ==> r@ == (CmdView {
            stderr_mode: Redirection::File(f),
            ..c@
        }),
        call_ensures(Cmd::timeout, (c, limit), r) ==> r@ == (CmdView {
            timeout: Some(limit),
            ..c@
        }),
        call_ensures(Cmd::deadline, (c, at), r) ==> r@ == (CmdView { deadline: Some(at), ..c@ }),
        call_ensures(Cmd::retry, (c, policy), r) ==> r@ == (CmdView { retry: Some(policy), ..c@ }),
        call_ensures(Cmd::before_spawn, (c, hook), r) ==> r@ == (CmdView {
            before_spawn: Some(hook),
            ..c@
        }),
        call_ensures(Cmd::secret, (c,), r) ==> r@ == (CmdView { secret: true, ..c@ }),
        call_ensures(Cmd::clone, (&c,), r) ==> r@ == c@,
{
}

/// Piping puts the stages of the right command behind those of the left one; the
/// whole is secret if either was, and everything else is the left command's.
pub proof fn law_piping_puts_stages_behind(a: Cmd, b: Cmd, r: Cmd)
    requires
        call_ensures(Cmd::pipe, (a, b), r),
    ensures
        r@.stages == a@.stages + b@.stages,
        r@.secret == (a@.secret || b@.secret),
        r@ == (CmdView { stages: r@.stages, secret: r@.secret, ..a@ }),
{
}

/// A command's display, its rightmost stage and its list of stages are those of
/// its contents.
pub proof fn law_commands_tell_their_stages(
    c: Cmd,
    d: CmdDisplay,
    last: &SingleCmd,
    all: Vec<SingleCmd>,
    i: int,
)
    ensures
        call_ensures(Cmd::display, (&c,), d) ==> {
            &&& d@.secret == c@.secret
            &&& d@.stages.len() == c@.stages.len()
            &&& 0 <= i < c@.stages.len() ==> {
                &&& d@.stages[i].program == c@.stages[i].program
                &&& d@.stages[i].args == c@.stages[i].args
            }
        },
        call_ensures(Cmd::to_rightmost_command, (&c,), last) ==> last@ == c@.stages[c@.stages.len()
            - 1],
        call_ensures(Cmd::to_commands, (&c,), all) ==> {
            &&& all@.len() == c@.stages.len()
            &&& 0 <= i < all@.len() ==> all@[i]@ == c@.stages[i]
        },
{
    if call_ensures(Cmd::to_commands, (&c,), all) {
        assert(single_views(all@).len() == all@.len());
        if 0 <= i < all@.len() {
            assert(single_views(all@)[i] == all@[i]@);
        }
    }
}

/// Choosing which errors are retried keeps the spacing of a policy that is
/// there, and otherwise sets the default one: three retries from a tenth of a
/// second on. The rest of the command stays.
pub proof fn law_choosing_errors_keeps_the_spacing<
    F: Fn(&RunError) -> bool + Send + Sync + 'static,
>(c: Cmd, f: F, r: Cmd, err: RunError, answer: bool)
    requires
        call_ensures(Cmd::retry_when::<F>, (c, f), r),
    ensures
        r@ == (CmdView { retry: r@.retry, ..c@ }),
        r@.retry matches Some(p) && {
            &&& p.may_answer(err, answer) <==> call_ensures(f, (&err,), answer)
            &&& c@.retry matches Some(q) ==> p.spacing() == q.spacing()
            &&& c@.retry is None ==> {
                &&& p.spacing() matches Spacing::Doubling(settings)
                &&& settings.min_delay == 100_000_000
                &&& settings.max_times == Some(3usize)
                &&& settings.jitter
            }
        },
{
}

/// Flattening a tree lists its stages from left to right, behind what is listed
/// already.
pub proof fn law_flattening_lists_from_left_to_right(
    tree: CmdTree,
    out: &mut Vec<SingleCmd>,
    nothing: (),
    refs: Vec<&SingleCmd>,
)
    ensures
        call_ensures(flatten_tree_owned, (tree, out), nothing) ==> final(out)@ == old(out)@
            + tree.leaves(),
        call_ensures(CmdTree::flatten, (&tree,), refs) ==> stage_derefs(refs@) == tree.leaves(),
{
}

/// The stages behind references are the stages themselves, in order.
pub proof fn law_references_keep_their_order(refs: Seq<&SingleCmd>, i: int)
    requires
        0 <= i < refs.len(),
    ensures
        stage_derefs(refs).len() == refs.len(),
        stage_derefs(refs)[i] == *refs[i],
{
}

/// The bar between two commands pipes the left one into the right one, and a
/// copy of a command, a tree or a stage has the same contents.
pub proof fn law_bars_pipe_and_copies_are_faithful(
    a: Cmd,
    b: Cmd,
    r: Cmd,
    tree: CmdTree,
    other_tree: CmdTree,
    stage: SingleCmd,
    other_stage: SingleCmd,
    text: OsText,
    other_text: OsText,
)
    ensures
        call_ensures(<Cmd as std::ops::BitOr<Cmd>>::bitor, (a, b), r) ==> {
            &&& r@.stages == a@.stages + b@.stages
            &&& r@.secret == (a@.secret || b@.secret)
            &&& r@ == CmdView { stages: r@.stages, secret: r@.secret, ..a@ }
        },
        call_ensures(CmdTree::clone, (&tree,), other_tree) ==> other_tree.stages()
            == tree.stages(),
        call_ensures(SingleCmd::clone, (&stage,), other_stage) ==> other_stage@ == stage@,
        call_ensures(OsText::clone, (&text,), other_text) ==> other_text@ == text@,
{
}

}
