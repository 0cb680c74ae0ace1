//! How the stages of a command are set up: their environment, and what their
//! standard streams are connected to.

use vstd::prelude::*;

use crate::cmd::{SingleCmd, SingleView};
use crate::os::OsText;
use crate::redirection::{FileHandle, Redirection};

verus! {

// ---------- environment ----------

/// One change to the environment that a child starts with.
pub enum EnvOp {
    /// Drop everything.
    Clear,
    Remove(OsText),
    /// Set a variable to a value.
    Put(OsText, OsText),
}

/// The contents of an [`EnvOp`].
pub ghost enum EnvOpView {
    Clear,
    Remove(Seq<u8>),
    Put(Seq<u8>, Seq<u8>),
}

impl View for EnvOp {
    type V = EnvOpView;

    open spec fn view(&self) -> EnvOpView {
        match self {
            EnvOp::Clear => EnvOpView::Clear,
            EnvOp::Remove(k) => EnvOpView::Remove(k@),
            EnvOp::Put(k, v) => EnvOpView::Put(k@, v@),
        }
    }
}

/// The views of several changes.
pub open spec fn env_op_views(ops: Seq<EnvOp>) -> Seq<EnvOpView> {
    ops.map_values(|op: EnvOp| op@)
}

/// The changes that a stage asks for, in order: first clearing, then what is
/// removed, then what is set.
pub open spec fn env_changes(stage: SingleView) -> Seq<EnvOpView> {
    (if stage.env_clear {
        seq![EnvOpView::Clear]
    } else {
        Seq::empty()
    }) + stage.env_remove.map_values(|k: Seq<u8>| EnvOpView::Remove(k)) + stage.envs.map_values(
        |e: (Seq<u8>, Seq<u8>)| EnvOpView::Put(e.0, e.1),
    )
}

/// An environment after one change.
pub open spec fn changed(env: Map<Seq<u8>, Seq<u8>>, op: EnvOpView) -> Map<Seq<u8>, Seq<u8>> {
    match op {
        EnvOpView::Clear => Map::empty(),
        EnvOpView::Remove(k) => env.remove(k),
        EnvOpView::Put(k, v) => env.insert(k, v),
    }
}

/// An environment after several changes, made in order.
pub open spec fn changed_all(env: Map<Seq<u8>, Seq<u8>>, ops: Seq<EnvOpView>) -> Map<
    Seq<u8>,
    Seq<u8>,
>
    decreases ops.len(),
{
    if ops.len() == 0 {
        env
    } else {
        changed(changed_all(env, ops.drop_last()), ops.last())
    }
}

/// The value that a list of settings gives a variable: the last one counts.
pub open spec fn last_setting(envs: Seq<(Seq<u8>, Seq<u8>)>, key: Seq<u8>) -> Option<Seq<u8>>
    decreases envs.len(),
{
    if envs.len() == 0 {
        None
    } else if envs.last().0 == key {
        Some(envs.last().1)
    } else {
        last_setting(envs.drop_last(), key)
    }
}

/// The value that a stage's child sees of a variable: what was set last, else
/// what it inherits, unless that was cleared or removed.
pub open spec fn seen_by_child(
    parent: Map<Seq<u8>, Seq<u8>>,
    stage: SingleView,
    key: Seq<u8>,
) -> Option<Seq<u8>> {
    match last_setting(stage.envs, key) {
        Some(v) => Some(v),
        None => if stage.env_clear || stage.env_remove.contains(key) || !parent.contains_key(key) {
            None
        } else {
            Some(parent[key])
        },
    }
}

/// The changes to a stage's environment, in the order in which they are made.
pub fn env_ops(stage: &SingleCmd) -> (ops: Vec<EnvOp>)
    ensures
        env_op_views(ops@) == env_changes(stage@),
{
    let mut ops: Vec<EnvOp> = Vec::new();
    let ghost removes = stage@.env_remove.map_values(|k: Seq<u8>| EnvOpView::Remove(k));
    let ghost puts = stage@.envs.map_values(|e: (Seq<u8>, Seq<u8>)| EnvOpView::Put(e.0, e.1));
    if stage.env_clear {
        ops.push(EnvOp::Clear);
    }
    let ghost start = env_op_views(ops@);
    assert(start =~= if stage@.env_clear {
        seq![EnvOpView::Clear]
    } else {
        Seq::empty()
    });
    assert(start + removes.take(0) =~= start);
    let mut i: usize = 0;
    while i < stage.env_remove.len()
        invariant
            i <= stage.env_remove@.len(),
            removes == stage@.env_remove.map_values(|k: Seq<u8>| EnvOpView::Remove(k)),
            env_op_views(ops@) == start + removes.take(i as int),
        decreases stage.env_remove@.len() - i,
    {
        let ghost before = env_op_views(ops@);
        ops.push(EnvOp::Remove(stage.env_remove[i].clone()));
        proof {
            assert(removes[i as int] == EnvOpView::Remove(stage.env_remove@[i as int]@));
            assert(env_op_views(ops@) =~= before.push(removes[i as int]));
            assert(start + removes.take(i + 1) =~= (start + removes.take(i as int)).push(
                removes[i as int],
            ));
        }
        i += 1;
    }
    assert(removes.take(i as int) =~= removes);
    assert(start + removes + puts.take(0) =~= start + removes);
    let mut i: usize = 0;
    while i < stage.envs.len()
        invariant
            i <= stage.envs@.len(),
            puts == stage@.envs.map_values(
                |e: (Seq<u8>, Seq<u8>)| EnvOpView::Put(e.0, e.1),
            ),
            env_op_views(ops@) == start + removes + puts.take(i as int),
        decreases stage.envs@.len() - i,
    {
        let ghost before = env_op_views(ops@);
        ops.push(EnvOp::Put(stage.envs[i].0.clone(), stage.envs[i].1.clone()));
        proof {
            assert(puts[i as int] == EnvOpView::Put(
                stage.envs@[i as int].0@,
                stage.envs@[i as int].1@,
            ));
            assert(env_op_views(ops@) =~= before.push(puts[i as int]));
            assert(start + removes + puts.take(i + 1) =~= (start + removes + puts.take(
                i as int,
            )).push(puts[i as int]));
        }
        i += 1;
    }
    assert(puts.take(i as int) =~= puts);
    ops
}

proof fn lemma_changed_all_concat(
    env: Map<Seq<u8>, Seq<u8>>,
    a: Seq<EnvOpView>,
    b: Seq<EnvOpView>,
)
    ensures
        changed_all(env, a + b) == changed_all(changed_all(env, a), b),
    decreases b.len(),
{
    if b.len() == 0 {
        assert(a + b =~= a);
    } else {
        assert((a + b).drop_last() =~= a + b.drop_last());
        lemma_changed_all_concat(env, a, b.drop_last());
    }
}

proof fn lemma_removes(env: Map<Seq<u8>, Seq<u8>>, keys: Seq<Seq<u8>>, key: Seq<u8>)
    ensures
        ({
            let after = changed_all(env, keys.map_values(|k: Seq<u8>| EnvOpView::Remove(k)));
            &&& after.contains_key(key) <==> env.contains_key(key) && !keys.contains(key)
            &&& after.contains_key(key) ==> after[key] == env[key]
        }),
    decreases keys.len(),
{
    let f = |k: Seq<u8>| EnvOpView::Remove(k);
    if keys.len() > 0 {
        assert(keys.map_values(f).drop_last() =~= keys.drop_last().map_values(f));
        lemma_removes(env, keys.drop_last(), key);
        assert(keys.contains(key) <==> keys.drop_last().contains(key) || keys.last() == key) by {
            if keys.contains(key) {
                let i = choose|i: int| 0 <= i < keys.len() && keys[i] == key;
                if i < keys.len() - 1 {
                    assert(keys.drop_last()[i] == key);
                }
            }
            if keys.drop_last().contains(key) {
                let i = choose|i: int|
                    0 <= i < keys.drop_last().len() && keys.drop_last()[i] == key;
                assert(keys[i] == key);
            }
        }
    }
}

proof fn lemma_puts(
    env: Map<Seq<u8>, Seq<u8>>,
    envs: Seq<(Seq<u8>, Seq<u8>)>,
    key: Seq<u8>,
)
    ensures
        ({
            let after = changed_all(
                env,
                envs.map_values(|e: (Seq<u8>, Seq<u8>)| EnvOpView::Put(e.0, e.1)),
            );
            match last_setting(envs, key) {
                Some(v) => after.contains_key(key) && after[key] == v,
                None => {
                    &&& after.contains_key(key) <==> env.contains_key(key)
                    &&& after.contains_key(key) ==> after[key] == env[key]
                },
            }
        }),
    decreases envs.len(),
{
    let f = |e: (Seq<u8>, Seq<u8>)| EnvOpView::Put(e.0, e.1);
    if envs.len() > 0 {
        assert(envs.map_values(f).drop_last() =~= envs.drop_last().map_values(f));
        lemma_puts(env, envs.drop_last(), key);
    }
}

/// The changes that a stage asks for give its child exactly the variables
/// that the stage's settings describe.
pub proof fn law_child_sees_the_described_environment(
    parent: Map<Seq<u8>, Seq<u8>>,
    stage: SingleView,
    key: Seq<u8>,
)
    ensures
        ({
            let env = changed_all(parent, env_changes(stage));
            match seen_by_child(parent, stage, key) {
                Some(v) => env.contains_key(key) && env[key] == v,
                None => !env.contains_key(key),
            }
        }),
{
    let clear = if stage.env_clear {
        seq![EnvOpView::Clear]
    } else {
        Seq::empty()
    };
    let removes = stage.env_remove.map_values(|k: Seq<u8>| EnvOpView::Remove(k));
    let puts = stage.envs.map_values(|e: (Seq<u8>, Seq<u8>)| EnvOpView::Put(e.0, e.1));
    lemma_changed_all_concat(parent, clear + removes, puts);
    lemma_changed_all_concat(parent, clear, removes);
    let base = changed_all(parent, clear);
    assert(base == if stage.env_clear {
        Map::empty()
    } else {
        parent
    }) by {
        reveal_with_fuel(changed_all, 2);
    }
    let kept = changed_all(base, removes);
    lemma_removes(base, stage.env_remove, key);
    lemma_puts(kept, stage.envs, key);
}

// ---------- streams ----------

/// What one standard stream of a child is connected to.
#[derive(Debug, Clone, Copy, PartialEq, Eq, Structural)]
pub enum Wire {
    /// Whatever the platform does by default.
    Untouched,
    /// A pipe whose other end the host holds.
    Piped,
    /// The parent's own stream.
    Inherit,
    /// Nothing.
    Null,
    /// A duplicate of a file of the host.
    File(FileHandle),
    /// The reading end of a pipe between two stages.
    PipeReader(usize),
    /// The writing end of a pipe between two stages.
    PipeWriter(usize),
}

/// The connection that a redirection asks for.
pub open spec fn redirected(mode: Redirection) -> Wire {
    match mode {
        Redirection::Capture => Wire::Piped,
        Redirection::Inherit => Wire::Inherit,
        Redirection::Null => Wire::Null,
        Redirection::File(f) => Wire::File(f),
    }
}

/// The connection that a redirection asks for.
pub fn wire_redirection(mode: Redirection) -> (w: Wire)
    ensures
        w == redirected(mode),
{
    match mode {
        Redirection::Capture => Wire::Piped,
        Redirection::Inherit => Wire::Inherit,
        Redirection::Null => Wire::Null,
        Redirection::File(f) => Wire::File(f),
    }
}

/// What the children are started for.
#[derive(Debug, Clone, Copy, PartialEq, Eq, Structural)]
pub enum Goal {
    /// To run to the end, their output collected.
    Run,
    /// To be handed to the caller, who reads stdout and may write stdin.
    Spawn,
}

/// How one stage is connected, and what the host does once it has started.
#[derive(Debug, Clone, Copy, PartialEq, Eq, Structural)]
pub struct StageWiring {
    pub stdin: Wire,
    pub stdout: Wire,
    pub stderr: Wire,
    /// The host feeds the attempt's input to this stage.
    pub feed_stdin: bool,
    /// The host collects this stage's stdout.
    pub drain_stdout: bool,
    /// The host collects this stage's stderr.
    pub drain_stderr: bool,
}

/// The setting in which all stages of a command are started.
#[derive(Debug, Clone, Copy, PartialEq, Eq, Structural)]
pub struct LaunchPlan {
    pub goal: Goal,
    /// How many stages there are.
    pub stages: usize,
    /// Whether there is input to feed.
    pub has_stdin: bool,
    pub stdout_mode: Redirection,
    pub stderr_mode: Redirection,
}

impl LaunchPlan {
    /// The connections of stage `i`: the first stage reads the input, each
    /// further one the stage before it; the last stage writes where stdout is
    /// routed, each earlier one to the stage after it.
    pub open spec fn wiring(self, i: int) -> StageWiring {
        let first = i == 0;
        let last = i == self.stages - 1;
        StageWiring {
            stdin: if !first {
                Wire::PipeReader((i - 1) as usize)
            } else if self.goal is Spawn || self.has_stdin {
                Wire::Piped
            } else {
                Wire::Untouched
            },
            stdout: if !last {
                Wire::PipeWriter(i as usize)
            } else if self.goal is Spawn {
                Wire::Piped
            } else {
                redirected(self.stdout_mode)
            },
            stderr: redirected(self.stderr_mode),
            feed_stdin: first && self.has_stdin,
            drain_stdout: last && self.goal is Run && self.stdout_mode is Capture,
            drain_stderr: self.stderr_mode is Capture,
        }
    }

    /// The connections of one stage.
    pub fn wire_stage(&self, i: usize) -> (w: StageWiring)
        requires
            i < self.stages,
        ensures
            w == self.wiring(i as int),
    {
        let first = i == 0;
        let last = i == self.stages - 1;
        let spawn = matches!(self.goal, Goal::Spawn);
        let stdin = if !first {
            Wire::PipeReader(i - 1)
        } else if spawn || self.has_stdin {
            Wire::Piped
        } else {
            Wire::Untouched
        };
        let stdout = if !last {
            Wire::PipeWriter(i)
        } else if spawn {
            Wire::Piped
        } else {
            wire_redirection(self.stdout_mode)
        };
        StageWiring {
            stdin,
            stdout,
            stderr: wire_redirection(self.stderr_mode),
            feed_stdin: first && self.has_stdin,
            drain_stdout: last && !spawn && self.stdout_mode.is_capture(),
            drain_stderr: self.stderr_mode.is_capture(),
        }
    }
}

/// Between any two neighbouring stages runs one pipe, the left one at its
/// writing and the right one at its reading end, and no other stage holds
/// either end.
pub proof fn law_pipes_join_neighbours(plan: LaunchPlan, pipe: usize, i: int)
    requires
        0 <= i < plan.stages,
        pipe < plan.stages - 1,
    ensures
        plan.wiring(i).stdout == Wire::PipeWriter(pipe) <==> i == pipe,
        plan.wiring(i).stdin == Wire::PipeReader(pipe) <==> i == pipe + 1,
        plan.wiring(i).stderr != Wire::PipeWriter(pipe),
{
}

/// What is piped to the host is also dealt with: a captured stream is drained,
/// and input is fed to the leftmost stage only.
pub proof fn law_captured_streams_are_drained(plan: LaunchPlan, i: int)
    requires
        0 <= i < plan.stages,
        plan.goal is Run,
    ensures
        plan.wiring(i).drain_stdout <==> plan.wiring(i).stdout == Wire::Piped,
        plan.wiring(i).drain_stderr <==> plan.wiring(i).stderr == Wire::Piped,
        plan.wiring(i).feed_stdin <==> plan.wiring(i).stdin == Wire::Piped,
        plan.wiring(i).feed_stdin ==> i == 0,
{
}

/// The changes stand in order: a clearing, if there is one, before everything
/// else, then each removal, then each setting, none left out and none added.
pub proof fn law_environment_changes_stand_in_order(stage: SingleView)
    ensures
        ({
            let ops = env_changes(stage);
            let start: nat = if stage.env_clear {
                1
            } else {
                0
            };
            let removed = start + stage.env_remove.len();
            &&& ops.len() == removed + stage.envs.len()
            &&& stage.env_clear ==> ops[0] is Clear
            &&& forall|i: int|
                0 <= i < stage.env_remove.len() ==> #[trigger] ops[start + i]
                    == EnvOpView::Remove(stage.env_remove[i])
            &&& forall|i: int|
                0 <= i < stage.envs.len() ==> #[trigger] ops[removed + i] == EnvOpView::Put(
                    stage.envs[i].0,
                    stage.envs[i].1,
                )
        }),
{
}

/// A change does to an environment what it says, and to no other variable.
pub proof fn law_changes_do_what_they_say(
    env: Map<Seq<u8>, Seq<u8>>,
    key: Seq<u8>,
    value: Seq<u8>,
    other: Seq<u8>,
)
    ensures
        !changed(env, EnvOpView::Clear).contains_key(other),
        !changed(env, EnvOpView::Remove(key)).contains_key(key),
        changed(env, EnvOpView::Put(key, value)).contains_key(key),
        changed(env, EnvOpView::Put(key, value))[key] == value,
        other != key ==> {
            &&& changed(env, EnvOpView::Remove(key)).contains_key(other) == env.contains_key(other)
            &&& changed(env, EnvOpView::Put(key, value)).contains_key(other) == env.contains_key(
                other,
            )
            &&& env.contains_key(other) ==> {
                &&& changed(env, EnvOpView::Remove(key))[other] == env[other]
                &&& changed(env, EnvOpView::Put(key, value))[other] == env[other]
            }
        },
{
}

/// Changes are made one after the other.
pub proof fn law_changes_are_made_in_turn(
    env: Map<Seq<u8>, Seq<u8>>,
    op: EnvOpView,
    a: Seq<EnvOpView>,
    b: Seq<EnvOpView>,
)
    ensures
        changed_all(env, Seq::empty()) == env,
        changed_all(env, seq![op]) == changed(env, op),
        changed_all(env, a + b) == changed_all(changed_all(env, a), b),
{
    assert(seq![op].drop_last() =~= Seq::empty());
    assert(changed_all(env, seq![op].drop_last()) == env);
    lemma_changed_all_concat(env, a, b);
}

/// In terms of the settings themselves: a variable that the stage sets has the
/// value that it was set to last; any other is the parent's, unless the stage
/// cleared the environment or removed the variable.
pub proof fn law_last_setting_wins(
    parent: Map<Seq<u8>, Seq<u8>>,
    stage: SingleView,
    key: Seq<u8>,
    i: int,
)
    ensures
        ({
            let env = changed_all(parent, env_changes(stage));
            &&& (0 <= i < stage.envs.len() && stage.envs[i].0 == key && forall|j: int|
                i < j < stage.envs.len() ==> (#[trigger] stage.envs[j]).0 != key) ==> {
                &&& env.contains_key(key)
                &&& env[key] == stage.envs[i].1
            }
            &&& (forall|j: int| 0 <= j < stage.envs.len() ==> (#[trigger] stage.envs[j]).0 != key)
                ==> {
                &&& env.contains_key(key) <==> parent.contains_key(key) && !stage.env_clear
                    && forall|j: int|
                    0 <= j < stage.env_remove.len() ==> #[trigger] stage.env_remove[j] != key
                &&& env.contains_key(key) ==> env[key] == parent[key]
            }
        }),
{
    law_child_sees_the_described_environment(parent, stage, key);
    lemma_last_setting_at(stage.envs, key, i);
    if stage.env_remove.contains(key) {
        let j = choose|j: int| 0 <= j < stage.env_remove.len() && stage.env_remove[j] == key;
        assert(stage.env_remove[j] == key);
    }
}

proof fn lemma_last_setting_at(envs: Seq<(Seq<u8>, Seq<u8>)>, key: Seq<u8>, i: int)
    ensures
        (0 <= i < envs.len() && envs[i].0 == key && forall|j: int|
            i < j < envs.len() ==> (#[trigger] envs[j]).0 != key) ==> last_setting(envs, key)
            == Some(envs[i].1),
        (forall|j: int| 0 <= j < envs.len() ==> (#[trigger] envs[j]).0 != key) ==> last_setting(
            envs,
            key,
        ) is None,
    decreases envs.len(),
{
    if envs.len() > 0 {
        let init = envs.drop_last();
        lemma_last_setting_at(init, key, i);
        if forall|j: int| 0 <= j < envs.len() ==> (#[trigger] envs[j]).0 != key {
            assert forall|j: int| 0 <= j < init.len() implies (#[trigger] init[j]).0 != key by {
                assert(envs[j].0 != key);
            }
            assert(envs[envs.len() - 1].0 != key);
        }
        if 0 <= i < envs.len() && envs[i].0 == key && forall|j: int|
            i < j < envs.len() ==> (#[trigger] envs[j]).0 != key {
            if i < envs.len() - 1 {
                assert(envs[envs.len() - 1].0 != key);
                assert forall|j: int| i < j < init.len() implies (#[trigger] init[j]).0 != key by {
                    assert(envs[j].0 != key);
                }
            }
        }
    }
}

/// Each redirection goes to the one place that it names.
pub proof fn law_redirections_go_where_they_say(f: FileHandle)
    ensures
        redirected(Redirection::Capture) is Piped,
        redirected(Redirection::Inherit) is Inherit,
        redirected(Redirection::Null) is Null,
        redirected(Redirection::File(f)) == Wire::File(f),
{
}

/// Every stage's stderr goes where stderr is routed, and the last stage's stdout
/// where stdout is routed, unless the handle needs it. The first stage reads
/// what is fed to it, or the handle's pipe; where there is neither, its stdin is
/// left alone. Streams are collected exactly where they are captured.
pub proof fn law_streams_go_where_they_are_routed(plan: LaunchPlan, i: int)
    requires
        0 <= i < plan.stages,
    ensures
        ({
            let w = plan.wiring(i);
            &&& match plan.stderr_mode {
                Redirection::Capture => w.stderr is Piped && w.drain_stderr,
                Redirection::Inherit => w.stderr is Inherit && !w.drain_stderr,
                Redirection::Null => w.stderr is Null && !w.drain_stderr,
                Redirection::File(f) => w.stderr == Wire::File(f) && !w.drain_stderr,
            }
            &&& i == plan.stages - 1 && plan.goal is Run ==> match plan.stdout_mode {
                Redirection::Capture => w.stdout is Piped && w.drain_stdout,
                Redirection::Inherit => w.stdout is Inherit && !w.drain_stdout,
                Redirection::Null => w.stdout is Null && !w.drain_stdout,
                Redirection::File(f) => w.stdout == Wire::File(f) && !w.drain_stdout,
            }
            &&& i == plan.stages - 1 && plan.goal is Spawn ==> w.stdout is Piped
            &&& i < plan.stages - 1 || plan.goal is Spawn ==> !w.drain_stdout
            &&& i < plan.stages - 1 ==> w.stdout == Wire::PipeWriter(i as usize)
            &&& i > 0 ==> w.stdin == Wire::PipeReader((i - 1) as usize) && !w.feed_stdin
            &&& i == 0 ==> w.feed_stdin == plan.has_stdin
            &&& i == 0 && (plan.has_stdin || plan.goal is Spawn) ==> w.stdin is Piped
            &&& i == 0 && !plan.has_stdin && plan.goal is Run ==> w.stdin is Untouched
        }),
{
}

/// A change's contents are what it holds, and those of several stay in order.
pub proof fn law_change_contents(ops: Seq<EnvOp>, i: int, key: OsText, value: OsText)
    requires
        0 <= i < ops.len(),
    ensures
        EnvOp::Clear@ is Clear,
        EnvOp::Remove(key)@ == EnvOpView::Remove(key@),
        EnvOp::Put(key, value)@ == EnvOpView::Put(key@, value@),
        env_op_views(ops).len() == ops.len(),
        env_op_views(ops)[i] == ops[i]@,
{
}

/// The changes to a stage's environment, as they are listed: applied in order to
/// any environment they leave what the stage describes, with the last setting of
/// a variable in force.
pub proof fn law_listed_changes_give_the_environment(
    stage: &SingleCmd,
    ops: Vec<EnvOp>,
    parent: Map<Seq<u8>, Seq<u8>>,
    key: Seq<u8>,
    i: int,
)
    requires
        call_ensures(env_ops, (stage,), ops),
    ensures
        ({
            let env = changed_all(parent, env_op_views(ops@));
            let envs = stage@.envs;
            &&& (0 <= i < envs.len() && envs[i].0 == key && forall|j: int|
                i < j < envs.len() ==> (#[trigger] envs[j]).0 != key) ==> {
                &&& env.contains_key(key)
                &&& env[key] == envs[i].1
            }
            &&& (forall|j: int| 0 <= j < envs.len() ==> (#[trigger] envs[j]).0 != key) ==> {
                &&& env.contains_key(key) <==> parent.contains_key(key) && !stage@.env_clear
                    && forall|j: int|
                    0 <= j < stage@.env_remove.len() ==> #[trigger] stage@.env_remove[j] != key
                &&& env.contains_key(key) ==> env[key] == parent[key]
            }
        }),
{
    law_last_setting_wins(parent, stage@, key, i);
}

/// A stage, as it is connected: to the stage before it and the stage after it,
/// at the ends to where the command's streams are routed, or to the host where
/// it feeds, collects or hands out a stream.
pub proof fn law_stages_are_connected_as_routed(
    plan: &LaunchPlan,
    i: usize,
    w: StageWiring,
    mode: Redirection,
    wire: Wire,
)
    requires
        i < plan.stages,
    ensures
        call_ensures(wire_redirection, (mode,), wire) ==> match mode {
            Redirection::Capture => wire is Piped,
            Redirection::Inherit => wire is Inherit,
            Redirection::Null => wire is Null,
            Redirection::File(f) => wire == Wire::File(f),
        },
        call_ensures(LaunchPlan::wire_stage, (plan, i), w) ==> {
            let last = i + 1 == plan.stages;
            &&& w.stderr == redirected(plan.stderr_mode)
            &&& w.drain_stderr == (plan.stderr_mode is Capture)
            &&& !last ==> w.stdout == Wire::PipeWriter(i)
            &&& last && plan.goal is Spawn ==> w.stdout is Piped
            &&& last && plan.goal is Run ==> w.stdout == redirected(plan.stdout_mode)
            &&& w.drain_stdout == (last && plan.goal is Run && plan.stdout_mode is Capture)
            &&& i > 0 ==> (w.stdin matches Wire::PipeReader(pipe) && pipe + 1 == i)
            &&& i == 0 && (plan.has_stdin || plan.goal is Spawn) ==> w.stdin is Piped
            &&& i == 0 && !plan.has_stdin && plan.goal is Run ==> w.stdin is Untouched
            &&& w.feed_stdin == (i == 0 && plan.has_stdin)
        },
{
}

}
