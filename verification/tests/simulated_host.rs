//! Whole runs and spawns, driven by a host that simulates the operating system.
//!
//! The host makes no system call. It knows a few programs, keeps its own clock,
//! and carries out what the library asks for: opening pipes, starting stages,
//! waiting, killing, pausing between attempts.

use std::sync::{Arc, Mutex};

use procpilot::async_spawned::Race;
use procpilot::cmd::{HookHandle, SingleCmd};
use procpilot::handle::{Patience, PollAction, WaitStart};
use procpilot::launch::{Launch, LaunchAction};
use procpilot::os::{ExitStatus, IoError, IoErrorKind, OsText};
use procpilot::plan::{env_ops, EnvOp, StageWiring, Wire};
use procpilot::redirection::FileHandle;
use procpilot::run::{Attempt, Run, RunStep};
use procpilot::runner::{binary_available, binary_version, version_probe};
use procpilot::stdin::{AsyncStdinForAttempt, ReaderSlots};
use procpilot::time::{Duration, Instant};
use procpilot::wait::{WaitAction, WaitEvent, Waiting};
use procpilot::{
    AsyncSpawnedProcess, Cmd, DefaultRunner, Redirection, RetryPolicy, RunError, RunOutput,
    SpawnedProcess, StdinData,
};

const PP_ECHO: &str = "pp_echo";
const PP_CAT: &str = "pp_cat";
const PP_SLEEP: &str = "pp_sleep";
const PP_STATUS: &str = "pp_status";
const PP_PRINT_ENV: &str = "pp_print_env";
const PP_PRINT_ENV_MULTI: &str = "pp_print_env_multi";
const PP_PWD: &str = "pp_pwd";
const PP_SPAM: &str = "pp_spam";

const MS: u128 = 1_000_000;

// ---------- the host ----------

type Env = Vec<(String, String)>;
type Hook = Box<dyn Fn(&mut Env) -> Result<(), IoError>>;

struct Child {
    out: Vec<u8>,
    err: Vec<u8>,
    status: ExitStatus,
    ends: u128,
    killed: bool,
}

struct Host {
    now: u128,
    slots: ReaderSlots,
    readers: Vec<Vec<u8>>,
    hooks: Vec<Hook>,
    env: Env,
    next_pid: u32,
    pipes_opened: usize,
    fail_pipes: bool,
    fail_cat: bool,
    /// When the caller cancels.
    cancel_at: Option<u128>,
    kills: usize,
    stops: usize,
    pauses: Vec<u128>,
    attempts: usize,
}

fn os(s: &str) -> OsText {
    OsText::from_str(s)
}

fn text(t: &OsText) -> String {
    t.to_string_lossy()
}

fn cmd(program: &str, args: &[&str]) -> Cmd {
    Cmd::new(os(program)).args(args.iter().map(|s| os(s)).collect())
}

fn ok<T>(r: Result<T, RunError>) -> T {
    match r {
        Ok(v) => v,
        Err(e) => panic!("{}", e.message("?")),
    }
}

fn err<T>(r: Result<T, RunError>) -> RunError {
    match r {
        Ok(_) => panic!("expected an error"),
        Err(e) => e,
    }
}

/// What a program does: its stdout, stderr, exit code, and how long it takes.
fn execute(
    single: &SingleCmd,
    env: &Env,
    input: &[u8],
) -> Result<(Vec<u8>, Vec<u8>, i32, u128), IoError> {
    let args: Vec<String> = single.args.iter().map(text).collect();
    let get = |key: &String| {
        env.iter().find(|e| e.0 == *key).map(|e| e.1.clone()).unwrap_or_default()
    };
    if single.cwd.as_ref().map(text) == Some("/nonexistent_dir_xyz_42".to_string()) {
        return Err(IoError::new(IoErrorKind::NotFound, "no such directory"));
    }
    let first = args.first().cloned().unwrap_or_default();
    match text(&single.program).as_str() {
        PP_ECHO => Ok((format!("{}\n", args.join(" ")).into_bytes(), vec![], 0, 0)),
        PP_CAT => Ok((input.to_vec(), vec![], 0, 0)),
        PP_SLEEP => Ok((vec![], vec![], 0, first.parse::<u128>().unwrap_or(0) * MS)),
        PP_PRINT_ENV => Ok((format!("{}\n", get(&first)).into_bytes(), vec![], 0, 0)),
        PP_PRINT_ENV_MULTI => {
            let values: Vec<String> = args.iter().map(get).collect();
            Ok((format!("{}\n", values.join(" ")).into_bytes(), vec![], 0, 0))
        }
        PP_PWD => {
            let cwd = single.cwd.as_ref().map(text).unwrap_or("/".to_string());
            Ok((format!("{cwd}\n").into_bytes(), vec![], 0, 0))
        }
        PP_SPAM => Ok((vec![b'A'; first.parse().unwrap_or(0)], vec![], 0, 0)),
        PP_STATUS => {
            let (mut out, mut err, mut sleep) = (vec![], vec![], 0u128);
            let mut rest = args.iter().skip(1);
            while let Some(flag) = rest.next() {
                let value = rest.next().cloned().unwrap_or_default();
                match flag.as_str() {
                    "--out" => out.extend(format!("{value}\n").into_bytes()),
                    "--err" => err.extend(format!("{value}\n").into_bytes()),
                    "--sleep-ms" => sleep = value.parse::<u128>().unwrap_or(0) * MS,
                    _ => {}
                }
            }
            Ok((out, err, first.parse().unwrap_or(0), sleep))
        }
        _ => Err(IoError::new(IoErrorKind::NotFound, "no such program")),
    }
}

impl Host {
    fn new() -> Host {
        Host {
            now: 1_000 * MS,
            slots: ReaderSlots::new(),
            readers: Vec::new(),
            hooks: Vec::new(),
            env: vec![("HOME".to_string(), "/home/someone".to_string())],
            next_pid: 100,
            pipes_opened: 0,
            fail_pipes: false,
            fail_cat: false,
            cancel_at: None,
            kills: 0,
            stops: 0,
            pauses: Vec::new(),
            attempts: 0,
        }
    }

    fn reader(&mut self, bytes: &[u8]) -> procpilot::stdin::ReaderSlot {
        self.readers.push(bytes.to_vec());
        self.slots.register()
    }

    fn hook(&mut self, f: impl Fn(&mut Env) -> Result<(), IoError> + 'static) -> HookHandle {
        self.hooks.push(Box::new(f));
        HookHandle { id: self.hooks.len() as u64 - 1 }
    }

    fn feed(&self, share: &AsyncStdinForAttempt) -> Vec<u8> {
        match share {
            AsyncStdinForAttempt::Nothing => vec![],
            AsyncStdinForAttempt::Bytes(b) => b.clone(),
            AsyncStdinForAttempt::Reader(slot) | AsyncStdinForAttempt::AsyncReader(slot) => {
                self.readers[slot.index].clone()
            }
        }
    }

    fn environment(&self, single: &SingleCmd) -> Env {
        let mut env = self.env.clone();
        for op in env_ops(single) {
            match op {
                EnvOp::Clear => env.clear(),
                EnvOp::Remove(k) => env.retain(|e| e.0 != text(&k)),
                EnvOp::Put(k, v) => {
                    env.retain(|e| e.0 != text(&k));
                    env.push((text(&k), text(&v)));
                }
            }
        }
        env
    }

    fn start(
        &mut self,
        stage: usize,
        wiring: StageWiring,
        single: &SingleCmd,
        hook: Option<HookHandle>,
        fed: &[u8],
        children: &[Child],
    ) -> Result<Child, IoError> {
        let mut env = self.environment(single);
        if let Some(h) = hook {
            self.hooks[h.id as usize](&mut env)?;
        }
        let (input, ready): (Vec<u8>, u128) = match wiring.stdin {
            Wire::PipeReader(pipe) => {
                assert_eq!(pipe + 1, stage);
                (children[pipe].out.clone(), children[pipe].ends)
            }
            _ => (fed.to_vec(), self.now),
        };
        let (out, err, mut code, takes) = execute(single, &env, &input)?;
        if self.fail_cat && text(&single.program) == PP_CAT {
            code = 1;
        }
        // A program that reads its input ends no earlier than the one before it.
        let reads = text(&single.program) == PP_CAT;
        let begins = if reads { ready } else { self.now };
        Ok(Child {
            out,
            err,
            status: ExitStatus::from_raw(code << 8),
            ends: begins + takes,
            killed: false,
        })
    }

    /// Carry out a launch. What was started before a failure is killed.
    fn launch(
        &mut self,
        launch: &mut Launch,
        stages: &[SingleCmd],
        hook: Option<HookHandle>,
        fed: &[u8],
    ) -> Result<(Vec<Child>, Vec<StageWiring>), RunError> {
        let mut children: Vec<Child> = Vec::new();
        let mut wirings = Vec::new();
        let mut failure = None;
        loop {
            let done = match launch.next() {
                LaunchAction::OpenPipe { pipe } => {
                    assert_eq!(pipe, self.pipes_opened);
                    if self.fail_pipes {
                        Err(IoError::other("too many open files"))
                    } else {
                        self.pipes_opened += 1;
                        Ok(())
                    }
                }
                LaunchAction::Start { stage, wiring } => {
                    assert_eq!(stage, children.len());
                    match self.start(stage, wiring, &stages[stage], hook, fed, &children) {
                        Ok(child) => {
                            children.push(child);
                            wirings.push(wiring);
                            Ok(())
                        }
                        Err(e) => Err(e),
                    }
                }
                LaunchAction::Ready => {
                    self.pipes_opened = 0;
                    return Ok((children, wirings));
                }
                LaunchAction::Abandon { launched } => {
                    assert_eq!(launched, children.len());
                    assert_eq!(launched, launch.launched());
                    self.kills += launched;
                    self.pipes_opened = 0;
                    // The launch is over, whatever is reported now.
                    assert!(launch.step(Ok(())).is_ok());
                    assert_eq!(launch.next(), LaunchAction::Abandon { launched });
                    return Err(failure.unwrap());
                }
            };
            failure = launch.step(done).err();
        }
    }

    fn carry_out(&mut self, run: &Run, mut attempt: Attempt) -> Result<RunOutput, RunError> {
        self.attempts += 1;
        let fed = self.feed(&attempt.take_stdin());
        let stages: Vec<SingleCmd> = run.stages().into_iter().cloned().collect();
        let (mut children, wirings) =
            self.launch(&mut attempt.launch, &stages, run.before_spawn(), &fed)?;
        let begun = self.now;
        let mut waiting = attempt.waiting();
        loop {
            let event = match waiting.next() {
                WaitAction::ReadClock => WaitEvent::Clock(Duration { nanos: self.now - begun }),
                WaitAction::Wait { stage, limit } => {
                    let ends = children[stage].ends.max(self.now);
                    let until = match limit {
                        Some(l) => ends.min(self.now + l.nanos),
                        None => ends,
                    };
                    match limit {
                        _ if self.cancel_at.is_some_and(|at| at < until) => {
                            self.now = self.now.max(self.cancel_at.unwrap());
                            WaitEvent::Cancelled
                        }
                        Some(l) if self.now + l.nanos < ends => {
                            self.now += l.nanos;
                            WaitEvent::Expired
                        }
                        _ => {
                            self.now = ends;
                            WaitEvent::Exited(children[stage].status)
                        }
                    }
                }
                WaitAction::Kill { stage } => {
                    children[stage].killed = true;
                    self.kills += 1;
                    WaitEvent::Killed(Duration { nanos: self.now - begun })
                }
                WaitAction::Stop { stage } => {
                    children[stage].killed = true;
                    self.stops += 1;
                    WaitEvent::Stopped
                }
                WaitAction::Collect => break,
            };
            waiting = waiting.step(event);
        }
        let last = children.len() - 1;
        let stdout = if wirings[last].drain_stdout { Some(children[last].out.clone()) } else { None };
        let stderr = (0..children.len())
            .filter(|i| wirings[*i].drain_stderr)
            .map(|i| Some(children[i].err.clone()))
            .collect();
        waiting.finish(run.command(), stdout, stderr)
    }

    fn drive(&mut self, mut run: Run) -> Result<RunOutput, RunError> {
        loop {
            if self.cancel_at.is_some_and(|at| at <= self.now) {
                return Err(run.cancel());
            }
            let attempt = run.begin_attempt(Instant { nanos: self.now }, &mut self.slots)?;
            let result = self.carry_out(&run, attempt);
            match run.end_attempt(Instant { nanos: self.now }, result) {
                RunStep::Return(r) => return r,
                RunStep::Sleep(d) => {
                    self.pauses.push(d.nanos);
                    self.now += d.nanos;
                }
            }
        }
    }

    fn run(&mut self, c: Cmd) -> Result<RunOutput, RunError> {
        let run = DefaultRunner.run(c)?;
        self.drive(run)
    }

    fn run_async(&mut self, c: Cmd) -> Result<RunOutput, RunError> {
        self.drive(c.run_async())
    }

    fn spawn(&mut self, c: Cmd) -> Result<Proc, RunError> {
        let mut spawning = c.spawn(&mut self.slots)?;
        let fed = self.feed(&spawning.take_stdin());
        let (children, wirings) =
            self.launch(&mut spawning.launch, &spawning.stages, spawning.before_spawn, &fed)?;
        assert_eq!(wirings[0].stdin, Wire::Piped);
        assert_eq!(wirings[children.len() - 1].stdout, Wire::Piped);
        let pids: Vec<u32> = children.iter().map(|_| self.pid()).collect();
        let stages = spawning.stages.clone();
        Ok(Proc { handle: spawning.into_handle(pids), children, stages })
    }

    fn spawn_async(&mut self, c: Cmd) -> Result<AsyncProc, RunError> {
        let mut spawning = c.spawn_async(&mut self.slots)?;
        let fed = self.feed(&spawning.take_stdin());
        let (children, _) =
            self.launch(&mut spawning.launch, &spawning.stages, spawning.before_spawn, &fed)?;
        let ids = children.iter().map(|_| Some(self.pid())).collect();
        let stages = spawning.stages.clone();
        Ok(AsyncProc { handle: spawning.into_async_handle(), children, ids, stages })
    }

    fn pid(&mut self) -> u32 {
        self.next_pid += 1;
        self.next_pid
    }
}

/// Type bytes into the leftmost of several programs and close its stdin.
fn write_stdin(children: &mut [Child], stages: &[SingleCmd], bytes: &[u8]) {
    let mut input = bytes.to_vec();
    for (child, single) in children.iter_mut().zip(stages) {
        let Ok((out, _, _, _)) = execute(single, &vec![], &input) else { panic!("known program") };
        child.out = out.clone();
        input = out;
    }
}

/// Ask one child for its end.
fn poll(child: &Child, patience: Patience, now: &mut u128) -> Option<ExitStatus> {
    match patience {
        Patience::NoWait if child.ends > *now => None,
        Patience::UpTo(limit) if *now + limit.nanos < child.ends => {
            *now += limit.nanos;
            None
        }
        _ => {
            *now = child.ends.max(*now);
            Some(child.status)
        }
    }
}

struct Proc {
    handle: SpawnedProcess,
    children: Vec<Child>,
    stages: Vec<SingleCmd>,
}

impl Proc {
    fn follow(&mut self, start: WaitStart, host: &mut Host) -> Result<Option<RunOutput>, RunError> {
        let mut polling = match start {
            WaitStart::Cached(r) => return r.map(Some),
            WaitStart::Poll(p) => p,
        };
        let begun = host.now;
        loop {
            match polling.next(Duration { nanos: host.now - begun }) {
                PollAction::Poll { stage, patience } => {
                    let report = Ok(poll(&self.children[stage], patience, &mut host.now));
                    match polling.step(self.handle.command(), report)? {
                        Some(p) => polling = p,
                        None => return Ok(None),
                    }
                }
                PollAction::Finalize => {
                    let stdout = match self.handle.drain_remaining_stdout() {
                        Some(stage) => std::mem::take(&mut self.children[stage].out),
                        None => vec![],
                    };
                    let stderr = self.children.iter().map(|c| Some(c.err.clone())).collect();
                    let statuses = polling.into_statuses();
                    return self.handle.finalize_or_cached(statuses, stdout, stderr).map(Some);
                }
            }
        }
    }

    fn wait(&mut self, host: &mut Host) -> Result<RunOutput, RunError> {
        let start = self.handle.wait();
        self.follow(start, host).map(|out| out.unwrap())
    }

    fn try_wait(&mut self, host: &mut Host) -> Result<Option<RunOutput>, RunError> {
        let start = self.handle.try_wait();
        self.follow(start, host)
    }

    fn wait_timeout(
        &mut self,
        limit: Duration,
        host: &mut Host,
    ) -> Result<Option<RunOutput>, RunError> {
        let start = self.handle.wait_timeout(limit);
        self.follow(start, host)
    }

    fn kill(&mut self, host: &mut Host) -> Result<(), IoError> {
        let results = self.children.iter_mut().map(|c| {
            c.killed = true;
            c.ends = host.now;
            c.status = ExitStatus::from_raw(9);
            Ok(())
        });
        self.handle.kill(results.collect())
    }

    /// Read through the handle to the end of the stream.
    fn read_to_end(&mut self) -> Vec<u8> {
        match self.handle.read_stdout() {
            Some(stage) => std::mem::take(&mut self.children[stage].out),
            None => vec![],
        }
    }

    fn write_stdin(&mut self, bytes: &[u8]) {
        write_stdin(&mut self.children, &self.stages, bytes);
    }
}

struct AsyncProc {
    handle: AsyncSpawnedProcess,
    children: Vec<Child>,
    ids: Vec<Option<u32>>,
    stages: Vec<SingleCmd>,
}

impl AsyncProc {
    /// Follow a wait until it ends, or until `limit` has passed.
    fn follow(
        &mut self,
        start: WaitStart,
        limit: Option<u128>,
        host: &mut Host,
    ) -> Option<Result<RunOutput, RunError>> {
        let mut polling = match start {
            WaitStart::Cached(r) => return Some(r),
            WaitStart::Poll(p) => p,
        };
        let begun = host.now;
        loop {
            match polling.next(Duration { nanos: host.now - begun }) {
                PollAction::Poll { stage, patience } => {
                    assert_eq!(patience, Patience::Forever);
                    let ends = self.children[stage].ends;
                    if let Some(l) = limit {
                        if begun + l < ends {
                            host.now = begun + l;
                            return None;
                        }
                    }
                    let report = Ok(poll(&self.children[stage], patience, &mut host.now));
                    match polling.step(self.handle.command(), report) {
                        Ok(Some(p)) => polling = p,
                        Ok(None) => return None,
                        Err(e) => return Some(Err(e)),
                    }
                }
                PollAction::Finalize => {
                    let stdout = match self.handle.drain_stdout() {
                        Some(stage) => std::mem::take(&mut self.children[stage].out),
                        None => vec![],
                    };
                    let stderr = self.children.iter().map(|c| Some(c.err.clone())).collect();
                    let statuses = polling.into_statuses();
                    self.ids = self.ids.iter().map(|_| None).collect();
                    return Some(self.handle.finalize(statuses, stdout, stderr));
                }
            }
        }
    }

    fn wait(&mut self, host: &mut Host) -> Result<RunOutput, RunError> {
        let start = self.handle.wait();
        self.follow(start, None, host).unwrap()
    }

    fn wait_timeout(
        &mut self,
        limit: Duration,
        host: &mut Host,
    ) -> Result<Option<RunOutput>, RunError> {
        let race = self.handle.wait_timeout(limit);
        let raced = self.follow(race.wait, Some(race.limit.nanos), host);
        Race::settle(raced)
    }

    fn kill(&mut self, host: &mut Host) -> Result<(), IoError> {
        let results = self.children.iter_mut().map(|c| {
            c.killed = true;
            c.ends = host.now;
            c.status = ExitStatus::from_raw(9);
            Ok(())
        });
        self.handle.kill(results.collect())
    }
}

// ---------- running one command ----------

#[test]
fn cmd_inherited_succeeds() {
    let c = cmd(PP_STATUS, &["0"]).stdout(Redirection::Inherit).stderr(Redirection::Inherit);
    ok(Host::new().run(c));
}

#[test]
fn cmd_inherited_fails_on_nonzero() {
    let c = cmd(PP_STATUS, &["1"]).stdout(Redirection::Inherit).stderr(Redirection::Inherit);
    let e = err(Host::new().run(c));
    assert!(e.is_non_zero_exit());
    assert_eq!(e.program(), &os(PP_STATUS));
}

#[test]
fn cmd_inherited_fails_on_missing_binary() {
    let e = err(Host::new().run(cmd("nonexistent_binary_xyz_42", &[]).stderr(Redirection::Inherit)));
    assert!(e.is_spawn_failure());
}

#[test]
fn cmd_captured_succeeds() {
    let output = ok(Host::new().run(cmd(PP_ECHO, &["hello"])));
    assert_eq!(output.stdout_lossy().trim(), "hello");
}

#[test]
fn cmd_captured_fails_on_nonzero() {
    let e = err(Host::new().run(cmd(PP_STATUS, &["1"])));
    assert!(e.is_non_zero_exit());
    assert!(e.exit_status().is_some());
}

#[test]
fn cmd_captured_captures_stderr_on_failure() {
    let e = err(Host::new().run(cmd(PP_STATUS, &["1", "--err", "err"])));
    assert_eq!(e.stderr(), Some("err\n"));
}

#[test]
fn cmd_captured_captures_stdout_on_failure() {
    let e = err(Host::new().run(cmd(PP_STATUS, &["1", "--out", "output"])));
    match &e {
        RunError::NonZeroExit { stdout, .. } => {
            assert_eq!(String::from_utf8_lossy(stdout).trim(), "output");
        }
        _ => panic!("expected NonZeroExit"),
    }
}

#[test]
fn cmd_fails_on_missing_binary() {
    let e = err(Host::new().run(cmd("nonexistent_binary_xyz_42", &[])));
    assert!(e.is_spawn_failure());
}

#[test]
fn cmd_in_runs_in_directory() {
    let output = ok(Host::new().run(cmd(PP_PWD, &[]).in_dir(os("/some/dir"))));
    assert_eq!(output.stdout_lossy().trim(), "/some/dir");
}

#[test]
fn cmd_in_fails_on_nonzero() {
    let e = err(Host::new().run(cmd(PP_STATUS, &["1"]).in_dir(os("/some/dir"))));
    assert!(e.is_non_zero_exit());
}

#[test]
fn cmd_in_fails_on_nonexistent_dir() {
    let e = err(Host::new().run(cmd(PP_ECHO, &["hi"]).in_dir(os("/nonexistent_dir_xyz_42"))));
    assert!(e.is_spawn_failure());
}

#[test]
fn cmd_in_with_env_sets_variable() {
    let c = cmd(PP_PRINT_ENV, &["TEST_VAR_XYZ"])
        .in_dir(os("/tmp"))
        .env(os("TEST_VAR_XYZ"), os("hello_from_env"));
    assert_eq!(ok(Host::new().run(c)).stdout_lossy().trim(), "hello_from_env");
}

#[test]
fn cmd_in_with_env_multiple_vars_same_invocation() {
    let c = cmd(PP_PRINT_ENV_MULTI, &["A", "B"])
        .in_dir(os("/tmp"))
        .envs(vec![(os("A"), os("foo")), (os("B"), os("bar"))]);
    assert_eq!(ok(Host::new().run(c)).stdout_lossy().trim(), "foo bar");
}

#[test]
fn cmd_in_with_env_overrides_existing_var() {
    let c = cmd(PP_PRINT_ENV, &["HOME"]).env(os("HOME"), os("/fake/home"));
    assert_eq!(ok(Host::new().run(c)).stdout_lossy().trim(), "/fake/home");
}

#[test]
fn cmd_in_with_env_fails_on_nonzero() {
    let c = cmd(PP_STATUS, &["1"]).env(os("IRRELEVANT"), os("value"));
    assert!(err(Host::new().run(c)).is_non_zero_exit());
}

#[test]
fn environment_changes_apply_in_order() {
    let mut host = Host::new();
    let seen = |host: &mut Host, c: Cmd| ok(host.run(c)).stdout_lossy();
    let print = || cmd(PP_PRINT_ENV_MULTI, &["HOME", "X"]);
    assert_eq!(seen(&mut host, print()), "/home/someone \n");
    assert_eq!(seen(&mut host, print().env_clear()), " \n");
    assert_eq!(seen(&mut host, print().env_remove(os("HOME"))), " \n");
    // What is set wins over what is removed or cleared, and the last one counts.
    let c = print()
        .env(os("X"), os("1"))
        .env(os("X"), os("2"))
        .env_remove(os("X"))
        .env_clear();
    assert_eq!(seen(&mut host, c), " 2\n");
}

#[test]
fn timeout_succeeds_for_fast_command() {
    let c = cmd(PP_ECHO, &["hello"]).timeout(Duration::from_secs(5));
    assert_eq!(ok(Host::new().run(c)).stdout_lossy().trim(), "hello");
}

#[test]
fn timeout_fires_for_slow_command() {
    let mut host = Host::new();
    let begun = host.now;
    let e = err(host.run(cmd(PP_SLEEP, &["10000"]).timeout(Duration::from_millis(200))));
    assert!(e.is_timeout());
    assert_eq!(host.now - begun, 200 * MS);
    assert_eq!(host.kills, 1);
    assert!(matches!(e, RunError::Timeout { elapsed, .. } if elapsed == Duration::from_millis(200)));
}

#[test]
fn timeout_captures_partial_stderr_before_kill() {
    let c = cmd(PP_STATUS, &["1", "--err", "partial", "--sleep-ms", "10000"])
        .timeout(Duration::from_millis(500));
    let e = err(Host::new().run(c));
    assert!(e.is_timeout());
    let stderr = e.stderr().unwrap_or("");
    assert!(stderr.contains("partial"), "expected partial stderr, got: {stderr:?}");
}

#[test]
fn timeout_reports_non_zero_exit_when_process_completes() {
    let e = err(Host::new().run(cmd(PP_STATUS, &["1"]).timeout(Duration::from_secs(5))));
    assert!(e.is_non_zero_exit());
}

#[test]
fn timeout_fails_on_missing_binary() {
    let c = cmd("nonexistent_binary_xyz_42", &[]).timeout(Duration::from_secs(5));
    assert!(err(Host::new().run(c)).is_spawn_failure());
}

#[test]
fn timeout_does_not_block_on_large_output() {
    let output = ok(Host::new().run(cmd(PP_SPAM, &["200000"]).timeout(Duration::from_secs(5))));
    assert!(output.stdout.len() >= 200_000);
}

#[test]
fn check_output_preserves_stderr_on_success() {
    let output = ok(Host::new().run(cmd(PP_STATUS, &["0", "--out", "ok", "--err", "warn"])));
    assert_eq!(output.stdout_lossy().trim(), "ok");
    assert_eq!(output.stderr.trim(), "warn");
}

#[test]
fn streams_that_are_routed_away_are_not_collected() {
    let c = || cmd(PP_STATUS, &["0", "--out", "o", "--err", "e"]);
    let out = ok(Host::new().run(c().stdout(Redirection::Null)));
    assert_eq!((out.stdout_lossy().as_str(), out.stderr.as_str()), ("", "e\n"));
    let out = ok(Host::new().run(c().stderr_file(FileHandle { id: 3 })));
    assert_eq!((out.stdout_lossy().as_str(), out.stderr.as_str()), ("o\n", ""));
}

// ---------- probing for binaries ----------

fn probe(host: &Host, name: &str) -> Result<(ExitStatus, Vec<u8>), IoError> {
    let single = version_probe(name);
    assert_eq!(single.args, vec![os("--version")]);
    execute(&single, &host.env, &[]).map(|r| (ExitStatus::from_raw(r.2 << 8), r.0))
}

#[test]
fn binary_available_returns_true_when_binary_exits_zero() {
    assert!(binary_available(probe(&Host::new(), PP_ECHO).map(|r| r.0)));
}

#[test]
fn runner_binary_available_missing_returns_false() {
    assert!(!binary_available(probe(&Host::new(), "nonexistent_binary_xyz_42").map(|r| r.0)));
    assert!(!binary_available(Ok(ExitStatus::from_raw(256))));
}

#[test]
fn runner_binary_version_missing_returns_none() {
    assert!(binary_version(probe(&Host::new(), "nonexistent_binary_xyz_42")).is_none());
    assert!(binary_version(Ok((ExitStatus::from_raw(256), b"v1".to_vec()))).is_none());
}

#[test]
fn binary_version_is_trimmed_text() {
    let v = binary_version(probe(&Host::new(), PP_ECHO));
    assert_eq!(v, Some("--version".to_string()));
    let odd = binary_version(Ok((ExitStatus::from_raw(0), b" git \xff 2\r\n".to_vec())));
    assert_eq!(odd, Some("git \u{fffd} 2".to_string()));
}

// ---------- pipelines ----------

#[test]
fn two_stage_pipe_passes_stdout_to_stdin() {
    let out = ok(Host::new().run(cmd(PP_ECHO, &["hello"]).pipe(cmd(PP_CAT, &[]))));
    assert_eq!(out.stdout_lossy().trim(), "hello");
}

#[test]
fn bitor_operator_produces_same_result() {
    let out = ok(Host::new().run(cmd(PP_ECHO, &["via-bitor"]) | cmd(PP_CAT, &[])));
    assert_eq!(out.stdout_lossy().trim(), "via-bitor");
}

#[test]
fn three_stage_pipeline_runs_in_order() {
    let c = cmd(PP_ECHO, &["staged"]).pipe(cmd(PP_CAT, &[])).pipe(cmd(PP_CAT, &[]));
    assert_eq!(ok(Host::new().run(c)).stdout_lossy().trim(), "staged");
}

#[test]
fn pipeline_pipefail_rightmost_failure_wins() {
    let e = err(Host::new().run(cmd(PP_ECHO, &["x"]).pipe(cmd(PP_STATUS, &["2"]))));
    assert!(e.is_non_zero_exit());
    assert_eq!(e.exit_status().and_then(|s| s.code()), Some(2));
}

#[test]
fn pipefail_middle_failure_surfaces_when_later_stages_succeed() {
    let c = cmd(PP_STATUS, &["7", "--out", "ignored"]).pipe(cmd(PP_CAT, &[]));
    let e = err(Host::new().run(c));
    assert!(e.is_non_zero_exit());
    assert_eq!(e.exit_status().and_then(|s| s.code()), Some(7));
}

#[test]
fn stdin_feeds_leftmost_stage() {
    let c = cmd(PP_CAT, &[]).pipe(cmd(PP_CAT, &[])).stdin("piped through two cats\n".into());
    assert_eq!(ok(Host::new().run(c)).stdout_lossy().trim(), "piped through two cats");
}

#[test]
fn stderr_captures_from_all_stages_concatenated() {
    let c = cmd(PP_STATUS, &["0", "--err", "first-err"])
        .pipe(cmd(PP_STATUS, &["1", "--err", "second-err"]));
    let e = err(Host::new().run(c));
    let stderr = e.stderr().unwrap_or("");
    assert!(stderr.contains("first-err"), "got: {stderr:?}");
    assert!(stderr.contains("second-err"), "got: {stderr:?}");
    assert_eq!(stderr, "first-err\nsecond-err\n");
}

#[test]
fn pipeline_timeout_kills_hung_stage() {
    let mut host = Host::new();
    let begun = host.now;
    let c = cmd(PP_SLEEP, &["10000"])
        .pipe(cmd(PP_CAT, &[]))
        .timeout(Duration::from_millis(200));
    let e = err(host.run(c));
    assert!(e.is_timeout());
    assert_eq!(host.now - begun, 200 * MS);
    assert_eq!(host.kills, 2);
}

#[test]
fn pipeline_does_not_deadlock_on_large_output() {
    let out = ok(Host::new().run(cmd(PP_SPAM, &["100000"]).pipe(cmd(PP_CAT, &[]))));
    assert!(out.stdout.len() >= 100_000);
}

#[test]
fn args_after_pipe_target_rightmost() {
    let c = cmd(PP_ECHO, &["first"])
        .pipe(cmd(PP_CAT, &[]))
        .pipe(cmd(PP_ECHO, &[]))
        .arg(os("overrides"));
    assert_eq!(ok(Host::new().run(c)).stdout_lossy().trim(), "overrides");
}

#[test]
fn spawn_on_pipeline_returns_all_pids() {
    let mut host = Host::new();
    let mut p = ok(host.spawn(cmd(PP_ECHO, &["hi"]).pipe(cmd(PP_CAT, &[]))));
    assert!(p.handle.is_pipeline());
    assert_eq!(p.handle.pids().len(), 2);
    assert_eq!(ok(p.wait(&mut host)).stdout_lossy().trim(), "hi");
}

#[test]
fn spawn_pipeline_bidirectional_take_stdin_and_stdout() {
    let mut host = Host::new();
    let mut p = ok(host.spawn(cmd(PP_CAT, &[]).pipe(cmd(PP_CAT, &[]))));
    assert_eq!(p.handle.take_stdin(), Some(0));
    let from = p.handle.take_stdout().expect("stdout");
    p.write_stdin(b"piped via two cats");
    let buf = String::from_utf8(std::mem::take(&mut p.children[from].out)).unwrap();
    let _ = p.wait(&mut host);
    assert_eq!(buf, "piped via two cats");
}

#[test]
fn spawn_pipeline_kill_sends_to_all_stages() {
    let mut host = Host::new();
    let mut p = ok(host.spawn(cmd(PP_SLEEP, &["10000"]).pipe(cmd(PP_CAT, &[]))));
    p.kill(&mut host).expect("kill");
    assert!(p.children.iter().all(|c| c.killed));
    let e = err(p.wait(&mut host));
    assert_eq!(e.exit_status().unwrap().code(), None);
}

#[test]
fn spawn_pipeline_pipefail_on_wait() {
    let mut host = Host::new();
    let mut p = ok(host.spawn(cmd(PP_ECHO, &["x"]).pipe(cmd(PP_STATUS, &["3"]))));
    let e = err(p.wait(&mut host));
    assert!(e.is_non_zero_exit());
    assert_eq!(e.exit_status().and_then(|s| s.code()), Some(3));
}

#[test]
fn pipeline_spawn_failure_does_not_leak_earlier_stages() {
    let mut host = Host::new();
    let begun = host.now;
    let c = cmd(PP_SLEEP, &["10000"]).pipe(cmd("nonexistent_binary_xyz_42", &[]));
    let e = err(host.run(c));
    assert!(e.is_spawn_failure());
    assert_eq!(host.now, begun);
    assert_eq!(host.kills, 1);
}

#[test]
fn spawn_pipeline_spawn_failure_kills_earlier_stages() {
    let mut host = Host::new();
    let begun = host.now;
    let c = cmd(PP_SLEEP, &["10000"]).pipe(cmd("nonexistent_binary_xyz_42", &[]));
    let e = err(host.spawn(c));
    assert!(e.is_spawn_failure());
    assert_eq!(host.now, begun);
    assert_eq!(host.kills, 1);
}

#[test]
fn a_pipe_that_cannot_be_opened_fails_the_spawn() {
    let mut host = Host::new();
    host.fail_pipes = true;
    let e = err(host.run(cmd(PP_ECHO, &["x"]).pipe(cmd(PP_CAT, &[]))));
    assert!(e.is_spawn_failure());
    assert_eq!(e.source().unwrap().message, "too many open files");
    assert_eq!(host.kills, 0);
    // A single command needs no pipe.
    ok(host.run(cmd(PP_ECHO, &["x"])));
}

#[test]
fn display_renders_shell_style_pipeline() {
    let c = cmd("git", &["log"]).pipe(cmd("grep", &["feat"]));
    assert_eq!(c.display().to_string(), "git log | grep feat");
}

#[test]
fn piping_is_associative() {
    let (a, b, c) = (cmd("a", &["1"]), cmd("b", &[]), cmd("c", &["2"]).secret());
    let left = a.clone().pipe(b.clone()).pipe(c.clone());
    let right = a.pipe(b.pipe(c));
    assert_eq!(left.display().to_string(), "a <secret> | b <secret> | c <secret>");
    assert_eq!(left.display().to_string(), right.display().to_string());
    assert_eq!(left.to_commands().len(), right.to_commands().len());
    assert_eq!(text(&right.to_rightmost_command().program), "c");
}

// ---------- spawned processes ----------

#[test]
fn spawn_wait_captures_stdout() {
    let mut host = Host::new();
    let mut p = ok(host.spawn(cmd(PP_ECHO, &["hi"])));
    assert_eq!(ok(p.wait(&mut host)).stdout_lossy().trim(), "hi");
}

#[test]
fn spawn_wait_surfaces_nonzero_exit() {
    let mut host = Host::new();
    let mut p = ok(host.spawn(cmd(PP_STATUS, &["1", "--err", "boom"])));
    let e = err(p.wait(&mut host));
    assert!(e.is_non_zero_exit());
    assert_eq!(e.stderr(), Some("boom\n"));
}

#[test]
fn spawn_kill_returns_error_on_wait() {
    let mut host = Host::new();
    let mut p = ok(host.spawn(cmd(PP_SLEEP, &["10000"])));
    p.kill(&mut host).expect("kill");
    assert!(err(p.wait(&mut host)).is_non_zero_exit());
}

#[test]
fn kill_reports_the_first_error() {
    let mut host = Host::new();
    let p = ok(host.spawn(cmd(PP_SLEEP, &["1"]).pipe(cmd(PP_CAT, &[])).pipe(cmd(PP_CAT, &[]))));
    let results = vec![Ok(()), Err(IoError::other("first")), Err(IoError::other("second"))];
    assert_eq!(p.handle.kill(results).unwrap_err().message, "first");
    assert!(p.handle.kill(vec![Ok(()), Ok(()), Ok(())]).is_ok());
}

#[test]
fn take_stdin_and_stdout_pipe_bidirectionally() {
    let mut host = Host::new();
    let mut p = ok(host.spawn(cmd(PP_CAT, &[])));
    assert!(p.handle.take_stdin().is_some());
    assert!(p.handle.take_stdin().is_none());
    let from = p.handle.take_stdout().expect("stdout piped");
    p.write_stdin(b"line one\nline two\n");
    let buf = String::from_utf8(std::mem::take(&mut p.children[from].out)).unwrap();
    let out = ok(p.wait(&mut host));
    assert!(buf.contains("line one"));
    assert!(buf.contains("line two"));
    assert!(out.stdout.is_empty());
}

#[test]
fn take_stdout_twice_returns_none_second_time() {
    let mut host = Host::new();
    let mut p = ok(host.spawn(cmd(PP_ECHO, &["x"])));
    assert!(p.handle.take_stdout().is_some());
    assert!(p.handle.take_stdout().is_none());
    assert!(p.read_to_end().is_empty());
    let _ = p.wait(&mut host);
}

#[test]
fn read_impl_streams_stdout() {
    let mut host = Host::new();
    let mut p = ok(host.spawn(cmd(PP_ECHO, &["abc"])));
    let buf = String::from_utf8(p.read_to_end()).unwrap();
    assert_eq!(buf.trim(), "abc");
    assert!(p.handle.take_stdout().is_none());
    let _ = p.wait(&mut host);
}

#[test]
fn read_via_shared_reference() {
    let mut host = Host::new();
    let mut p = ok(host.spawn(cmd(PP_SPAM, &["1000"])));
    let buf = p.read_to_end();
    let _ = p.wait(&mut host);
    assert!(!buf.is_empty());
    // Once the wait has collected what was left, reads see the end.
    assert_eq!(p.handle.read_stdout(), None);
}

#[test]
fn collect_lines_delivers_each_line() {
    let mut host = Host::new();
    let mut p = ok(host.spawn(cmd(PP_CAT, &[]).stdin("one\ntwo\nthree\n".into())));
    assert!(p.handle.take_stdin().is_none());
    let from = p.handle.take_stdout().unwrap();
    let all = String::from_utf8(std::mem::take(&mut p.children[from].out)).unwrap();
    let lines: Vec<&str> = all.lines().collect();
    let out = ok(p.wait(&mut host));
    assert!(out.stdout.is_empty());
    assert_eq!(lines, vec!["one", "two", "three"]);
    // A caller that fails on a line ends the spawn with its own error.
    assert!(p.handle.line_handled(Ok(())).is_ok());
    let e = err(p.handle.line_handled(Err(IoError::other("bad line"))));
    assert!(e.is_spawn_failure());
    assert_eq!(e.source().unwrap().message, "bad line");
}

#[test]
fn wait_timeout_returns_none_while_running() {
    let mut host = Host::new();
    let mut p = ok(host.spawn(cmd(PP_SLEEP, &["5000"])));
    let begun = host.now;
    let res = ok(p.wait_timeout(Duration::from_millis(100), &mut host));
    assert!(res.is_none(), "should still be running");
    assert_eq!(host.now - begun, 100 * MS);
    p.kill(&mut host).expect("kill");
    let _ = p.wait(&mut host);
}

#[test]
fn wait_timeout_returns_output_when_done() {
    let mut host = Host::new();
    let mut p = ok(host.spawn(cmd(PP_ECHO, &["quick"])));
    let res = ok(p.wait_timeout(Duration::from_secs(5), &mut host));
    let out = res.expect("process should have exited");
    assert_eq!(out.stdout_lossy().trim(), "quick");
}

#[test]
fn a_bounded_wait_shares_its_time_among_stages() {
    let mut host = Host::new();
    let c = cmd(PP_SLEEP, &["60"]).pipe(cmd(PP_SLEEP, &["90"]));
    let mut p = ok(host.spawn(c));
    let begun = host.now;
    assert!(ok(p.wait_timeout(Duration::from_millis(80), &mut host)).is_none());
    assert_eq!(host.now - begun, 80 * MS);
    assert!(ok(p.wait_timeout(Duration::from_millis(80), &mut host)).is_some());
    assert_eq!(host.now - begun, 90 * MS);
}

#[test]
fn try_wait_reports_running_then_done() {
    let mut host = Host::new();
    let mut p = ok(host.spawn(cmd(PP_SLEEP, &["500"])));
    assert!(ok(p.try_wait(&mut host)).is_none());
    host.now += 499 * MS;
    assert!(ok(p.try_wait(&mut host)).is_none());
    host.now += MS;
    assert!(ok(p.try_wait(&mut host)).is_some());
}

#[test]
fn pids_returns_single_entry() {
    let mut host = Host::new();
    let mut p = ok(host.spawn(cmd(PP_ECHO, &["x"])));
    let pids = p.handle.pids();
    assert_eq!(pids.len(), 1);
    assert!(pids[0] > 0);
    let _ = p.wait(&mut host);
}

#[test]
fn handles_render_for_debugging() {
    let mut host = Host::new();
    let p = ok(host.spawn(cmd("pp_echo", &["x"]).pipe(cmd(PP_CAT, &[]))));
    assert_eq!(
        p.handle.debug(),
        "SpawnedProcess { command: CmdDisplay { stages: [StageDisplay { program: \"pp_echo\", \
         args: [\"x\"] }, StageDisplay { program: \"pp_cat\", args: [] }], secret: false }, \
         pids: [101, 102] }"
    );
    let mut a = ok(host.spawn_async(cmd(PP_CAT, &[]).secret()));
    let shown = a.handle.debug(&a.ids);
    assert_eq!(
        shown,
        "AsyncSpawnedProcess { command: CmdDisplay { stages: \"<secret>\", secret: true }, \
         pids: [103] }"
    );
    let _ = a.wait(&mut host);
    assert!(a.handle.debug(&a.ids).ends_with("pids: [] }"));
}

#[test]
fn spawn_missing_binary_is_spawn_error() {
    let e = err(Host::new().spawn(cmd("nonexistent_binary_xyz_42", &[])));
    assert!(e.is_spawn_failure());
}

#[test]
fn spawn_refuses_stdout_that_is_routed_away() {
    let mut host = Host::new();
    let slot = host.reader(b"kept");
    for mode in [Redirection::Inherit, Redirection::Null, Redirection::File(FileHandle { id: 1 })] {
        let base = cmd(PP_CAT, &[]).stdin(StdinData::from_reader(slot)).stdout(mode);
        let e = err(host.spawn(base.clone()));
        assert!(e.is_spawn_failure());
        assert_eq!(e.source().unwrap().kind(), IoErrorKind::InvalidInput);
        assert!(err(host.spawn_async(base)).is_spawn_failure());
    }
    // The refusals left the reader alone.
    let c = cmd(PP_CAT, &[]).stdin(StdinData::from_reader(slot));
    let mut p = ok(host.spawn(c));
    assert_eq!(ok(p.wait(&mut host)).stdout, b"kept");
}

#[test]
fn wait_is_idempotent_on_success() {
    let mut host = Host::new();
    let mut p = ok(host.spawn(cmd(PP_ECHO, &["idempotent"])));
    let first = ok(p.wait(&mut host));
    let second = ok(p.wait(&mut host));
    assert_eq!(first.stdout, second.stdout);
    assert_eq!(first.stderr, second.stderr);
    assert_eq!(first.stdout_lossy().trim(), "idempotent");
}

#[test]
fn wait_is_idempotent_on_failure() {
    let mut host = Host::new();
    let c = cmd(PP_STATUS, &["3", "--err", "stderr-bytes", "--out", "stdout-bytes"]);
    let mut p = ok(host.spawn(c));
    let first = err(p.wait(&mut host));
    let second = err(p.wait(&mut host));
    assert_eq!(first.exit_status().unwrap().code(), Some(3));
    assert_eq!(second.exit_status().unwrap().code(), Some(3));
    assert_eq!(first.stderr(), second.stderr());
    assert_eq!(first.stdout(), second.stdout());
}

#[test]
fn try_wait_some_then_wait_returns_same() {
    let mut host = Host::new();
    let mut p = ok(host.spawn(cmd(PP_ECHO, &["converges"])));
    let first = ok(p.try_wait(&mut host)).expect("child has exited");
    let second = ok(p.wait(&mut host));
    assert_eq!(first.stdout, second.stdout);
    assert_eq!(first.stdout_lossy().trim(), "converges");
}

#[test]
fn wait_timeout_none_does_not_consume_state() {
    let mut host = Host::new();
    let mut p = ok(host.spawn(cmd(PP_SLEEP, &["300"])));
    assert!(ok(p.wait_timeout(Duration::from_millis(50), &mut host)).is_none());
    let out = ok(p.wait(&mut host));
    assert!(out.stderr.is_empty());
}

#[test]
fn concurrent_waits_see_same_outcome() {
    // Two waits that both saw the stages end: whoever finalizes first counts.
    let mut host = Host::new();
    let mut p = ok(host.spawn(cmd(PP_ECHO, &["concurrent"])));
    let statuses = vec![ExitStatus::from_raw(0)];
    let a = ok(p.handle.finalize_or_cached(statuses, b"concurrent\n".to_vec(), vec![]));
    let late = vec![ExitStatus::from_raw(512)];
    let b = ok(p.handle.finalize_or_cached(late, b"other".to_vec(), vec![None]));
    assert!(p.handle.is_finalized());
    assert_eq!(a.stdout, b.stdout);
    assert_eq!(a.stdout_lossy().trim(), "concurrent");
    assert_eq!(ok(p.wait(&mut host)).stdout, a.stdout);
}

#[test]
fn a_failed_poll_is_a_spawn_error_and_stores_nothing() {
    let mut host = Host::new();
    let mut p = ok(host.spawn(cmd(PP_ECHO, &["x"])));
    let WaitStart::Poll(polling) = p.handle.wait() else { panic!("not finalized yet") };
    let r = polling.step(p.handle.command(), Err(IoError::other("lost")));
    let e = match r {
        Err(e) => e,
        Ok(_) => panic!("expected an error"),
    };
    assert!(e.is_spawn_failure());
    assert!(!p.handle.is_finalized());
    assert_eq!(ok(p.wait(&mut host)).stdout_lossy(), "x\n");
}

// ---------- the async runner ----------

#[test]
fn run_async_before_spawn_hook_fires_once() {
    let mut host = Host::new();
    let count = Arc::new(Mutex::new(0));
    let c = count.clone();
    let hook = host.hook(move |_| {
        *c.lock().unwrap() += 1;
        Ok(())
    });
    let out = ok(host.run_async(cmd(PP_ECHO, &["hi"]).before_spawn(hook)));
    assert_eq!(*count.lock().unwrap(), 1);
    assert_eq!(out.stdout_lossy().trim(), "hi");
}

#[test]
fn run_async_before_spawn_fires_per_stage_on_pipeline() {
    let mut host = Host::new();
    let count = Arc::new(Mutex::new(0));
    let c = count.clone();
    let hook = host.hook(move |_| {
        *c.lock().unwrap() += 1;
        Ok(())
    });
    let pipeline = cmd(PP_ECHO, &["x"]).pipe(cmd(PP_CAT, &[])).pipe(cmd(PP_CAT, &[]));
    ok(host.run_async(pipeline.before_spawn(hook)));
    assert_eq!(*count.lock().unwrap(), 3);
}

#[test]
fn run_async_before_spawn_error_aborts_with_spawn_error() {
    let mut host = Host::new();
    let hook = host.hook(|_| Err(IoError::other("hook rejected")));
    let e = err(host.run_async(cmd(PP_ECHO, &["unused"]).before_spawn(hook)));
    assert!(e.is_spawn_failure());
}

#[test]
fn run_async_before_spawn_can_mutate_env() {
    let mut host = Host::new();
    let hook = host.hook(|env| {
        env.push(("TEST_BEFORE_SPAWN".to_string(), "set_by_hook".to_string()));
        Ok(())
    });
    let c = cmd(PP_PRINT_ENV, &["TEST_BEFORE_SPAWN"]).before_spawn(hook);
    assert_eq!(ok(host.run_async(c)).stdout_lossy().trim(), "set_by_hook");
}

#[test]
fn run_async_captures_stdout() {
    let out = ok(Host::new().run_async(cmd(PP_ECHO, &["hello"])));
    assert_eq!(out.stdout_lossy().trim(), "hello");
}

#[test]
fn run_async_surfaces_nonzero() {
    let e = err(Host::new().run_async(cmd(PP_STATUS, &["1", "--err", "boom"])));
    assert!(e.is_non_zero_exit());
    assert_eq!(e.stderr(), Some("boom\n"));
}

#[test]
fn run_async_missing_binary_is_spawn_failure() {
    let e = err(Host::new().run_async(cmd("nonexistent_binary_xyz_42", &[])));
    assert!(e.is_spawn_failure());
}

#[test]
fn run_async_with_env_and_cwd() {
    let c = cmd(PP_PRINT_ENV, &["ASYNC_TEST"])
        .env(os("ASYNC_TEST"), os("hello"))
        .in_dir(os("/tmp"));
    assert_eq!(ok(Host::new().run_async(c)).stdout_lossy().trim(), "hello");
}

#[test]
fn run_async_stdin_bytes() {
    let c = cmd(PP_CAT, &[]).stdin("piped through cat\n".into());
    assert_eq!(ok(Host::new().run_async(c)).stdout_lossy().trim(), "piped through cat");
}

#[test]
fn run_async_stdin_reader() {
    let mut host = Host::new();
    let slot = host.reader(b"from reader");
    let c = cmd(PP_CAT, &[]).stdin(StdinData::from_reader(slot));
    assert_eq!(ok(host.run_async(c)).stdout_lossy(), "from reader");
}

#[test]
fn run_async_stdin_async_reader_streams() {
    let mut host = Host::new();
    let slot = host.reader(b"async stream");
    let c = cmd(PP_CAT, &[]).stdin(StdinData::from_async_reader(slot));
    assert_eq!(ok(host.run_async(c)).stdout_lossy(), "async stream");
}

#[test]
fn sync_rejection_preserves_async_reader_for_later_clone() {
    let mut host = Host::new();
    let slot = host.reader(b"preserved");
    let base = cmd(PP_CAT, &[]).stdin(StdinData::from_async_reader(slot));
    assert!(err(host.run(base.clone())).is_spawn_failure());
    assert!(err(host.spawn(base.clone())).is_spawn_failure());
    let out = ok(host.run_async(base.clone()));
    assert_eq!(out.stdout_lossy(), "preserved");
}

#[test]
fn sync_rejection_with_spawn_retrying_predicate_does_not_retry() {
    let mut host = Host::new();
    let slot = host.reader(b"nope");
    let attempts = Arc::new(Mutex::new(0));
    let counter = attempts.clone();
    let c = cmd(PP_CAT, &[])
        .stdin(StdinData::from_async_reader(slot))
        .retry(RetryPolicy::default())
        .retry_when(move |_err| {
            *counter.lock().unwrap() += 1;
            true
        });
    match err(host.run(c)) {
        RunError::Spawn { source, .. } => assert_eq!(source.kind(), IoErrorKind::InvalidInput),
        _ => panic!("expected Spawn(InvalidInput)"),
    }
    assert_eq!(*attempts.lock().unwrap(), 0);
}

#[test]
fn run_sync_with_async_reader_returns_invalid_input() {
    let mut host = Host::new();
    let slot = host.reader(b"nope");
    match err(host.run(cmd(PP_CAT, &[]).stdin(StdinData::from_async_reader(slot)))) {
        RunError::Spawn { source, .. } => assert_eq!(source.kind(), IoErrorKind::InvalidInput),
        _ => panic!("expected Spawn(InvalidInput)"),
    }
}

#[test]
fn run_async_async_reader_is_one_shot_across_clones() {
    let mut host = Host::new();
    let slot = host.reader(b"taken once");
    let base = cmd(PP_CAT, &[]).stdin(StdinData::from_async_reader(slot));
    let primary = ok(host.run_async(base.clone()));
    let empty = ok(host.run_async(base.clone()));
    assert_eq!(primary.stdout_lossy(), "taken once");
    assert_eq!(empty.stdout_lossy(), "");
}

#[test]
fn run_async_timeout_fires() {
    let mut host = Host::new();
    let begun = host.now;
    let e = err(host.run_async(cmd(PP_SLEEP, &["10000"]).timeout(Duration::from_millis(200))));
    assert!(e.is_timeout());
    assert!(host.now - begun < 5_000 * MS);
}

#[test]
fn run_async_retry_default_predicate_does_not_fire_without_match() {
    let mut host = Host::new();
    let e = err(host.run_async(cmd(PP_STATUS, &["1"]).retry(RetryPolicy::default())));
    assert!(e.is_non_zero_exit());
    assert_eq!(host.attempts, 1);
}

#[test]
fn run_async_retry_actually_loops() {
    let mut host = Host::new();
    let attempts = Arc::new(Mutex::new(0));
    let counter = attempts.clone();
    let c = cmd(PP_STATUS, &["1"]).retry(RetryPolicy::default()).retry_when(move |_err| {
        let mut n = counter.lock().unwrap();
        *n += 1;
        *n <= 2
    });
    let e = err(host.run_async(c));
    assert!(e.is_non_zero_exit());
    assert_eq!(*attempts.lock().unwrap(), 3);
    assert_eq!(host.attempts, 3);
    assert_eq!(e.attempts(), 3);
}

#[test]
fn run_async_pipeline() {
    let out = ok(Host::new().run_async(cmd(PP_ECHO, &["piped"]).pipe(cmd(PP_CAT, &[]))));
    assert_eq!(out.stdout_lossy().trim(), "piped");
}

#[test]
fn run_async_pipeline_pipefail() {
    let e = err(Host::new().run_async(cmd(PP_ECHO, &["x"]).pipe(cmd(PP_STATUS, &["2"]))));
    assert!(e.is_non_zero_exit());
    assert_eq!(e.exit_status().and_then(|s| s.code()), Some(2));
}

#[test]
fn spawn_async_wait_succeeds() {
    let mut host = Host::new();
    let mut p = ok(host.spawn_async(cmd(PP_ECHO, &["hi"])));
    assert_eq!(ok(p.wait(&mut host)).stdout_lossy().trim(), "hi");
}

#[test]
fn spawn_async_take_stdin_stdout_bidirectional() {
    let mut host = Host::new();
    let mut p = ok(host.spawn_async(cmd(PP_CAT, &[])));
    assert_eq!(p.handle.take_stdin(), Some(0));
    let from = p.handle.take_stdout().expect("stdout piped");
    assert_eq!(p.handle.take_stdout(), None);
    write_stdin(&mut p.children, &p.stages, b"async bidirectional\n");
    let buf = String::from_utf8(std::mem::take(&mut p.children[from].out)).unwrap();
    let out = ok(p.wait(&mut host));
    assert!(buf.contains("async bidirectional"));
    // Nothing is left to collect: the caller took stdout.
    assert!(out.stdout.is_empty());
}

#[test]
fn spawn_async_kill_via_select() {
    let mut host = Host::new();
    let mut p = ok(host.spawn_async(cmd(PP_SLEEP, &["10000"])));
    // The first wait loses its race and is dropped.
    assert!(ok(p.wait_timeout(Duration::from_millis(100), &mut host)).is_none());
    p.kill(&mut host).expect("kill");
    assert!(err(p.wait(&mut host)).is_non_zero_exit());
}

#[test]
fn spawn_async_wait_timeout_returns_none_while_running() {
    let mut host = Host::new();
    let mut p = ok(host.spawn_async(cmd(PP_SLEEP, &["5000"])));
    assert!(ok(p.wait_timeout(Duration::from_millis(100), &mut host)).is_none());
    p.kill(&mut host).expect("kill");
    let _ = p.wait(&mut host);
}

#[test]
fn spawn_async_pipeline_pids_count() {
    let mut host = Host::new();
    let mut p = ok(host.spawn_async(cmd(PP_ECHO, &["x"]).pipe(cmd(PP_CAT, &[]))));
    assert!(p.handle.is_pipeline());
    assert_eq!(p.handle.pids(&p.ids).len(), 2);
    assert_eq!(p.handle.pids(&vec![None, Some(7)]), vec![7]);
    assert_eq!(ok(p.wait(&mut host)).stdout_lossy().trim(), "x");
}

#[test]
fn async_wait_is_idempotent_on_success() {
    let mut host = Host::new();
    let mut p = ok(host.spawn_async(cmd(PP_ECHO, &["async-idempotent"])));
    let first = ok(p.wait(&mut host));
    let second = ok(p.wait(&mut host));
    assert_eq!(first.stdout, second.stdout);
    assert_eq!(first.stdout_lossy().trim(), "async-idempotent");
    assert!(p.handle.is_finalized());
    assert!(matches!(p.handle.try_wait(), WaitStart::Cached(Ok(_))));
}

#[test]
fn async_wait_is_idempotent_on_failure() {
    let mut host = Host::new();
    let mut p = ok(host.spawn_async(cmd(PP_STATUS, &["5", "--err", "err-bytes"])));
    let first = err(p.wait(&mut host));
    let second = err(p.wait(&mut host));
    assert_eq!(first.exit_status().unwrap().code(), Some(5));
    assert_eq!(second.exit_status().unwrap().code(), Some(5));
    assert_eq!(first.stderr(), second.stderr());
}

#[test]
fn async_wait_timeout_none_then_wait_works() {
    let mut host = Host::new();
    let mut p = ok(host.spawn_async(cmd(PP_SLEEP, &["200"])));
    assert!(ok(p.wait_timeout(Duration::from_millis(50), &mut host)).is_none());
    let out = ok(p.wait(&mut host));
    assert!(out.stderr.is_empty());
}

#[test]
fn async_cancel_via_select_then_wait_returns_same() {
    let mut host = Host::new();
    let mut p = ok(host.spawn_async(cmd(PP_SLEEP, &["10000"])));
    assert!(ok(p.wait_timeout(Duration::from_millis(100), &mut host)).is_none());
    p.kill(&mut host).expect("kill");
    let second = err(p.wait(&mut host));
    let third = err(p.wait(&mut host));
    assert_eq!(second.exit_status(), third.exit_status());
}

#[test]
fn async_pipeline_spawn_failure_does_not_leak_earlier_stages() {
    let mut host = Host::new();
    let begun = host.now;
    let c = cmd(PP_SLEEP, &["10000"]).pipe(cmd("nonexistent_binary_xyz_42", &[]));
    let e = err(host.run_async(c));
    assert!(e.is_spawn_failure());
    assert_eq!(host.now, begun);
    assert_eq!(host.kills, 1);
}

#[test]
fn spawn_async_streaming_lines() {
    let mut host = Host::new();
    let mut p = ok(host.spawn_async(cmd(PP_CAT, &[]).stdin("one\ntwo\nthree\n".into())));
    let from = p.handle.take_stdout().expect("piped");
    let all = String::from_utf8(std::mem::take(&mut p.children[from].out)).unwrap();
    let lines: Vec<&str> = all.lines().collect();
    let _ = p.wait(&mut host);
    assert_eq!(lines, vec!["one", "two", "three"]);
}

// ---------- time limits and retries ----------

/// What each attempt of a command that echoes its input and fails has echoed.
fn echoes_of_attempts(host: &mut Host, stdin: StdinData) -> Vec<String> {
    let seen: Arc<Mutex<Vec<String>>> = Arc::new(Mutex::new(Vec::new()));
    let log = seen.clone();
    let c = cmd(PP_CAT, &[]).stdin(stdin).retry_when(move |e| {
        let out = String::from_utf8(e.stdout().unwrap().to_vec()).unwrap();
        log.lock().unwrap().push(out);
        true
    });
    host.fail_cat = true;
    let e = err(host.run_async(c));
    host.fail_cat = false;
    assert_eq!(e.attempts(), 4);
    let seen = seen.lock().unwrap().clone();
    seen
}

#[test]
fn bytes_are_fed_to_every_attempt_and_a_reader_to_one() {
    let mut host = Host::new();
    assert_eq!(echoes_of_attempts(&mut host, "again".into()), vec!["again"; 4]);
    let slot = host.reader(b"once");
    let echoes = echoes_of_attempts(&mut host, StdinData::from_reader(slot));
    assert_eq!(echoes, vec!["once", "", "", ""]);
}

#[test]
fn the_default_policy_makes_four_attempts_at_most() {
    let mut host = Host::new();
    let c = cmd(PP_STATUS, &["1", "--err", "working copy is stale"]).retry(RetryPolicy::default());
    let e = err(host.run_async(c));
    assert_eq!(host.attempts, 4);
    assert_eq!(host.pauses.len(), 3);
    assert_eq!(e.attempts(), 4);
    assert!(e.is_non_zero_exit());
}

#[test]
fn spawn_failures_are_not_retried_by_default() {
    let mut host = Host::new();
    let c = cmd("nonexistent_binary_xyz_42", &[]).retry(RetryPolicy::default());
    let e = err(host.run(c));
    assert!(e.is_spawn_failure());
    assert!(host.pauses.is_empty());
    assert_eq!(e.attempts(), 1);
}

#[test]
fn a_passed_deadline_starts_nothing() {
    let mut host = Host::new();
    let slot = host.reader(b"kept");
    let at = Instant { nanos: host.now };
    let c = cmd(PP_CAT, &[]).stdin(StdinData::from_reader(slot));
    let e = err(host.run_async(c.clone().deadline(at)));
    assert!(matches!(&e, RunError::Timeout { elapsed, .. } if elapsed.is_zero()));
    assert_eq!((e.stdout().unwrap().len(), e.stderr(), e.attempts()), (0, Some(""), 1));
    assert_eq!(host.attempts, 0);
    // The reader was not touched.
    assert_eq!(ok(host.run_async(c)).stdout_lossy(), "kept");
}

#[test]
fn the_deadline_cuts_attempts_and_pauses_short() {
    let mut host = Host::new();
    let begun = host.now;
    let end = Instant { nanos: begun + 350 * MS };
    let c = cmd(PP_STATUS, &["1", "--err", ".lock", "--sleep-ms", "100"])
        .timeout(Duration::from_secs(3))
        .deadline(end)
        .retry(RetryPolicy::default());
    let e = err(host.run_async(c));
    // Whatever the jitter, the run is over exactly at the deadline: either an
    // attempt is killed there, or a pause ends there and no attempt follows.
    assert!(e.is_timeout());
    assert_eq!(host.now, end.nanos);
    assert_eq!(e.attempts() as usize, host.pauses.len() + 1);
}

#[test]
fn the_shorter_of_timeout_and_deadline_bounds_an_attempt() {
    for (timeout, deadline, takes) in [(200u64, 500u128, 200u128), (500, 200, 200)] {
        let mut host = Host::new();
        let begun = host.now;
        let c = cmd(PP_SLEEP, &["10000"])
            .timeout(Duration::from_millis(timeout))
            .deadline(Instant { nanos: begun + deadline * MS });
        assert!(err(host.run_async(c)).is_timeout());
        assert_eq!(host.now - begun, takes * MS);
    }
}

#[test]
fn later_stages_have_what_earlier_ones_left_of_the_budget() {
    let mut host = Host::new();
    let begun = host.now;
    let c = cmd(PP_SLEEP, &["60"])
        .pipe(cmd(PP_SLEEP, &["10000"]))
        .pipe(cmd(PP_ECHO, &["done"]))
        .timeout(Duration::from_millis(100));
    let e = err(host.run(c));
    assert_eq!(host.now - begun, 100 * MS);
    // The hung stage is killed, and so is the one whose turn comes after it.
    assert_eq!(host.kills, 2);
    assert!(matches!(e, RunError::Timeout { elapsed, .. } if elapsed == Duration::from_millis(100)));
}

#[test]
fn events_that_answer_nothing_change_nothing() {
    let w = Waiting::new(2, None);
    let w = w.step(WaitEvent::Expired);
    let w = w.step(WaitEvent::Killed(Duration::zero()));
    assert_eq!(w.next(), WaitAction::Wait { stage: 0, limit: None });
    let w = w.step(WaitEvent::Exited(ExitStatus::from_raw(0)));
    let w = w.step(WaitEvent::Clock(Duration::zero()));
    assert_eq!(w.next(), WaitAction::Wait { stage: 1, limit: None });
    let w = w.step(WaitEvent::Failed(IoError::other("no child")));
    assert_eq!(w.next(), WaitAction::Collect);
    let e = err(w.finish(&cmd("x", &[]).display(), None, vec![]));
    assert!(e.is_spawn_failure());
    assert_eq!(e.source().unwrap().message, "no child");
}

#[test]
fn a_single_command_has_its_whole_budget_from_the_start() {
    let w = Waiting::new(1, Some(Duration::zero()));
    assert_eq!(w.next(), WaitAction::Wait { stage: 0, limit: Some(Duration::zero()) });
    let w = Waiting::new(2, Some(Duration::zero()));
    assert_eq!(w.next(), WaitAction::ReadClock);
    let w = w.step(WaitEvent::Clock(Duration::zero()));
    assert_eq!(w.next(), WaitAction::Kill { stage: 0 });
}

#[test]
fn lost_output_counts_as_empty() {
    let w = Waiting::new(1, None).step(WaitEvent::Exited(ExitStatus::from_raw(0)));
    let out = ok(w.finish(
        &cmd("x", &[]).display(),
        None,
        vec![Some(b"a\xff".to_vec()), None, Some(b"b".to_vec())],
    ));
    assert_eq!(out.stdout, b"");
    assert_eq!(out.stderr, "a\u{fffd}b");
}

#[test]
fn errors_keep_only_the_tail_of_the_output() {
    let size = procpilot::STREAM_SUFFIX_SIZE;
    let w = Waiting::new(1, None).step(WaitEvent::Exited(ExitStatus::from_raw(256)));
    let mut stdout = vec![b'x'];
    stdout.extend(vec![b'y'; size]);
    let e = err(w.finish(&cmd("x", &[]).display(), Some(stdout.clone()), vec![Some(stdout)]));
    assert_eq!(e.stdout().unwrap(), &vec![b'y'; size][..]);
    assert_eq!(e.stderr().unwrap().len(), size);
    assert!(!e.stderr().unwrap().contains('x'));
}

// ---------- cancellation ----------

#[test]
fn cancelled_run_keeps_what_was_captured() {
    let mut host = Host::new();
    host.cancel_at = Some(host.now + 50 * MS);
    let c = cmd(PP_STATUS, &["0", "--out", "half", "--err", "Working", "--sleep-ms", "10000"]);
    let e = err(host.run(c));
    assert!(e.is_cancelled());
    assert_eq!(e.stdout().unwrap(), b"half\n");
    assert_eq!(e.stderr(), Some("Working\n"));
    assert_eq!(e.attempts(), 1);
    assert!(e.exit_status().is_none() && e.source().is_none());
    assert_eq!((host.stops, host.kills), (1, 0));
    assert_eq!(host.now, 1_050 * MS);
}

#[test]
fn run_cancelled_before_the_first_spawn_starts_nothing() {
    let mut host = Host::new();
    host.cancel_at = Some(0);
    let e = err(host.run(cmd(PP_ECHO, &["x"])));
    assert!(e.is_cancelled());
    assert_eq!(e.attempts(), 1);
    assert_eq!(e.stdout().unwrap(), b"");
    assert_eq!(e.stderr(), Some(""));
    assert_eq!(e.command().to_string(), "pp_echo x");
    assert_eq!(host.attempts, 0);
}

#[test]
fn cancellation_names_the_attempt_in_flight() {
    let mut host = Host::new();
    // The first attempt takes a second, and the pause after it at most a fifth.
    host.cancel_at = Some(host.now + 1_500 * MS);
    let c = cmd(PP_STATUS, &["1", "--err", "stale", "--sleep-ms", "100000"])
        .timeout(Duration::from_secs(1))
        .retry(RetryPolicy::default())
        .retry_when(|e| e.is_timeout());
    let e = err(host.run(c));
    assert!(e.is_cancelled());
    assert_eq!(e.attempts(), 2);
}

#[test]
fn cancelled_pipeline_stops_every_stage_that_is_left() {
    let mut host = Host::new();
    host.cancel_at = Some(host.now + 70 * MS);
    let c = cmd(PP_SLEEP, &["50"]).pipe(cmd(PP_SLEEP, &["1000"])).pipe(cmd(PP_STATUS, &["3"]));
    let e = err(host.run(c));
    // The last stage failed by itself, but the run was cancelled.
    assert!(e.is_cancelled());
    assert_eq!((host.stops, host.kills), (2, 0));
}

#[test]
fn cancellation_comes_too_late_once_every_stage_has_ended() {
    let w = Waiting::new(1, None).step(WaitEvent::Exited(ExitStatus::from_raw(0)));
    let w = w.step(WaitEvent::Cancelled);
    assert_eq!(w.next(), WaitAction::Collect);
    assert!(w.finish(&cmd("x", &[]).display(), None, vec![]).is_ok());
}

#[test]
fn a_cancelled_wait_only_stops_stages() {
    let w = Waiting::new(2, Some(Duration::from_secs(1)));
    assert_eq!(w.next(), WaitAction::ReadClock);
    let w = w.step(WaitEvent::Cancelled);
    assert_eq!(w.next(), WaitAction::Stop { stage: 0 });
    // Neither a late exit nor a second cancellation changes that.
    let w = w.step(WaitEvent::Exited(ExitStatus::from_raw(0))).step(WaitEvent::Cancelled);
    assert_eq!(w.next(), WaitAction::Stop { stage: 0 });
    let w = w.step(WaitEvent::Stopped);
    assert_eq!(w.next(), WaitAction::Stop { stage: 1 });
    let w = w.step(WaitEvent::Stopped);
    assert_eq!(w.next(), WaitAction::Collect);
    assert!(err(w.finish(&cmd("x", &[]).display(), None, vec![])).is_cancelled());
}

#[test]
fn the_default_policy_does_not_retry_a_cancellation() {
    let mut host = Host::new();
    host.cancel_at = Some(host.now + 10 * MS);
    let c = cmd(PP_STATUS, &["1", "--err", "stale", "--sleep-ms", "100"])
        .retry(RetryPolicy::default());
    assert!(err(host.run(c)).is_cancelled());
    assert_eq!(host.attempts, 1);
}
