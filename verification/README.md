# procpilot

A subprocess runner whose decisions are verified with Verus: typed errors,
retry, timeout and deadline, stdin, pipelines with pipefail, secret redaction,
and handles to running children.

## Layout

- `src/` is the library. It makes no system call. `Cmd` describes a command or
  a pipeline; running or spawning it yields state machines that say what to do
  next and are told what came of it. Every function carries a contract, and the
  `law_*` proof functions state what holds of the library as a whole.
- `app/` is the host: it opens pipes, starts and reaps children, feeds and
  drains streams, and keeps the clock, on threads with `shared_child` or on
  `tokio`. It offers the builder with ordinary argument types.
- `tests/` runs the compiled library. `tests/simulated_host.rs` drives whole
  runs and spawns against a simulated operating system.

## How a run goes

1. `Cmd::run` or `Cmd::run_async` gives a `Run`.
2. `Run::begin_attempt` gives the attempt's launch, its share of stdin and its
   time budget, or the final error where the deadline has passed.
3. The `Launch` names the pipes to open and the stages to start, one by one,
   or, after a failure, the stages to kill.
4. `Attempt::waiting` gives a `Waiting`, which names the stage to wait for, with
   what is left of the budget, or to kill. It may be told at any time that the
   caller cancelled the run, and then has the remaining stages stopped. Its
   `finish` turns exits and captured output into a result.
5. `Run::end_attempt` returns that result or says how long to pause before the
   next attempt.

The library is meant for Unix hosts: text from the operating system is bytes,
and an exit status is a status word. The host under `app/` offers no way to
cancel a run; `Run::cancel` and `WaitEvent::Cancelled` are there for one that
does.

Closures that a caller hands over are kept in `src/callbacks.rs`, each with a
ghost record of its calls, so that contracts can say how often one is run.

## What is trusted

Delays between attempts come from `backon`'s exponential backoff; the wrappers
in `src/retry.rs` say what is believed of it. `src/text.rs` wraps the four
standard-library calls that decode, quote and append text. Nothing else is
assumed.
