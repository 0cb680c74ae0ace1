//! The decisions of a subprocess runner, verified: typed errors, retry,
//! timeout, stdin, pipelines, secret redaction, and handles to running
//! children.
//!
//! The library never makes a system call. A [`Cmd`] describes a command or a
//! pipeline. Its terminators return state machines that say what to do next and
//! are told what came of it:
//!
//! - [`Cmd::run`] and [`Cmd::run_async`] return a [`run::Run`], which goes from
//!   attempt to attempt. A [`launch::Launch`] starts the stages of one attempt,
//!   a [`wait::Waiting`] waits for them within the attempt's time budget.
//! - [`Cmd::spawn`] and [`Cmd::spawn_async`] return a [`spawn::Spawning`]; once
//!   its launch is through, a [`SpawnedProcess`] or an [`AsyncSpawnedProcess`]
//!   keeps account of the running children.
//!
//! Whoever drives them hands in plain values: points in time, exit statuses,
//! captured bytes, errors of system calls. They are those of a Unix host.

pub mod async_spawned;
pub mod callbacks;
pub mod cmd;
pub mod cmd_display;
pub mod error;
pub mod handle;
pub mod launch;
pub mod os;
pub mod outcome;
pub mod output;
pub mod plan;
pub mod prelude;
pub mod redirection;
pub mod retry;
pub mod run;
pub mod runner;
pub mod runner_trait;
pub mod spawn;
pub mod spawned;
pub mod stdin;
pub mod testing;
pub mod text;
pub mod time;
pub mod wait;

pub use async_spawned::AsyncSpawnedProcess;
pub use cmd::Cmd;
pub use cmd_display::CmdDisplay;
pub use error::{RunError, STREAM_SUFFIX_SIZE};
pub use output::RunOutput;
pub use redirection::Redirection;
pub use retry::{default_transient, RetryPolicy};
pub use runner::{binary_available, binary_version};
pub use runner_trait::{DefaultRunner, Runner};
pub use spawned::SpawnedProcess;
pub use stdin::StdinData;
