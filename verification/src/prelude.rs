//! Common types for everyday use.
//!
//! The builder, its results, and what its settings take.
//! [`CmdDisplay`](crate::CmdDisplay) and
//! [`STREAM_SUFFIX_SIZE`](crate::STREAM_SUFFIX_SIZE) are left out: they are
//! rarely named.

pub use crate::async_spawned::AsyncSpawnedProcess;
pub use crate::cmd::Cmd;
pub use crate::error::RunError;
pub use crate::output::RunOutput;
pub use crate::redirection::Redirection;
pub use crate::retry::RetryPolicy;
pub use crate::spawned::SpawnedProcess;
pub use crate::stdin::StdinData;
