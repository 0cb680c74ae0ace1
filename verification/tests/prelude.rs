//! What the prelude exports.

use procpilot::prelude::{
    AsyncSpawnedProcess, Cmd, Redirection, RetryPolicy, RunError, RunOutput, SpawnedProcess,
    StdinData,
};

#[allow(dead_code)]
fn _exports(
    _: Cmd,
    _: RunError,
    _: RunOutput,
    _: Redirection,
    _: RetryPolicy,
    _: StdinData,
    _: SpawnedProcess,
) {
}

#[allow(dead_code)]
fn _exports_async(_: AsyncSpawnedProcess) {}

#[test]
fn prelude_compiles() {
    // The references above are the assertion.
}
