//! `RunError` may grow variants: a match outside the crate needs a wildcard.

use procpilot::os::{IoError, OsText};
use procpilot::{CmdDisplay, RunError};

#[test]
#[allow(unused_variables)]
fn run_error_stays_non_exhaustive() {
    let err = RunError::Spawn {
        command: CmdDisplay::new(OsText::from_str("x"), vec![], false),
        source: IoError::other("x"),
    };

    match err {
        RunError::Spawn { .. } => {}
        RunError::NonZeroExit { .. } => {}
        RunError::Timeout { .. } => {}
        _ => {}
    }
}
