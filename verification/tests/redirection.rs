//! Stdio redirections.

use procpilot::plan::{wire_redirection, Wire};
use procpilot::redirection::FileHandle;
use procpilot::Redirection;

#[test]
fn default_is_capture() {
    match Redirection::default() {
        Redirection::Capture => {}
        _ => panic!("default should be Capture"),
    }
}

#[test]
fn variants_are_constructible() {
    let _ = Redirection::Capture;
    let _ = Redirection::Inherit;
    let _ = Redirection::Null;
    assert_eq!(Redirection::file(FileHandle { id: 4 }), Redirection::File(FileHandle { id: 4 }));
}

#[test]
fn every_redirection_is_wired() {
    let f = FileHandle { id: 9 };
    assert_eq!(wire_redirection(Redirection::Capture), Wire::Piped);
    assert_eq!(wire_redirection(Redirection::Inherit), Wire::Inherit);
    assert_eq!(wire_redirection(Redirection::Null), Wire::Null);
    assert_eq!(wire_redirection(Redirection::File(f)), Wire::File(f));
}
