//! Where a child process's stdout or stderr goes.

use vstd::prelude::*;

verus! {

/// An open file of the host process, by the number that the host filed it
/// under. The host duplicates the file for every child that uses it.
#[derive(Debug, Clone, Copy, PartialEq, Eq, Structural)]
pub struct FileHandle {
    pub id: u64,
}

/// Stdio redirection. Both streams are captured by default.
#[derive(Debug, Clone, Copy, PartialEq, Eq, Structural)]
#[non_exhaustive]
pub enum Redirection {
    /// Capture into memory.
    Capture,
    /// Share the parent's stream.
    Inherit,
    /// Discard.
    Null,
    /// Write to a file.
    File(FileHandle),
}

impl Redirection {
    /// Redirect to a file.
    pub fn file(f: FileHandle) -> (r: Redirection)
        ensures
            r == Redirection::File(f),
    {
        Redirection::File(f)
    }

    pub fn is_capture(&self) -> (b: bool)
        ensures
            b == (*self is Capture),
    {
        matches!(self, Redirection::Capture)
    }
}

impl Default for Redirection {
    fn default() -> (r: Redirection)
        ensures
            r == Redirection::Capture,
    {
        Redirection::Capture
    }
}

/// A redirection to a file is to that file; only one that captures is a capture,
/// and that is the default.
pub proof fn law_redirections_are_made_as_asked(
    f: FileHandle,
    r: Redirection,
    b: bool,
    usual: Redirection,
)
    ensures
        call_ensures(Redirection::file, (f,), r) ==> r == Redirection::File(f),
        call_ensures(Redirection::is_capture, (&r,), b) ==> b == (r is Capture),
        call_ensures(Redirection::default, (), usual) ==> usual is Capture,
{
}

}
