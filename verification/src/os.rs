//! What the operating system hands over, as plain values: text that need not
//! be UTF-8, errors of system calls, and exit statuses. The operating system is
//! a Unix: text is bytes, and an exit status is a status word.

use vstd::prelude::*;
use vstd::utf8::*;

use crate::text;

verus! {

// ---------- text ----------

/// A program name, argument, path or environment entry: bytes that are
/// usually, but not necessarily, UTF-8.
#[derive(Debug, PartialEq, Eq)]
pub struct OsText {
    pub bytes: Vec<u8>,
}

impl View for OsText {
    type V = Seq<u8>;

    open spec fn view(&self) -> Seq<u8> {
        self.bytes@
    }
}

/// The views of several pieces of text.
pub open spec fn os_views(texts: Seq<OsText>) -> Seq<Seq<u8>> {
    texts.map_values(|t: OsText| t@)
}

impl OsText {
    pub fn from_str(s: &str) -> (t: OsText)
        ensures
            t@ == encode_utf8(s@),
    {
        OsText { bytes: vstd::slice::slice_to_vec(s.as_bytes()) }
    }

    pub fn from_bytes(bytes: Vec<u8>) -> (t: OsText)
        ensures
            t@ == bytes@,
    {
        OsText { bytes }
    }

    pub fn as_bytes(&self) -> (b: &[u8])
        ensures
            b@ == self@,
    {
        self.bytes.as_slice()
    }

    /// The text with whatever is not UTF-8 replaced.
    pub fn to_string_lossy(&self) -> (s: String)
        ensures
            s@ == text::lossy(self@),
    {
        text::decode_lossy(self.bytes.as_slice())
    }
}

impl Clone for OsText {
    fn clone(&self) -> (t: OsText)
        ensures
            t@ == self@,
    {
        OsText { bytes: vstd::slice::slice_to_vec(self.bytes.as_slice()) }
    }
}

/// A copy of several pieces of text.
pub(crate) fn clone_texts(texts: &Vec<OsText>) -> (out: Vec<OsText>)
    ensures
        os_views(out@) == os_views(texts@),
{
    let mut out: Vec<OsText> = Vec::new();
    let mut i: usize = 0;
    while i < texts.len()
        invariant
            i <= texts@.len(),
            out@.len() == i,
            forall|k: int| 0 <= k < i ==> (#[trigger] out@[k])@ == texts@[k]@,
        decreases texts@.len() - i,
    {
        out.push(texts[i].clone());
        i += 1;
    }
    assert(os_views(out@) =~= os_views(texts@));
    out
}

// ---------- errors ----------

/// Categories of system-call errors, by the names that std gives them.
#[derive(Debug, Clone, Copy, PartialEq, Eq, Structural)]
#[non_exhaustive]
pub enum IoErrorKind {
    NotFound,
    PermissionDenied,
    ConnectionRefused,
    ConnectionReset,
    HostUnreachable,
    NetworkUnreachable,
    ConnectionAborted,
    NotConnected,
    AddrInUse,
    AddrNotAvailable,
    NetworkDown,
    BrokenPipe,
    AlreadyExists,
    WouldBlock,
    NotADirectory,
    IsADirectory,
    DirectoryNotEmpty,
    ReadOnlyFilesystem,
    StaleNetworkFileHandle,
    InvalidInput,
    InvalidData,
    TimedOut,
    WriteZero,
    StorageFull,
    NotSeekable,
    QuotaExceeded,
    FileTooLarge,
    ResourceBusy,
    ExecutableFileBusy,
    Deadlock,
    CrossesDevices,
    TooManyLinks,
    InvalidFilename,
    ArgumentListTooLong,
    Interrupted,
    Unsupported,
    UnexpectedEof,
    OutOfMemory,
    Other,
    /// A category without a name of its own: the error's code, where it has
    /// one, tells which.
    Uncategorized,
}

/// A failed system call, or a request refused before one was made.
#[derive(Debug, PartialEq, Eq)]
pub struct IoError {
    pub kind: IoErrorKind,
    /// The operating system's number of the error, where it reported one.
    pub code: Option<i32>,
    pub message: String,
}

/// The contents of an [`IoError`].
pub ghost struct IoErrorView {
    pub kind: IoErrorKind,
    pub code: Option<i32>,
    pub message: Seq<char>,
}

impl View for IoError {
    type V = IoErrorView;

    open spec fn view(&self) -> IoErrorView {
        IoErrorView { kind: self.kind, code: self.code, message: self.message@ }
    }
}

impl IoErrorView {
    /// An error that the operating system did not report.
    pub open spec fn own(kind: IoErrorKind, message: Seq<char>) -> IoErrorView {
        IoErrorView { kind, code: None, message }
    }
}

impl IoError {
    pub fn new(kind: IoErrorKind, message: &str) -> (e: IoError)
        ensures
            e@ == IoErrorView::own(kind, message@),
    {
        IoError { kind, code: None, message: message.to_owned() }
    }

    /// An error of kind [`IoErrorKind::Other`].
    pub fn other(message: &str) -> (e: IoError)
        ensures
            e@ == IoErrorView::own(IoErrorKind::Other, message@),
    {
        IoError::new(IoErrorKind::Other, message)
    }

    /// An error that the operating system reported, with its number.
    pub fn from_os(code: i32, kind: IoErrorKind, message: &str) -> (e: IoError)
        ensures
            e@ == (IoErrorView { kind, code: Some(code), message: message@ }),
    {
        IoError { kind, code: Some(code), message: message.to_owned() }
    }

    pub fn kind(&self) -> (k: IoErrorKind)
        ensures
            k == self@.kind,
    {
        self.kind
    }

    /// The operating system's number of the error, where it reported one.
    pub fn raw_os_error(&self) -> (c: Option<i32>)
        ensures
            c == self@.code,
    {
        self.code
    }
}

impl Clone for IoError {
    fn clone(&self) -> (e: IoError)
        ensures
            e@ == self@,
    {
        IoError { kind: self.kind, code: self.code, message: self.message.clone() }
    }
}

// ---------- exit statuses ----------

/// How a child process ended, as the status word that `waitpid` reports on
/// Unix. This is the only form of a status that the library knows: it is meant
/// for Unix hosts.
#[derive(Debug, Clone, Copy, PartialEq, Eq, Structural)]
pub struct ExitStatus {
    pub raw: i32,
}

impl ExitStatus {
    /// The child ended by itself with code zero.
    pub open spec fn succeeded(self) -> bool {
        self.raw == 0
    }

    /// The exit code of a child that ended by itself: the second lowest byte
    /// of the word, where the lowest seven bits name no signal.
    pub open spec fn exit_code(self) -> Option<i32> {
        if self.raw & 0x7f == 0 {
            Some((self.raw >> 8) & 0xff)
        } else {
            None
        }
    }

    pub fn from_raw(raw: i32) -> (s: ExitStatus)
        ensures
            s.raw == raw,
    {
        ExitStatus { raw }
    }

    pub fn success(&self) -> (b: bool)
        ensures
            b == self.succeeded(),
    {
        self.raw == 0
    }

    /// The exit code, or `None` for a child that a signal ended.
    pub fn code(&self) -> (c: Option<i32>)
        ensures
            c == self.exit_code(),
    {
        if self.raw & 0x7f == 0 {
            Some((self.raw >> 8) & 0xff)
        } else {
            None
        }
    }
}

// ---------- laws ----------

/// Texts are their bytes, and an error is its kind, number and message.
pub proof fn law_contents_are_plain(texts: Seq<OsText>, e: IoError, i: int)
    requires
        0 <= i < texts.len(),
    ensures
        os_views(texts).len() == texts.len(),
        os_views(texts)[i] == texts[i].bytes@,
        e@.kind == e.kind,
        e@.code == e.code,
        e@.message == e.message@,
{
}

/// An error that the operating system did not report has no number.
pub proof fn law_own_errors_have_no_number(kind: IoErrorKind, message: Seq<char>)
    ensures
        IoErrorView::own(kind, message).code is None,
        IoErrorView::own(kind, message).kind == kind,
        IoErrorView::own(kind, message).message == message,
{
}

/// A status word holds the signal in its lowest seven bits, a flag above them,
/// and the exit code in the next byte. A child that a signal ended has no exit
/// code, any other has the one in its word, and success is the word zero.
pub proof fn law_status_word_layout(high: i32, code: i32, flag: i32, signal: i32)
    requires
        -0x8000 <= high < 0x8000,
        0 <= code < 0x100,
        0 <= flag < 2,
        0 <= signal < 0x80,
    ensures
        ({
            let raw = (high * 0x10000 + code * 0x100 + flag * 0x80 + signal) as i32;
            let status = ExitStatus { raw };
            &&& status.exit_code() == if signal == 0 {
                Some(code)
            } else {
                None
            }
            &&& status.succeeded() <==> high == 0 && code == 0 && flag == 0 && signal == 0
        }),
{
    let raw = (high * 0x10000 + code * 0x100 + flag * 0x80 + signal) as i32;
    assert(raw & 0x7f == signal && (raw >> 8) & 0xff == code) by (bit_vector)
        requires
            raw == high * 0x10000 + code * 0x100 + flag * 0x80 + signal,
            -0x8000 <= high < 0x8000,
            0 <= code < 0x100,
            0 <= flag < 2,
            0 <= signal < 0x80,
    ;
}

/// Text, errors and statuses, as they are made and told.
pub proof fn law_plain_values_are_kept(
    s: &str,
    bytes: Vec<u8>,
    t: OsText,
    slice: &[u8],
    text: String,
    kind: IoErrorKind,
    code: i32,
    e: IoError,
    told_kind: IoErrorKind,
    told_code: Option<i32>,
    copy: IoError,
)
    ensures
        call_ensures(OsText::from_str, (s,), t) ==> t.bytes@ == encode_utf8(s@),
        call_ensures(OsText::from_bytes, (bytes,), t) ==> t.bytes@ == bytes@,
        call_ensures(OsText::as_bytes, (&t,), slice) ==> slice@ == t.bytes@,
        call_ensures(OsText::to_string_lossy, (&t,), text) ==> text@ == text::lossy(t.bytes@),
        call_ensures(IoError::new, (kind, s), e) ==> e.kind == kind && e.code is None && e.message@
            == s@,
        call_ensures(IoError::other, (s,), e) ==> e.kind == IoErrorKind::Other && e.code is None
            && e.message@ == s@,
        call_ensures(IoError::from_os, (code, kind, s), e) ==> e.kind == kind && e.code == Some(
            code,
        ) && e.message@ == s@,
        call_ensures(IoError::kind, (&e,), told_kind) ==> told_kind == e.kind,
        call_ensures(IoError::raw_os_error, (&e,), told_code) ==> told_code == e.code,
        call_ensures(IoError::clone, (&e,), copy) ==> copy@ == e@,
{
}

/// A status, as it is asked: success is the word zero, and the code is the second
/// lowest byte of a word that names no signal.
pub proof fn law_statuses_tell_their_word(
    s: ExitStatus,
    raw: i32,
    made: ExitStatus,
    b: bool,
    c: Option<i32>,
)
    ensures
        call_ensures(ExitStatus::from_raw, (raw,), made) ==> made.raw == raw,
        call_ensures(ExitStatus::success, (&s,), b) ==> (b <==> s.raw == 0),
        call_ensures(ExitStatus::code, (&s,), c) ==> c == s.exit_code(),
{
}

}
