//! The error type of a run, and the bound on the output that it carries.

use vstd::prelude::*;
use vstd::utf8::*;

use crate::cmd_display::{CmdDisplay, CmdDisplayView};
use crate::os::{ExitStatus, IoError, IoErrorView, OsText};
use crate::text;
use crate::time::Duration;

verus! {

/// Most bytes of stdout, and of stderr, that an error keeps. What is beyond it
/// is dropped from the front, so that the latest output stays.
pub const STREAM_SUFFIX_SIZE: usize = 128 * 1024;

/// Error type for subprocess execution.
///
/// Every variant carries a [`CmdDisplay`] for logging, which hides the
/// arguments of a secret command. All but `Spawn` carry the last
/// [`STREAM_SUFFIX_SIZE`] bytes of each stream and the 1-based attempt on
/// which the error came.
#[non_exhaustive]
pub enum RunError {
    /// The child could not be started, or could not be waited for.
    Spawn { command: CmdDisplay, source: IoError },
    /// The child ran and reported failure.
    NonZeroExit {
        command: CmdDisplay,
        status: ExitStatus,
        stdout: Vec<u8>,
        stderr: String,
        attempts: u32,
    },
    /// The child was killed when its time was up.
    Timeout {
        command: CmdDisplay,
        elapsed: Duration,
        stdout: Vec<u8>,
        stderr: String,
        attempts: u32,
    },
    /// The caller cancelled the run, and the children were stopped. The streams
    /// hold what was captured until then, and the attempt is the one that was
    /// under way. A run that is cancelled before it started anything captured
    /// nothing.
    Cancelled { command: CmdDisplay, stdout: Vec<u8>, stderr: String, attempts: u32 },
}

/// The contents of a [`RunError`].
pub ghost enum RunErrorView {
    Spawn { command: CmdDisplayView, source: IoErrorView },
    NonZeroExit {
        command: CmdDisplayView,
        status: ExitStatus,
        stdout: Seq<u8>,
        stderr: Seq<char>,
        attempts: u32,
    },
    Timeout {
        command: CmdDisplayView,
        elapsed: Duration,
        stdout: Seq<u8>,
        stderr: Seq<char>,
        attempts: u32,
    },
    Cancelled { command: CmdDisplayView, stdout: Seq<u8>, stderr: Seq<char>, attempts: u32 },
}

impl View for RunError {
    type V = RunErrorView;

    open spec fn view(&self) -> RunErrorView {
        match self {
            RunError::Spawn { command, source } => RunErrorView::Spawn {
                command: command@,
                source: source@,
            },
            RunError::NonZeroExit { command, status, stdout, stderr, attempts } => {
                RunErrorView::NonZeroExit {
                    command: command@,
                    status: *status,
                    stdout: stdout@,
                    stderr: stderr@,
                    attempts: *attempts,
                }
            },
            RunError::Timeout { command, elapsed, stdout, stderr, attempts } => {
                RunErrorView::Timeout {
                    command: command@,
                    elapsed: *elapsed,
                    stdout: stdout@,
                    stderr: stderr@,
                    attempts: *attempts,
                }
            },
            RunError::Cancelled { command, stdout, stderr, attempts } => RunErrorView::Cancelled {
                command: command@,
                stdout: stdout@,
                stderr: stderr@,
                attempts: *attempts,
            },
        }
    }
}

impl RunErrorView {
    pub open spec fn command(self) -> CmdDisplayView {
        match self {
            RunErrorView::Spawn { command, .. } => command,
            RunErrorView::NonZeroExit { command, .. } => command,
            RunErrorView::Timeout { command, .. } => command,
            RunErrorView::Cancelled { command, .. } => command,
        }
    }

    pub open spec fn stderr(self) -> Option<Seq<char>> {
        match self {
            RunErrorView::Spawn { .. } => None,
            RunErrorView::NonZeroExit { stderr, .. } => Some(stderr),
            RunErrorView::Timeout { stderr, .. } => Some(stderr),
            RunErrorView::Cancelled { stderr, .. } => Some(stderr),
        }
    }

    pub open spec fn stdout(self) -> Option<Seq<u8>> {
        match self {
            RunErrorView::Spawn { .. } => None,
            RunErrorView::NonZeroExit { stdout, .. } => Some(stdout),
            RunErrorView::Timeout { stdout, .. } => Some(stdout),
            RunErrorView::Cancelled { stdout, .. } => Some(stdout),
        }
    }

    pub open spec fn attempts(self) -> u32 {
        match self {
            RunErrorView::Spawn { .. } => 1,
            RunErrorView::NonZeroExit { attempts, .. } => attempts,
            RunErrorView::Timeout { attempts, .. } => attempts,
            RunErrorView::Cancelled { attempts, .. } => attempts,
        }
    }

    /// The same error on another attempt; a spawn failure records none.
    pub open spec fn stamped(self, n: u32) -> RunErrorView {
        match self {
            RunErrorView::Spawn { .. } => self,
            RunErrorView::NonZeroExit { command, status, stdout, stderr, .. } => {
                RunErrorView::NonZeroExit { command, status, stdout, stderr, attempts: n }
            },
            RunErrorView::Timeout { command, elapsed, stdout, stderr, .. } => {
                RunErrorView::Timeout { command, elapsed, stdout, stderr, attempts: n }
            },
            RunErrorView::Cancelled { command, stdout, stderr, .. } => RunErrorView::Cancelled {
                command,
                stdout,
                stderr,
                attempts: n,
            },
        }
    }

    /// The same error of another command.
    pub open spec fn of_command(self, other: CmdDisplayView) -> RunErrorView {
        match self {
            RunErrorView::Spawn { source, .. } => RunErrorView::Spawn { command: other, source },
            RunErrorView::NonZeroExit { status, stdout, stderr, attempts, .. } => {
                RunErrorView::NonZeroExit { command: other, status, stdout, stderr, attempts }
            },
            RunErrorView::Timeout { elapsed, stdout, stderr, attempts, .. } => {
                RunErrorView::Timeout { command: other, elapsed, stdout, stderr, attempts }
            },
            RunErrorView::Cancelled { stdout, stderr, attempts, .. } => RunErrorView::Cancelled {
                command: other,
                stdout,
                stderr,
                attempts,
            },
        }
    }

    /// The message for people: the command, what became of it, and the
    /// trimmed stderr where there is any. `detail` is the rendered exit status
    /// for a failed exit and the seconds for a timeout; nothing else uses it.
    pub open spec fn message(self, detail: Seq<char>) -> Seq<char> {
        let command = self.command().rendered();
        match self {
            RunErrorView::Spawn { source, .. } => "failed to spawn `"@ + command + "`: "@
                + source.message,
            RunErrorView::NonZeroExit { stderr, .. } => "`"@ + command + "` exited with "@ + detail
                + noted(stderr, ": "@),
            RunErrorView::Timeout { stderr, .. } => "`"@ + command + "` killed after timeout ("@
                + detail + "s)"@ + noted(stderr, "; last stderr: "@),
            RunErrorView::Cancelled { stderr, .. } => "`"@ + command + "` cancelled by caller"@
                + noted(stderr, "; last stderr: "@),
        }
    }
}

/// The trimmed stderr behind `lead`, or nothing where it is blank.
pub open spec fn noted(stderr: Seq<char>, lead: Seq<char>) -> Seq<char> {
    let trimmed = text::trimmed(stderr);
    if trimmed.len() == 0 {
        Seq::empty()
    } else {
        lead + trimmed
    }
}

fn append_noted(out: &mut String, stderr: &String, lead: &str)
    ensures
        final(out)@ == old(out)@ + noted(stderr@, lead@),
{
    let trimmed = text::trim(stderr.as_str());
    if !trimmed.as_str().is_empty() {
        out.append(lead);
        out.append(trimmed.as_str());
    }
    assert(out@ =~= old(out)@ + noted(stderr@, lead@));
}

impl RunError {
    /// The command that failed.
    pub fn command(&self) -> (c: &CmdDisplay)
        ensures
            c@ == self@.command(),
    {
        match self {
            RunError::Spawn { command, .. } => command,
            RunError::NonZeroExit { command, .. } => command,
            RunError::Timeout { command, .. } => command,
            RunError::Cancelled { command, .. } => command,
        }
    }

    /// The program of the command's first stage.
    pub fn program(&self) -> (p: &OsText)
        ensures
            self@.command().stages.len() >= 1,
            p@ == self@.command().stages[0].program,
    {
        self.command().program()
    }

    /// The captured stderr, as lossily decoded text. None for spawn failures.
    pub fn stderr(&self) -> (s: Option<&str>)
        ensures
            s is Some <==> self@.stderr() is Some,
            s matches Some(text) ==> Some(text@) == self@.stderr(),
    {
        match self {
            RunError::NonZeroExit { stderr, .. } => Some(stderr.as_str()),
            RunError::Timeout { stderr, .. } => Some(stderr.as_str()),
            RunError::Cancelled { stderr, .. } => Some(stderr.as_str()),
            RunError::Spawn { .. } => None,
        }
    }

    /// The captured stdout. None for spawn failures.
    pub fn stdout(&self) -> (s: Option<&[u8]>)
        ensures
            s is Some <==> self@.stdout() is Some,
            s matches Some(bytes) ==> Some(bytes@) == self@.stdout(),
    {
        match self {
            RunError::NonZeroExit { stdout, .. } => Some(stdout.as_slice()),
            RunError::Timeout { stdout, .. } => Some(stdout.as_slice()),
            RunError::Cancelled { stdout, .. } => Some(stdout.as_slice()),
            RunError::Spawn { .. } => None,
        }
    }

    /// The exit status, if the process ran to completion.
    pub fn exit_status(&self) -> (s: Option<ExitStatus>)
        ensures
            s == (match self@ {
                RunErrorView::NonZeroExit { status, .. } => Some(status),
                _ => None,
            }),
    {
        match self {
            RunError::NonZeroExit { status, .. } => Some(*status),
            RunError::Spawn { .. } | RunError::Timeout { .. } | RunError::Cancelled { .. } => None,
        }
    }

    /// The 1-based attempt on which this error occurred; 1 for spawn failures.
    pub fn attempts(&self) -> (n: u32)
        ensures
            n == self@.attempts(),
    {
        match self {
            RunError::Spawn { .. } => 1,
            RunError::NonZeroExit { attempts, .. } => *attempts,
            RunError::Timeout { attempts, .. } => *attempts,
            RunError::Cancelled { attempts, .. } => *attempts,
        }
    }

    pub fn is_non_zero_exit(&self) -> (b: bool)
        ensures
            b == (self@ is NonZeroExit),
    {
        matches!(self, RunError::NonZeroExit { .. })
    }

    pub fn is_spawn_failure(&self) -> (b: bool)
        ensures
            b == (self@ is Spawn),
    {
        matches!(self, RunError::Spawn { .. })
    }

    pub fn is_timeout(&self) -> (b: bool)
        ensures
            b == (self@ is Timeout),
    {
        matches!(self, RunError::Timeout { .. })
    }

    pub fn is_cancelled(&self) -> (b: bool)
        ensures
            b == (self@ is Cancelled),
    {
        matches!(self, RunError::Cancelled { .. })
    }

    /// The error that caused this one: that of a spawn failure.
    pub fn source(&self) -> (s: Option<&IoError>)
        ensures
            s is Some <==> self@ is Spawn,
            s matches Some(e) ==> e@ == self@->source,
    {
        match self {
            RunError::Spawn { source, .. } => Some(source),
            RunError::NonZeroExit { .. } | RunError::Timeout { .. } | RunError::Cancelled { .. } => {
                None
            },
        }
    }

    /// Stamp this error with the attempt that it came on.
    pub fn with_attempts(self, n: u32) -> (e: RunError)
        ensures
            e@ == self@.stamped(n),
    {
        match self {
            RunError::NonZeroExit { command, status, stdout, stderr, .. } => {
                RunError::NonZeroExit { command, status, stdout, stderr, attempts: n }
            },
            RunError::Timeout { command, elapsed, stdout, stderr, .. } => RunError::Timeout {
                command,
                elapsed,
                stdout,
                stderr,
                attempts: n,
            },
            RunError::Cancelled { command, stdout, stderr, .. } => RunError::Cancelled {
                command,
                stdout,
                stderr,
                attempts: n,
            },
            RunError::Spawn { command, source } => RunError::Spawn { command, source },
        }
    }

    /// The message for people. `detail` is how the platform renders the exit
    /// status of a failed exit, or the elapsed seconds of a timeout to one
    /// decimal place.
    pub fn message(&self, detail: &str) -> (out: String)
        ensures
            out@ == self@.message(detail@),
    {
        let mut out = String::new();
        match self {
            RunError::Spawn { command, source } => {
                out.append("failed to spawn `");
                out.append(command.to_string().as_str());
                out.append("`: ");
                out.append(source.message.as_str());
            },
            RunError::NonZeroExit { command, stderr, .. } => {
                out.append("`");
                out.append(command.to_string().as_str());
                out.append("` exited with ");
                out.append(detail);
                append_noted(&mut out, stderr, ": ");
            },
            RunError::Timeout { command, stderr, .. } => {
                out.append("`");
                out.append(command.to_string().as_str());
                out.append("` killed after timeout (");
                out.append(detail);
                out.append("s)");
                append_noted(&mut out, stderr, "; last stderr: ");
            },
            RunError::Cancelled { command, stderr, .. } => {
                out.append("`");
                out.append(command.to_string().as_str());
                out.append("` cancelled by caller");
                append_noted(&mut out, stderr, "; last stderr: ");
            },
        }
        assert(out@ =~= self@.message(detail@));
        out
    }
}

// ---------- bounding captured output ----------

/// The last [`STREAM_SUFFIX_SIZE`] bytes.
pub open spec fn kept_bytes(bytes: Seq<u8>) -> Seq<u8> {
    if bytes.len() <= STREAM_SUFFIX_SIZE {
        bytes
    } else {
        bytes.skip(bytes.len() - STREAM_SUFFIX_SIZE)
    }
}

/// The longest tail of the text that takes at most [`STREAM_SUFFIX_SIZE`]
/// bytes of UTF-8.
pub open spec fn kept_text(s: Seq<char>) -> Seq<char>
    decreases s.len(),
{
    if encode_utf8(s).len() <= STREAM_SUFFIX_SIZE || s.len() == 0 {
        s
    } else {
        kept_text(s.drop_first())
    }
}

/// Keep the last [`STREAM_SUFFIX_SIZE`] bytes.
pub fn truncate_suffix(buf: Vec<u8>) -> (out: Vec<u8>)
    ensures
        out@ == kept_bytes(buf@),
{
    let mut buf = buf;
    if buf.len() > STREAM_SUFFIX_SIZE {
        let drop: usize = buf.len() - STREAM_SUFFIX_SIZE;
        buf.split_off(drop)
    } else {
        buf
    }
}

/// Cutting at the first character boundary that leaves few enough bytes keeps
/// the longest tail that fits.
proof fn lemma_first_boundary_keeps(s: Seq<char>, start: int)
    requires
        encode_utf8(s).len() > STREAM_SUFFIX_SIZE,
        encode_utf8(s).len() - STREAM_SUFFIX_SIZE <= start <= encode_utf8(s).len(),
        is_char_boundary(encode_utf8(s), start),
        forall|j: int|
            encode_utf8(s).len() - STREAM_SUFFIX_SIZE <= j < start ==> !is_char_boundary(
                encode_utf8(s),
                j,
            ),
    ensures
        encode_utf8(kept_text(s)) == encode_utf8(s).skip(start),
    decreases s.len(),
{
    let bytes = encode_utf8(s);
    assert(s.len() > 0);
    let rest = s.drop_first();
    assert(kept_text(s) == kept_text(rest));
    let width = encode_scalar(s[0] as u32).len() as int;
    encode_utf8_valid_utf8(s);
    encode_utf8_valid_utf8(rest);
    encode_utf8_first_scalar(s);
    assert(pop_first_scalar(bytes) =~= encode_utf8(rest));
    let tail = encode_utf8(rest);
    assert forall|j: int| 0 < j <= bytes.len() implies is_char_boundary(bytes, j)
        == is_char_boundary(tail, j - width) by {}
    let drop = bytes.len() - STREAM_SUFFIX_SIZE;
    if tail.len() <= STREAM_SUFFIX_SIZE {
        assert(is_char_boundary(tail, 0));
        assert(is_char_boundary(bytes, width));
        assert(start <= width);
        assert(start == width);
        assert(kept_text(rest) == rest);
        assert(bytes.skip(start) =~= tail);
    } else {
        assert forall|j: int|
            tail.len() - STREAM_SUFFIX_SIZE <= j < start - width implies !is_char_boundary(
            tail,
            j,
        ) by {
            assert(!is_char_boundary(bytes, j + width));
        }
        lemma_first_boundary_keeps(rest, start - width);
        assert(bytes.skip(start) =~= tail.skip(start - width));
    }
}

/// String version of [`truncate_suffix`]: never cuts through a character.
pub fn truncate_suffix_string(s: String) -> (out: String)
    ensures
        out@ == kept_text(s@),
{
    let len: usize = s.as_str().as_bytes().len();
    if len <= STREAM_SUFFIX_SIZE {
        return s;
    }
    let drop: usize = len - STREAM_SUFFIX_SIZE;
    let mut start: usize = drop;
    let ghost bytes = encode_utf8(s@);
    proof {
        encode_utf8_valid_utf8(s@);
        is_char_boundary_start_end_of_seq(bytes);
    }
    while start < len && !s.as_str().is_char_boundary(start)
        invariant
            drop <= start <= len,
            len == bytes.len(),
            bytes == encode_utf8(s@),
            forall|j: int| drop <= j < start ==> !is_char_boundary(bytes, j),
        decreases len - start,
    {
        start += 1;
    }
    assert(is_char_boundary(bytes, start as int));
    let kept = s.as_str().split_at(start).1.to_owned();
    proof {
        lemma_first_boundary_keeps(s@, start as int);
        assert(encode_utf8(kept@) =~= bytes.skip(start as int));
        encode_utf8_decode_utf8(kept@);
        encode_utf8_decode_utf8(kept_text(s@));
    }
    kept
}

// ---------- laws ----------

/// What is kept of a byte stream is its tail, is as long as the bound allows,
/// and is the whole stream where that fits.
pub proof fn law_kept_bytes_are_the_bounded_tail(bytes: Seq<u8>)
    ensures
        kept_bytes(bytes).len() == if bytes.len() <= STREAM_SUFFIX_SIZE {
            bytes.len()
        } else {
            STREAM_SUFFIX_SIZE as nat
        },
        kept_bytes(bytes) == bytes.skip(bytes.len() - kept_bytes(bytes).len()),
        kept_bytes(kept_bytes(bytes)) == kept_bytes(bytes),
{
    assert(bytes.skip(0) =~= bytes);
}

/// What is kept of a text is its tail, fits the bound, and misses it by less
/// than one character where anything was dropped: no longer tail would fit.
pub proof fn law_kept_text_is_the_bounded_tail(s: Seq<char>)
    ensures
        kept_text(s).len() <= s.len(),
        kept_text(s) == s.skip(s.len() - kept_text(s).len()),
        encode_utf8(kept_text(s)).len() <= STREAM_SUFFIX_SIZE,
        kept_text(s) == s || encode_utf8(kept_text(s)).len() + 4 > STREAM_SUFFIX_SIZE,
        forall|k: int|
            0 <= k < s.len() - kept_text(s).len() ==> encode_utf8(#[trigger] s.skip(k)).len()
                > STREAM_SUFFIX_SIZE,
    decreases s.len(),
{
    if encode_utf8(s).len() <= STREAM_SUFFIX_SIZE || s.len() == 0 {
        assert(s.skip(0) =~= s);
    } else {
        let rest = s.drop_first();
        law_kept_text_is_the_bounded_tail(rest);
        let kept = kept_text(rest);
        assert(rest.skip(rest.len() - kept.len()) =~= s.skip(s.len() - kept.len()));
        assert forall|k: int| 0 <= k < s.len() - kept.len() implies encode_utf8(
            #[trigger] s.skip(k),
        ).len() > STREAM_SUFFIX_SIZE by {
            if k == 0 {
                assert(s.skip(0) =~= s);
            } else {
                assert(s.skip(k) =~= rest.skip(k - 1));
            }
        }
        assert(encode_utf8(s).len() <= encode_utf8(rest).len() + 4);
    }
}

/// The message of an error of a secret command does not depend on any of the
/// command's arguments.
pub proof fn law_message_hides_secret_arguments(
    error: RunErrorView,
    other: CmdDisplayView,
    detail: Seq<char>,
)
    requires
        error.command().secret,
        other.secret,
        other.stages.len() == error.command().stages.len(),
        forall|i: int|
            0 <= i < other.stages.len() ==> (#[trigger] other.stages[i]).program
                == error.command().stages[i].program,
    ensures
        error.of_command(other).message(detail) == error.message(detail),
{
    crate::cmd_display::law_secret_hides_arguments(other, error.command());
}

/// The bound on captured output is 128 KiB.
pub proof fn law_streams_are_bounded_by_128_kib()
    ensures
        STREAM_SUFFIX_SIZE == 128 * 1024,
{
}

/// The contents of an error are its own parts, none dropped and none swapped.
pub proof fn law_contents_are_the_parts(
    command: CmdDisplay,
    source: IoError,
    status: ExitStatus,
    elapsed: Duration,
    stdout: Vec<u8>,
    stderr: String,
    attempts: u32,
)
    ensures
        (RunError::Spawn { command, source })@ == (RunErrorView::Spawn {
            command: command@,
            source: source@,
        }),
        (RunError::NonZeroExit { command, status, stdout, stderr, attempts })@ == (
        RunErrorView::NonZeroExit {
            command: command@,
            status,
            stdout: stdout@,
            stderr: stderr@,
            attempts,
        }),
        (RunError::Timeout { command, elapsed, stdout, stderr, attempts })@ == (
        RunErrorView::Timeout {
            command: command@,
            elapsed,
            stdout: stdout@,
            stderr: stderr@,
            attempts,
        }),
        (RunError::Cancelled { command, stdout, stderr, attempts })@ == (RunErrorView::Cancelled {
            command: command@,
            stdout: stdout@,
            stderr: stderr@,
            attempts,
        }),
{
}

/// Only a spawn failure has no captured streams, and it counts as the first
/// attempt; every other error shows the streams and the attempt that it holds.
pub proof fn law_errors_show_what_they_hold(e: RunErrorView)
    ensures
        e.stdout() is None <==> e is Spawn,
        e.stderr() is None <==> e is Spawn,
        e is Spawn ==> e.attempts() == 1,
        e matches RunErrorView::Spawn { command, .. } ==> e.command() == command,
        e matches RunErrorView::NonZeroExit { command, stdout, stderr, attempts, .. } ==> {
            &&& e.command() == command
            &&& e.stdout() == Some(stdout)
            &&& e.stderr() == Some(stderr)
            &&& e.attempts() == attempts
        },
        e matches RunErrorView::Timeout { command, stdout, stderr, attempts, .. } ==> {
            &&& e.command() == command
            &&& e.stdout() == Some(stdout)
            &&& e.stderr() == Some(stderr)
            &&& e.attempts() == attempts
        },
        e matches RunErrorView::Cancelled { command, stdout, stderr, attempts } ==> {
            &&& e.command() == command
            &&& e.stdout() == Some(stdout)
            &&& e.stderr() == Some(stderr)
            &&& e.attempts() == attempts
        },
{
}

/// Stamping an error with an attempt changes that number and nothing else, and
/// only the last stamp counts. A spawn failure takes no stamp.
pub proof fn law_stamping_sets_the_attempt_alone(e: RunErrorView, n: u32, m: u32)
    ensures
        e is Spawn ==> e.stamped(n) == e,
        e !is Spawn ==> e.stamped(n).attempts() == n,
        e.stamped(n).command() == e.command(),
        e.stamped(n).stdout() == e.stdout(),
        e.stamped(n).stderr() == e.stderr(),
        e.stamped(e.attempts()) == e,
        e.stamped(n).stamped(m) == e.stamped(m),
        e is NonZeroExit <==> e.stamped(n) is NonZeroExit,
        e is Timeout <==> e.stamped(n) is Timeout,
        e is Cancelled <==> e.stamped(n) is Cancelled,
        e matches RunErrorView::NonZeroExit { status: s, .. } ==> e.stamped(
            n,
        )->NonZeroExit_status == s,
        e matches RunErrorView::Timeout { elapsed: t, .. } ==> e.stamped(n)->Timeout_elapsed == t,
{
}

/// A message names the command and what became of it: for a spawn failure the
/// cause, for an exit and a timeout the rendered detail. Stderr that is not
/// blank follows, trimmed; a blank one leaves no trace.
pub proof fn law_messages_tell_what_became_of_the_command(e: RunErrorView, detail: Seq<char>)
    ensures
        ({
            let shown = e.command().rendered();
            let (told, lead) = match e {
                RunErrorView::Spawn { source, .. } => (
                    "failed to spawn `"@ + shown + "`: "@ + source.message,
                    ""@,
                ),
                RunErrorView::NonZeroExit { .. } => (
                    "`"@ + shown + "` exited with "@ + detail,
                    ": "@,
                ),
                RunErrorView::Timeout { .. } => (
                    "`"@ + shown + "` killed after timeout ("@ + detail + "s)"@,
                    "; last stderr: "@,
                ),
                RunErrorView::Cancelled { .. } => (
                    "`"@ + shown + "` cancelled by caller"@,
                    "; last stderr: "@,
                ),
            };
            &&& told.is_prefix_of(e.message(detail))
            &&& e is Spawn ==> e.message(detail) == told
            &&& e.stderr() matches Some(text) ==> {
                let said = text::trimmed(text);
                if said.len() > 0 {
                    e.message(detail) == told + lead + said
                } else {
                    e.message(detail) == told
                }
            }
        }),
{
    let m = e.message(detail);
    if let Some(text) = e.stderr() {
        let said = text::trimmed(text);
        let lead = if e is NonZeroExit {
            ": "@
        } else {
            "; last stderr: "@
        };
        let told = m.take(m.len() - noted(text, lead).len());
        assert(m =~= told + noted(text, lead));
        if said.len() > 0 {
            assert(told + (lead + said) =~= told + lead + said);
        } else {
            assert(m =~= told);
        }
    }
}

/// What is kept of a stream, as it is cut: the whole of it where it fits, else
/// its longest tail that does, which never begins inside a character.
pub proof fn law_cutting_keeps_the_longest_tail(
    buf: Vec<u8>,
    kept: Vec<u8>,
    s: String,
    text: String,
)
    ensures
        call_ensures(truncate_suffix, (buf,), kept) ==> {
            &&& kept@ == buf@.skip(buf@.len() - kept@.len())
            &&& kept@.len() == if buf@.len() <= 128 * 1024 {
                buf@.len()
            } else {
                128 * 1024
            }
        },
        call_ensures(truncate_suffix_string, (s,), text) ==> {
            &&& text@.len() <= s@.len()
            &&& text@ == s@.skip(s@.len() - text@.len())
            &&& encode_utf8(text@).len() <= 128 * 1024
            &&& forall|k: int|
                0 <= k < s@.len() - text@.len() ==> encode_utf8(#[trigger] s@.skip(k)).len() > 128
                    * 1024
        },
{
    law_kept_bytes_are_the_bounded_tail(buf@);
    law_kept_text_is_the_bounded_tail(s@);
}

/// An error answers for what it holds.
pub proof fn law_errors_answer_for_what_they_hold(
    e: &RunError,
    command: &CmdDisplay,
    program: &OsText,
    text: Option<&str>,
    bytes: Option<&[u8]>,
    status: Option<ExitStatus>,
    attempts: u32,
    b: bool,
    source: Option<&IoError>,
)
    ensures
        call_ensures(RunError::command, (e,), command) ==> command@ == e@.command(),
        call_ensures(RunError::program, (e,), program) ==> program@
            == e@.command().stages[0].program,
        call_ensures(RunError::stderr, (e,), text) ==> {
            &&& text is None <==> e@ is Spawn
            &&& text matches Some(s) ==> e@.stderr() == Some(s@)
        },
        call_ensures(RunError::stdout, (e,), bytes) ==> {
            &&& bytes is None <==> e@ is Spawn
            &&& bytes matches Some(s) ==> e@.stdout() == Some(s@)
        },
        call_ensures(RunError::exit_status, (e,), status) ==> {
            &&& status is Some <==> e@ is NonZeroExit
            &&& status matches Some(s) ==> e@->status == s
        },
        call_ensures(RunError::attempts, (e,), attempts) ==> {
            &&& e@ is Spawn ==> attempts == 1
            &&& attempts == e@.attempts()
        },
        call_ensures(RunError::is_non_zero_exit, (e,), b) ==> b == (e@ is NonZeroExit),
        call_ensures(RunError::is_spawn_failure, (e,), b) ==> b == (e@ is Spawn),
        call_ensures(RunError::is_timeout, (e,), b) ==> b == (e@ is Timeout),
        call_ensures(RunError::is_cancelled, (e,), b) ==> b == (e@ is Cancelled),
        call_ensures(RunError::source, (e,), source) ==> {
            &&& source is Some <==> e@ is Spawn
            &&& source matches Some(cause) ==> cause@ == e@->source
        },
{
}

/// Stamping and telling an error, as they are done.
pub proof fn law_errors_are_stamped_and_told(
    e: RunError,
    n: u32,
    stamped: RunError,
    detail: &str,
    out: String,
)
    ensures
        call_ensures(RunError::with_attempts, (e, n), stamped) ==> {
            &&& stamped@ == e@.stamped(n)
            &&& e@ !is Spawn ==> stamped@.attempts() == n
            &&& stamped@.command() == e@.command()
        },
        call_ensures(RunError::message, (&e, detail), out) ==> out@ == e@.message(detail@),
{
}

}
