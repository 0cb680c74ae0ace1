//! What a successful run hands back.

use vstd::prelude::*;

use crate::error::{RunError, RunErrorView};
use crate::text;

verus! {

/// The output of a command that succeeded.
#[derive(Debug, PartialEq, Eq)]
#[non_exhaustive]
pub struct RunOutput {
    /// Raw bytes, in full.
    pub stdout: Vec<u8>,
    /// Lossily decoded text, in full.
    pub stderr: String,
}

/// The contents of a [`RunOutput`].
pub ghost struct RunOutputView {
    pub stdout: Seq<u8>,
    pub stderr: Seq<char>,
}

impl View for RunOutput {
    type V = RunOutputView;

    open spec fn view(&self) -> RunOutputView {
        RunOutputView { stdout: self.stdout@, stderr: self.stderr@ }
    }
}

impl RunOutput {
    /// Stdout as text, with whatever is not UTF-8 replaced.
    pub fn stdout_lossy(&self) -> (s: String)
        ensures
            s@ == text::lossy(self@.stdout),
    {
        text::decode_lossy(self.stdout.as_slice())
    }
}

/// The contents of what a run returned.
pub open spec fn result_view(r: Result<RunOutput, RunError>) -> Result<
    RunOutputView,
    RunErrorView,
> {
    match r {
        Ok(out) => Ok(out@),
        Err(e) => Err(e@),
    }
}

/// What a run returned is an output or an error, with its own contents.
pub proof fn law_result_contents(out: RunOutput, e: RunError)
    ensures
        out@.stdout == out.stdout@,
        out@.stderr == out.stderr@,
        result_view(Ok(out)) == Ok::<_, RunErrorView>(out@),
        result_view(Err(e)) == Err::<RunOutputView, _>(e@),
{
}

/// Stdout as text is its lossy decoding: UTF-8 comes through unchanged.
pub proof fn law_stdout_reads_as_text(out: &RunOutput, s: String, text: Seq<char>)
    requires
        call_ensures(RunOutput::stdout_lossy, (out,), s),
    ensures
        s@ == text::lossy(out@.stdout),
        out@.stdout == vstd::utf8::encode_utf8(text) ==> s@ == text,
{
    text::law_text_survives_lossy_decoding(text);
}

}
