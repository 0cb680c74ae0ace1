//! Whether a binary is there, and which version it says it is.
//!
//! The heuristic: run `name --version` and see whether it exits with zero. A
//! binary that does not know the flag appears to be missing.

use vstd::prelude::*;
use vstd::utf8::*;

use crate::cmd;
use crate::cmd::{SingleCmd, SingleView};
use crate::os::{ExitStatus, IoError, OsText};
use crate::text;

verus! {

/// The command that is run to find out.
pub fn version_probe(name: &str) -> (c: SingleCmd)
    ensures
        c@ == (SingleView { args: seq![encode_utf8("--version"@)], ..cmd::bare(encode_utf8(name@)) }),
{
    let mut args: Vec<OsText> = Vec::new();
    args.push(OsText::from_str("--version"));
    let c = SingleCmd {
        program: OsText::from_str(name),
        args,
        cwd: None,
        env_clear: false,
        env_remove: Vec::new(),
        envs: Vec::new(),
    };
    assert(c@.args =~= seq![encode_utf8("--version"@)]);
    assert(c@.env_remove =~= Seq::<Seq<u8>>::empty());
    assert(c@.envs =~= Seq::<(Seq<u8>, Seq<u8>)>::empty());
    c
}

/// Whether the binary is there, by the exit of the probe, its output discarded.
pub fn binary_available(probe: Result<ExitStatus, IoError>) -> (b: bool)
    ensures
        b == (probe matches Ok(status) && status.succeeded()),
{
    match probe {
        Ok(status) => status.success(),
        Err(_) => false,
    }
}

/// What the binary says of its version, by the exit of the probe and its
/// stdout: the trimmed text, if the probe succeeded.
pub fn binary_version(probe: Result<(ExitStatus, Vec<u8>), IoError>) -> (v: Option<String>)
    ensures
        match probe {
            Ok((status, stdout)) => match v {
                Some(s) => status.succeeded() && s@ == text::trimmed(text::lossy(stdout@)),
                None => !status.succeeded(),
            },
            Err(_) => v is None,
        },
{
    match probe {
        Ok((status, stdout)) => if status.success() {
            let decoded = text::decode_lossy(stdout.as_slice());
            Some(text::trim(decoded.as_str()))
        } else {
            None
        },
        Err(_) => None,
    }
}

/// The probe asks the program by its name for its version, and nothing else. The
/// program is there exactly if the probe ran and exited with zero, and its
/// version is the probe's stdout without the white space around it.
pub proof fn law_probe_asks_for_the_version(
    name: &str,
    c: SingleCmd,
    probe: Result<ExitStatus, IoError>,
    there: bool,
    status: ExitStatus,
    stdout: Vec<u8>,
    failure: IoError,
    v: Option<String>,
    lead: Seq<char>,
    version: Seq<char>,
    trail: Seq<char>,
)
    requires
        forall|i: int| 0 <= i < lead.len() ==> text::is_white_space(#[trigger] lead[i]),
        forall|i: int| 0 <= i < trail.len() ==> text::is_white_space(#[trigger] trail[i]),
        version.len() > 0 ==> !text::is_white_space(version[0]) && !text::is_white_space(
            version.last(),
        ),
    ensures
        call_ensures(version_probe, (name,), c) ==> {
            &&& c@.program == encode_utf8(name@)
            &&& c@.args == seq![encode_utf8("--version"@)]
            &&& c@.cwd is None
            &&& !c@.env_clear
            &&& c@.env_remove.len() == 0
            &&& c@.envs.len() == 0
        },
        call_ensures(binary_available, (probe,), there) ==> (there <==> (probe matches Ok(s)
            && s.raw == 0)),
        call_ensures(binary_version, (Ok((status, stdout)),), v) ==> {
            &&& v is Some <==> status.raw == 0
            &&& stdout@ == encode_utf8(lead + version + trail) ==> (v matches Some(s) ==> s@
                == version)
        },
        call_ensures(binary_version, (Err(failure),), v) ==> v is None,
{
    text::law_text_survives_lossy_decoding(lead + version + trail);
    text::law_trimming_undoes_padding(lead, version, trail);
}

}
