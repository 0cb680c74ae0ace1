//! Stdin input for a command.
//!
//! Owned bytes are fed anew to every attempt. A reader, sync or async, is
//! one-shot: the first attempt that asks for it takes it, and every later
//! attempt, of the same command or of a clone, gets no stdin.

use vstd::prelude::*;
use vstd::utf8::*;

use crate::cmd_display::{CmdDisplay, CmdDisplayView};
use crate::error::{RunError, RunErrorView};
use crate::os::{IoError, IoErrorKind, IoErrorView};
use crate::text;

verus! {

/// A streaming source that the host filed, by its number.
#[derive(Debug, Clone, Copy, PartialEq, Eq, Structural)]
pub struct ReaderSlot {
    pub index: usize,
}

/// Input for a child's stdin.
#[derive(PartialEq, Eq)]
#[non_exhaustive]
pub enum StdinData {
    /// Owned bytes, reusable across attempts.
    Bytes(Vec<u8>),
    /// A one-shot blocking reader.
    Reader(ReaderSlot),
    /// A one-shot async reader; the blocking runner refuses it.
    AsyncReader(ReaderSlot),
}

/// The contents of a [`StdinData`].
pub ghost enum StdinView {
    Bytes(Seq<u8>),
    Reader(ReaderSlot),
    AsyncReader(ReaderSlot),
}

impl View for StdinData {
    type V = StdinView;

    open spec fn view(&self) -> StdinView {
        match self {
            StdinData::Bytes(b) => StdinView::Bytes(b@),
            StdinData::Reader(slot) => StdinView::Reader(*slot),
            StdinData::AsyncReader(slot) => StdinView::AsyncReader(*slot),
        }
    }
}

impl StdinView {
    pub open spec fn debug(self) -> Seq<char> {
        match self {
            StdinView::Bytes(b) => "Bytes { len: "@ + text::decimal(b.len()) + " }"@,
            StdinView::Reader(_) => "Reader { .. }"@,
            StdinView::AsyncReader(_) => "AsyncReader { .. }"@,
        }
    }
}

impl StdinData {
    /// A blocking reader as one-shot stdin.
    pub fn from_reader(slot: ReaderSlot) -> (d: StdinData)
        ensures
            d@ == StdinView::Reader(slot),
    {
        StdinData::Reader(slot)
    }

    /// An async reader as one-shot stdin.
    pub fn from_async_reader(slot: ReaderSlot) -> (d: StdinData)
        ensures
            d@ == StdinView::AsyncReader(slot),
    {
        StdinData::AsyncReader(slot)
    }

    /// The debugging rendering: how many bytes, never which.
    pub fn debug(&self) -> (out: String)
        ensures
            out@ == self@.debug(),
    {
        match self {
            StdinData::Bytes(b) => {
                let mut out = "Bytes { len: ".to_owned();
                out.append(text::decimal_string(b.len() as u64).as_str());
                out.append(" }");
                out
            },
            StdinData::Reader(_) => "Reader { .. }".to_owned(),
            StdinData::AsyncReader(_) => "AsyncReader { .. }".to_owned(),
        }
    }
}

impl Clone for StdinData {
    fn clone(&self) -> (d: StdinData)
        ensures
            d@ == self@,
    {
        match self {
            StdinData::Bytes(b) => StdinData::Bytes(vstd::slice::slice_to_vec(b.as_slice())),
            StdinData::Reader(slot) => StdinData::Reader(*slot),
            StdinData::AsyncReader(slot) => StdinData::AsyncReader(*slot),
        }
    }
}

impl From<Vec<u8>> for StdinData {
    fn from(v: Vec<u8>) -> (d: StdinData)
        ensures
            d@ == StdinView::Bytes(v@),
    {
        StdinData::Bytes(v)
    }
}

impl vstd::std_specs::convert::FromSpecImpl<Vec<u8>> for StdinData {
    open spec fn obeys_from_spec() -> bool {
        true
    }

    open spec fn from_spec(v: Vec<u8>) -> StdinData {
        StdinData::Bytes(v)
    }
}

impl From<&[u8]> for StdinData {
    fn from(s: &[u8]) -> (d: StdinData)
        ensures
            d@ == StdinView::Bytes(s@),
    {
        StdinData::Bytes(vstd::slice::slice_to_vec(s))
    }
}

impl vstd::std_specs::convert::FromSpecImpl<&[u8]> for StdinData {
    open spec fn obeys_from_spec() -> bool {
        false
    }

    open spec fn from_spec(s: &[u8]) -> StdinData {
        arbitrary()
    }
}

impl From<&str> for StdinData {
    fn from(s: &str) -> (d: StdinData)
        ensures
            d@ == StdinView::Bytes(encode_utf8(s@)),
    {
        StdinData::Bytes(vstd::slice::slice_to_vec(s.as_bytes()))
    }
}

impl vstd::std_specs::convert::FromSpecImpl<&str> for StdinData {
    open spec fn obeys_from_spec() -> bool {
        false
    }

    open spec fn from_spec(s: &str) -> StdinData {
        arbitrary()
    }
}

impl From<&Vec<u8>> for StdinData {
    fn from(v: &Vec<u8>) -> (d: StdinData)
        ensures
            d@ == StdinView::Bytes(v@),
    {
        StdinData::Bytes(vstd::slice::slice_to_vec(v.as_slice()))
    }
}

impl vstd::std_specs::convert::FromSpecImpl<&Vec<u8>> for StdinData {
    open spec fn obeys_from_spec() -> bool {
        false
    }

    open spec fn from_spec(v: &Vec<u8>) -> StdinData {
        arbitrary()
    }
}

impl From<String> for StdinData {
    fn from(s: String) -> (d: StdinData)
        ensures
            d@ == StdinView::Bytes(encode_utf8(s@)),
    {
        StdinData::Bytes(vstd::slice::slice_to_vec(s.as_str().as_bytes()))
    }
}

impl vstd::std_specs::convert::FromSpecImpl<String> for StdinData {
    open spec fn obeys_from_spec() -> bool {
        false
    }

    open spec fn from_spec(s: String) -> StdinData {
        arbitrary()
    }
}

impl From<&String> for StdinData {
    fn from(s: &String) -> (d: StdinData)
        ensures
            d@ == StdinView::Bytes(encode_utf8(s@)),
    {
        StdinData::Bytes(vstd::slice::slice_to_vec(s.as_str().as_bytes()))
    }
}

impl vstd::std_specs::convert::FromSpecImpl<&String> for StdinData {
    open spec fn obeys_from_spec() -> bool {
        false
    }

    open spec fn from_spec(s: &String) -> StdinData {
        arbitrary()
    }
}

// ---------- one attempt's share of the input ----------

/// Which of the filed readers are still there to be taken. Clones of a
/// command name the same slots, so they share what this records.
pub struct ReaderSlots {
    full: Vec<bool>,
}

impl View for ReaderSlots {
    type V = Seq<bool>;

    closed spec fn view(&self) -> Seq<bool> {
        self.full@
    }
}

/// The slot still holds its reader.
pub open spec fn holds(slots: Seq<bool>, slot: ReaderSlot) -> bool {
    slot.index < slots.len() && slots[slot.index as int]
}

/// The slots after a request for one reader.
pub open spec fn without(slots: Seq<bool>, slot: ReaderSlot) -> Seq<bool> {
    if holds(slots, slot) {
        slots.update(slot.index as int, false)
    } else {
        slots
    }
}

impl ReaderSlots {
    pub fn new() -> (s: ReaderSlots)
        ensures
            s@ == Seq::<bool>::empty(),
    {
        ReaderSlots { full: Vec::new() }
    }

    /// File one more reader.
    pub fn register(&mut self) -> (slot: ReaderSlot)
        ensures
            slot.index == old(self)@.len(),
            final(self)@ == old(self)@.push(true),
    {
        let index: usize = self.full.len();
        self.full.push(true);
        ReaderSlot { index }
    }

    /// Take the reader out of its slot, if it is still there.
    pub fn take(&mut self, slot: ReaderSlot) -> (taken: bool)
        ensures
            taken == holds(old(self)@, slot),
            final(self)@ == without(old(self)@, slot),
    {
        if slot.index < self.full.len() && self.full[slot.index] {
            self.full.set(slot.index, false);
            true
        } else {
            false
        }
    }
}

/// What one attempt feeds to the leftmost child's stdin.
#[derive(PartialEq, Eq)]
pub enum AsyncStdinForAttempt {
    /// Stdin is not piped.
    Nothing,
    /// Write these bytes.
    Bytes(Vec<u8>),
    /// Read the source to its end on a blocking thread, then write that.
    Reader(ReaderSlot),
    /// Copy the source chunk by chunk.
    AsyncReader(ReaderSlot),
}

/// The contents of an [`AsyncStdinForAttempt`].
pub ghost enum AttemptStdinView {
    Nothing,
    Bytes(Seq<u8>),
    Reader(ReaderSlot),
    AsyncReader(ReaderSlot),
}

impl View for AsyncStdinForAttempt {
    type V = AttemptStdinView;

    open spec fn view(&self) -> AttemptStdinView {
        match self {
            AsyncStdinForAttempt::Nothing => AttemptStdinView::Nothing,
            AsyncStdinForAttempt::Bytes(b) => AttemptStdinView::Bytes(b@),
            AsyncStdinForAttempt::Reader(slot) => AttemptStdinView::Reader(*slot),
            AsyncStdinForAttempt::AsyncReader(slot) => AttemptStdinView::AsyncReader(*slot),
        }
    }
}

impl AsyncStdinForAttempt {
    pub fn is_nothing(&self) -> (b: bool)
        ensures
            b == (self@ is Nothing),
    {
        matches!(self, AsyncStdinForAttempt::Nothing)
    }
}

/// The view of a command's stdin setting.
pub open spec fn stdin_view(stdin: Option<StdinData>) -> Option<StdinView> {
    match stdin {
        Some(data) => Some(data@),
        None => None,
    }
}

/// The share of an attempt that starts while `slots` are full.
pub open spec fn attempt_share(stdin: Option<StdinView>, slots: Seq<bool>) -> AttemptStdinView {
    match stdin {
        None => AttemptStdinView::Nothing,
        Some(StdinView::Bytes(b)) => AttemptStdinView::Bytes(b),
        Some(StdinView::Reader(slot)) => if holds(slots, slot) {
            AttemptStdinView::Reader(slot)
        } else {
            AttemptStdinView::Nothing
        },
        Some(StdinView::AsyncReader(slot)) => if holds(slots, slot) {
            AttemptStdinView::AsyncReader(slot)
        } else {
            AttemptStdinView::Nothing
        },
    }
}

/// The slots once that attempt has its share.
pub open spec fn slots_after(stdin: Option<StdinView>, slots: Seq<bool>) -> Seq<bool> {
    match stdin {
        Some(StdinView::Reader(slot)) => without(slots, slot),
        Some(StdinView::AsyncReader(slot)) => without(slots, slot),
        _ => slots,
    }
}

/// Fetch an attempt's share of the input.
pub fn attempt_stdin_async(
    stdin: &Option<StdinData>,
    slots: &mut ReaderSlots,
) -> (share: AsyncStdinForAttempt)
    ensures
        share@ == attempt_share(stdin_view(*stdin), old(slots)@),
        final(slots)@ == slots_after(stdin_view(*stdin), old(slots)@),
{
    match stdin {
        None => AsyncStdinForAttempt::Nothing,
        Some(StdinData::Bytes(b)) => AsyncStdinForAttempt::Bytes(
            vstd::slice::slice_to_vec(b.as_slice()),
        ),
        Some(StdinData::Reader(slot)) => if slots.take(*slot) {
            AsyncStdinForAttempt::Reader(*slot)
        } else {
            AsyncStdinForAttempt::Nothing
        },
        Some(StdinData::AsyncReader(slot)) => if slots.take(*slot) {
            AsyncStdinForAttempt::AsyncReader(*slot)
        } else {
            AsyncStdinForAttempt::Nothing
        },
    }
}

/// The error of a command that was refused for its async reader.
pub open spec fn async_reader_refusal(command: CmdDisplayView) -> RunErrorView {
    RunErrorView::Spawn {
        command,
        source: IoErrorView::own(
            IoErrorKind::InvalidInput,
            "async stdin reader is not supported on the blocking runner"@,
        ),
    }
}

/// Refuse, before anything is taken or started, an async reader on the
/// blocking runner, which has no way to drive one.
pub fn reject_async_stdin_on_sync(stdin: &Option<StdinData>, command: &CmdDisplay) -> (r: Result<
    (),
    RunError,
>)
    ensures
        r is Err <==> stdin_view(*stdin) matches Some(StdinView::AsyncReader(_)),
        r matches Err(e) ==> e@ == async_reader_refusal(command@),
{
    match stdin {
        Some(StdinData::AsyncReader(_)) => Err(
            RunError::Spawn {
                command: command.clone(),
                source: IoError::new(
                    IoErrorKind::InvalidInput,
                    "async stdin reader is not supported on the blocking runner",
                ),
            },
        ),
        _ => Ok(()),
    }
}

// ---------- laws ----------

/// Bytes are fed anew to every attempt, whatever happened before.
pub proof fn law_bytes_feed_every_attempt(bytes: Seq<u8>, slots: Seq<bool>)
    ensures
        attempt_share(Some(StdinView::Bytes(bytes)), slots) == AttemptStdinView::Bytes(bytes),
        slots_after(Some(StdinView::Bytes(bytes)), slots) == slots,
{
}

/// A reader feeds one attempt: whoever asks second gets nothing, be it the
/// same command or a clone that names the same slot.
pub proof fn law_reader_feeds_one_attempt(
    first: Option<StdinView>,
    second: Option<StdinView>,
    slot: ReaderSlot,
    slots: Seq<bool>,
)
    requires
        first == Some(StdinView::Reader(slot)) || first == Some(StdinView::AsyncReader(slot)),
        second == Some(StdinView::Reader(slot)) || second == Some(StdinView::AsyncReader(slot)),
    ensures
        !(attempt_share(first, slots) is Nothing) <==> holds(slots, slot),
        attempt_share(second, slots_after(first, slots)) is Nothing,
{
}

/// A reader is there until it is taken: taking it empties its own slot and no
/// other, and an empty or unknown slot has nothing to take.
pub proof fn law_taking_a_reader_empties_its_slot(slots: Seq<bool>, slot: ReaderSlot, i: int)
    requires
        0 <= i < slots.len(),
    ensures
        holds(slots, slot) <==> slot.index < slots.len() && slots[slot.index as int],
        without(slots, slot).len() == slots.len(),
        i == slot.index ==> !without(slots, slot)[i],
        i != slot.index ==> without(slots, slot)[i] == slots[i],
        !holds(slots, slot) ==> without(slots, slot) == slots,
        !holds(without(slots, slot), slot),
{
}

/// An attempt is fed what the command's setting says: nothing without one, the
/// bytes as they are, and a reader that is still there as the kind of reader
/// that it is. Only a reader is used up, and only that one.
pub proof fn law_attempt_is_fed_by_the_setting(
    bytes: Seq<u8>,
    slot: ReaderSlot,
    slots: Seq<bool>,
)
    ensures
        attempt_share(None, slots) is Nothing,
        slots_after(None, slots) == slots,
        attempt_share(Some(StdinView::Bytes(bytes)), slots) == AttemptStdinView::Bytes(bytes),
        slots_after(Some(StdinView::Bytes(bytes)), slots) == slots,
        (slot.index < slots.len() && slots[slot.index as int]) ==> {
            &&& attempt_share(Some(StdinView::Reader(slot)), slots) == AttemptStdinView::Reader(
                slot,
            )
            &&& attempt_share(Some(StdinView::AsyncReader(slot)), slots)
                == AttemptStdinView::AsyncReader(slot)
            &&& slots_after(Some(StdinView::Reader(slot)), slots) == slots.update(
                slot.index as int,
                false,
            )
            &&& slots_after(Some(StdinView::AsyncReader(slot)), slots) == slots.update(
                slot.index as int,
                false,
            )
        },
        !(slot.index < slots.len() && slots[slot.index as int]) ==> {
            &&& attempt_share(Some(StdinView::Reader(slot)), slots) is Nothing
            &&& attempt_share(Some(StdinView::AsyncReader(slot)), slots) is Nothing
            &&& slots_after(Some(StdinView::Reader(slot)), slots) == slots
            &&& slots_after(Some(StdinView::AsyncReader(slot)), slots) == slots
        },
{
}

/// The contents of a setting and of an attempt's share are what they hold.
pub proof fn law_stdin_contents(bytes: Vec<u8>, slot: ReaderSlot, data: StdinData)
    ensures
        StdinData::Bytes(bytes)@ == StdinView::Bytes(bytes@),
        StdinData::Reader(slot)@ == StdinView::Reader(slot),
        StdinData::AsyncReader(slot)@ == StdinView::AsyncReader(slot),
        AsyncStdinForAttempt::Nothing@ is Nothing,
        AsyncStdinForAttempt::Bytes(bytes)@ == AttemptStdinView::Bytes(bytes@),
        AsyncStdinForAttempt::Reader(slot)@ == AttemptStdinView::Reader(slot),
        AsyncStdinForAttempt::AsyncReader(slot)@ == AttemptStdinView::AsyncReader(slot),
        stdin_view(Some(data)) == Some(data@),
        stdin_view(None) is None,
{
}

/// The debugging rendering tells how many bytes there are and never which: input
/// of the same length looks the same, and of different lengths does not.
pub proof fn law_debug_tells_the_length_alone(a: Seq<u8>, b: Seq<u8>, slot: ReaderSlot)
    ensures
        StdinView::Bytes(a).debug() == StdinView::Bytes(b).debug() <==> a.len() == b.len(),
        StdinView::Bytes(a).debug() == "Bytes { len: "@ + text::decimal(a.len()) + " }"@,
        StdinView::Reader(slot).debug() == "Reader { .. }"@,
        StdinView::AsyncReader(slot).debug() == "AsyncReader { .. }"@,
{
    let (x, y) = (StdinView::Bytes(a).debug(), StdinView::Bytes(b).debug());
    let (front, back) = ("Bytes { len: "@.len() as int, " }"@.len() as int);
    if x == y {
        assert(text::decimal(a.len()) =~= x.subrange(front, x.len() - back));
        assert(text::decimal(b.len()) =~= y.subrange(front, y.len() - back));
        text::law_decimal_reads_back(a.len());
        text::law_decimal_reads_back(b.len());
    }
}

/// Input, as it is made: bytes are kept, text becomes its UTF-8, and a reader is
/// named by its slot and its kind.
pub proof fn law_input_is_kept_as_given(
    v: Vec<u8>,
    bytes: &[u8],
    text: &str,
    owned: String,
    slot: ReaderSlot,
    d: StdinData,
    copy: StdinData,
    out: String,
)
    ensures
        call_ensures(StdinData::from_reader, (slot,), d) ==> d@ == StdinView::Reader(slot),
        call_ensures(StdinData::from_async_reader, (slot,), d) ==> d@ == StdinView::AsyncReader(
            slot,
        ),
        call_ensures(<StdinData as From<Vec<u8>>>::from, (v,), d) ==> d@ == StdinView::Bytes(v@),
        call_ensures(<StdinData as From<&[u8]>>::from, (bytes,), d) ==> d@ == StdinView::Bytes(
            bytes@,
        ),
        call_ensures(<StdinData as From<&Vec<u8>>>::from, (&v,), d) ==> d@ == StdinView::Bytes(v@),
        call_ensures(<StdinData as From<&str>>::from, (text,), d) ==> d@ == StdinView::Bytes(
            encode_utf8(text@),
        ),
        call_ensures(<StdinData as From<String>>::from, (owned,), d) ==> d@ == StdinView::Bytes(
            encode_utf8(owned@),
        ),
        call_ensures(<StdinData as From<&String>>::from, (&owned,), d) ==> d@ == StdinView::Bytes(
            encode_utf8(owned@),
        ),
        call_ensures(StdinData::clone, (&d,), copy) ==> copy@ == d@,
        call_ensures(StdinData::debug, (&d,), out) ==> out@ == d@.debug(),
{
}

/// Readers, as they are filed and taken: each gets a slot of its own, and can be
/// taken from it once.
pub proof fn law_readers_are_filed_and_taken_once(
    none: ReaderSlots,
    s: &mut ReaderSlots,
    slot: ReaderSlot,
    taken: bool,
)
    ensures
        call_ensures(ReaderSlots::new, (), none) ==> none@.len() == 0,
        call_ensures(ReaderSlots::register, (s,), slot) ==> {
            &&& slot.index == old(s)@.len()
            &&& final(s)@ == old(s)@.push(true)
        },
        call_ensures(ReaderSlots::take, (s, slot), taken) ==> {
            &&& taken <==> slot.index < old(s)@.len() && old(s)@[slot.index as int]
            &&& taken ==> final(s)@ == old(s)@.update(slot.index as int, false)
            &&& !taken ==> final(s)@ == old(s)@
        },
{
}

/// An attempt's share, as it is fetched: bytes every time, a reader if it is
/// still there, and it is not any more then. An async reader is refused on the
/// blocking runner, and nothing else is.
pub proof fn law_shares_are_fetched_by_the_setting(
    data: StdinData,
    slots: &mut ReaderSlots,
    share: AsyncStdinForAttempt,
    command: &CmdDisplay,
    r: Result<(), RunError>,
    b: bool,
)
    ensures
        call_ensures(attempt_stdin_async, (&None::<StdinData>, slots), share) ==> {
            &&& share@ is Nothing
            &&& final(slots)@ == old(slots)@
        },
        call_ensures(attempt_stdin_async, (&Some(data), slots), share) ==> {
            &&& data@ matches StdinView::Bytes(bytes) ==> {
                &&& share@ == AttemptStdinView::Bytes(bytes)
                &&& final(slots)@ == old(slots)@
            }
            &&& data@ matches StdinView::Reader(slot) ==> {
                let there = slot.index < old(slots)@.len() && old(slots)@[slot.index as int];
                &&& there ==> {
                    &&& share@ == AttemptStdinView::Reader(slot)
                    &&& final(slots)@ == old(slots)@.update(slot.index as int, false)
                }
                &&& !there ==> share@ is Nothing && final(slots)@ == old(slots)@
            }
            &&& data@ matches StdinView::AsyncReader(slot) ==> {
                let there = slot.index < old(slots)@.len() && old(slots)@[slot.index as int];
                &&& there ==> {
                    &&& share@ == AttemptStdinView::AsyncReader(slot)
                    &&& final(slots)@ == old(slots)@.update(slot.index as int, false)
                }
                &&& !there ==> share@ is Nothing && final(slots)@ == old(slots)@
            }
        },
        call_ensures(reject_async_stdin_on_sync, (&Some(data), command), r) ==> (r is Err
            <==> data@ is AsyncReader),
        call_ensures(reject_async_stdin_on_sync, (&None::<StdinData>, command), r) ==> r is Ok,
        call_ensures(AsyncStdinForAttempt::is_nothing, (&share,), b) ==> b == (share@ is Nothing),
{
}

}
