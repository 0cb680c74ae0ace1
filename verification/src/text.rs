//! Text helpers shared by the renderers and predicates of the crate.

use vstd::prelude::*;
use vstd::utf8::*;

verus! {

// ---------- models ----------

/// Characters with the Unicode `White_Space` property.
pub open spec fn is_white_space(c: char) -> bool {
    let v = c as u32;
    ||| 0x9 <= v <= 0xd
    ||| v == 0x20
    ||| v == 0x85
    ||| v == 0xa0
    ||| v == 0x1680
    ||| 0x2000 <= v <= 0x200a
    ||| v == 0x2028
    ||| v == 0x2029
    ||| v == 0x202f
    ||| v == 0x205f
    ||| v == 0x3000
}

/// `s` without its leading white space.
pub open spec fn trimmed_start(s: Seq<char>) -> Seq<char>
    decreases s.len(),
{
    if s.len() > 0 && is_white_space(s[0]) {
        trimmed_start(s.drop_first())
    } else {
        s
    }
}

/// `s` without its trailing white space.
pub open spec fn trimmed_end(s: Seq<char>) -> Seq<char>
    decreases s.len(),
{
    if s.len() > 0 && is_white_space(s.last()) {
        trimmed_end(s.drop_last())
    } else {
        s
    }
}

/// `s` without white space at either end.
pub open spec fn trimmed(s: Seq<char>) -> Seq<char> {
    trimmed_end(trimmed_start(s))
}

/// `needle` occurs in `hay` starting at `at`.
pub open spec fn occurs_at(hay: Seq<char>, needle: Seq<char>, at: int) -> bool {
    &&& 0 <= at
    &&& at + needle.len() <= hay.len()
    &&& hay.subrange(at, at + needle.len()) == needle
}

/// `needle` occurs somewhere in `hay`.
pub open spec fn occurs_in(hay: Seq<char>, needle: Seq<char>) -> bool {
    exists|at: int| occurs_at(hay, needle, at)
}

/// The decimal digit `d` as a character.
pub open spec fn digit(d: nat) -> char {
    (d + 0x30) as char
}

/// `n` in decimal, without leading zeros.
pub open spec fn decimal(n: nat) -> Seq<char>
    decreases n,
{
    if n < 10 {
        seq![digit(n)]
    } else {
        decimal(n / 10).push(digit(n % 10))
    }
}

/// The parts in order, with `sep` between neighbours.
pub open spec fn joined(parts: Seq<Seq<char>>, sep: Seq<char>) -> Seq<char>
    decreases parts.len(),
{
    if parts.len() == 0 {
        Seq::empty()
    } else if parts.len() == 1 {
        parts[0]
    } else {
        joined(parts.drop_last(), sep) + sep + parts.last()
    }
}

/// The bytes read as UTF-8, invalid sequences replaced.
pub open spec fn lossy(bytes: Seq<u8>) -> Seq<char> {
    if valid_utf8(bytes) {
        decode_utf8(bytes)
    } else {
        with_replacements(bytes)
    }
}

/// What `String::from_utf8_lossy` makes of bytes that are not UTF-8.
pub uninterp spec fn with_replacements(bytes: Seq<u8>) -> Seq<char>;

/// What `{:?}` makes of a string.
pub uninterp spec fn debug_quoted(s: Seq<char>) -> Seq<char>;

/// What `{:?}` makes of the UTF-8 chunks of bytes: a quoted literal, in which
/// bytes that are not UTF-8 are escaped, as the only field of a struct.
pub uninterp spec fn chunks_debug(bytes: Seq<u8>) -> Seq<char>;

/// What is left of a text without so many characters at its front and back.
pub open spec fn between(s: Seq<char>, front: nat, back: nat) -> Seq<char> {
    if front + back <= s.len() {
        s.subrange(front as int, s.len() - back)
    } else {
        s
    }
}

/// Bytes as a quoted literal: the field alone, without the struct around it.
pub open spec fn debug_quoted_bytes(bytes: Seq<u8>) -> Seq<char> {
    between(chunks_debug(bytes), "Utf8Chunks { source: "@.len(), " }"@.len())
}

/// Text survives a round trip through its UTF-8 bytes: decoding replaces nothing.
pub proof fn law_text_survives_lossy_decoding(s: Seq<char>)
    ensures
        lossy(encode_utf8(s)) == s,
{
    encode_utf8_valid_utf8(s);
    encode_utf8_decode_utf8(s);
}

// ---------- trusted standard-library calls ----------

/// `String::from_utf8_lossy`: valid UTF-8 is decoded as it stands; for anything
/// else the result is only known to depend on the bytes alone.
#[verifier::external_body]
pub(crate) fn decode_lossy(bytes: &[u8]) -> (s: String)
    ensures
        valid_utf8(bytes@) ==> s@ == decode_utf8(bytes@),
        !valid_utf8(bytes@) ==> s@ == with_replacements(bytes@),
{
    String::from_utf8_lossy(bytes).into_owned()
}

/// The `Debug` rendering of a string: the result depends on the text alone.
#[verifier::external_body]
pub(crate) fn debug_quote(s: &str) -> (out: String)
    ensures
        out@ == debug_quoted(s@),
{
    format!("{s:?}")
}

/// The `Debug` rendering of `<[u8]>::utf8_chunks`: the result depends on the
/// bytes alone.
#[verifier::external_body]
fn debug_chunks(bytes: &[u8]) -> (out: String)
    ensures
        out@ == chunks_debug(bytes@),
{
    format!("{:?}", bytes.utf8_chunks())
}

/// `String::push` appends one character.
pub assume_specification[ String::push ](s: &mut String, c: char)
    ensures
        final(s)@ == old(s)@.push(c),
;

// ---------- operations ----------

/// The characters of `s`.
pub(crate) fn chars_of(s: &str) -> (v: Vec<char>)
    ensures
        v@ == s@,
{
    let mut v: Vec<char> = Vec::new();
    for c in it: s.chars()
        invariant
            v@ == s@.take(it.index() as int),
            it.seq() == s@,
    {
        v.push(c);
    }
    v
}

/// The characters `v[from..to]` as a string.
pub(crate) fn string_of(v: &Vec<char>, from: usize, to: usize) -> (s: String)
    requires
        from <= to <= v@.len(),
    ensures
        s@ == v@.subrange(from as int, to as int),
{
    let mut s = String::new();
    let mut i: usize = from;
    while i < to
        invariant
            from <= i <= to <= v@.len(),
            s@ == v@.subrange(from as int, i as int),
        decreases to - i,
    {
        s.push(v[i]);
        i += 1;
    }
    s
}

fn white_space(c: char) -> (b: bool)
    ensures
        b == is_white_space(c),
{
    let v: u32 = c as u32;
    (0x9 <= v && v <= 0xd) || v == 0x20 || v == 0x85 || v == 0xa0 || v == 0x1680 || (0x2000 <= v
        && v <= 0x200a) || v == 0x2028 || v == 0x2029 || v == 0x202f || v == 0x205f || v == 0x3000
}

/// Bytes as a quoted literal.
pub(crate) fn debug_quote_bytes(bytes: &[u8]) -> (out: String)
    ensures
        out@ == debug_quoted_bytes(bytes@),
{
    let whole = chars_of(debug_chunks(bytes).as_str());
    let front: usize = chars_of("Utf8Chunks { source: ").len();
    let back: usize = chars_of(" }").len();
    if back <= whole.len() && front <= whole.len() - back {
        string_of(&whole, front, whole.len() - back)
    } else {
        string_of(&whole, 0, whole.len())
    }
}

/// `s` without white space at either end.
pub(crate) fn trim(s: &str) -> (out: String)
    ensures
        out@ == trimmed(s@),
{
    let v = chars_of(s);
    let mut from: usize = 0;
    assert(v@.skip(0) == v@);
    while from < v.len() && white_space(v[from])
        invariant
            from <= v@.len(),
            v@ == s@,
            trimmed_start(s@) == trimmed_start(v@.skip(from as int)),
        decreases v@.len() - from,
    {
        assert(v@.skip(from as int).drop_first() == v@.skip(from + 1));
        from += 1;
    }
    assert(trimmed_start(s@) == v@.skip(from as int));
    let mut to: usize = v.len();
    assert(v@.skip(from as int) == v@.subrange(from as int, to as int));
    while to > from && white_space(v[to - 1])
        invariant
            from <= to <= v@.len(),
            v@ == s@,
            trimmed(s@) == trimmed_end(v@.subrange(from as int, to as int)),
        decreases to,
    {
        assert(v@.subrange(from as int, to as int).drop_last() == v@.subrange(
            from as int,
            to - 1,
        ));
        to -= 1;
    }
    string_of(&v, from, to)
}

/// Whether `needle` occurs in `hay` at position `at`.
fn matches_at(hay: &Vec<char>, needle: &Vec<char>, at: usize) -> (b: bool)
    requires
        at + needle@.len() <= hay@.len(),
    ensures
        b == occurs_at(hay@, needle@, at as int),
{
    let end: usize = hay.len();
    let mut k: usize = 0;
    while k < needle.len()
        invariant
            k <= needle@.len(),
            at + needle@.len() <= end,
            end == hay@.len(),
            forall|j: int| 0 <= j < k ==> hay@[at + j] == needle@[j],
        decreases needle@.len() - k,
    {
        if hay[at + k] != needle[k] {
            assert(hay@.subrange(at as int, at + needle@.len())[k as int] != needle@[k as int]);
            return false;
        }
        k += 1;
    }
    assert(hay@.subrange(at as int, at + needle@.len()) == needle@);
    true
}

/// Whether `needle` occurs in `hay`.
pub(crate) fn contains(hay: &str, needle: &str) -> (b: bool)
    ensures
        b == occurs_in(hay@, needle@),
{
    let h = chars_of(hay);
    let n = chars_of(needle);
    if n.len() > h.len() {
        return false;
    }
    let last: usize = h.len() - n.len();
    let mut at: usize = 0;
    while at <= last
        invariant
            at <= last + 1,
            last == h@.len() - n@.len(),
            h@ == hay@,
            n@ == needle@,
            forall|k: int| 0 <= k < at ==> !occurs_at(hay@, needle@, k),
        decreases last + 1 - at,
    {
        if matches_at(&h, &n, at) {
            return true;
        }
        if at == last {
            return false;
        }
        at += 1;
    }
    false
}

fn digit_char(d: u64) -> (c: char)
    requires
        d < 10,
    ensures
        c == digit(d as nat),
{
    match d {
        0 => '0',
        1 => '1',
        2 => '2',
        3 => '3',
        4 => '4',
        5 => '5',
        6 => '6',
        7 => '7',
        8 => '8',
        _ => '9',
    }
}

/// Whether two texts are equal.
pub(crate) fn same(a: &str, b: &str) -> (r: bool)
    ensures
        r == (a@ == b@),
{
    let x = chars_of(a);
    let y = chars_of(b);
    if x.len() != y.len() {
        return false;
    }
    let mut i: usize = 0;
    while i < x.len()
        invariant
            i <= x@.len(),
            x@ == a@,
            y@ == b@,
            x@.len() == y@.len(),
            forall|k: int| 0 <= k < i ==> x@[k] == y@[k],
        decreases x@.len() - i,
    {
        if x[i] != y[i] {
            return false;
        }
        i += 1;
    }
    assert(a@ =~= b@);
    true
}

/// `n` in decimal.
pub(crate) fn decimal_string(n: u64) -> (s: String)
    ensures
        s@ == decimal(n as nat),
    decreases n,
{
    if n < 10 {
        let mut s = String::new();
        s.push(digit_char(n));
        s
    } else {
        let mut s = decimal_string(n / 10);
        s.push(digit_char(n % 10));
        s
    }
}

/// The parts in order, with `sep` between neighbours.
pub(crate) fn join(parts: &Vec<String>, sep: &str) -> (s: String)
    ensures
        s@ == joined(parts@.map_values(|p: String| p@), sep@),
{
    let ghost views = parts@.map_values(|p: String| p@);
    let mut s = String::new();
    let mut i: usize = 0;
    assert(views.take(0) =~= Seq::empty());
    while i < parts.len()
        invariant
            i <= parts@.len(),
            views == parts@.map_values(|p: String| p@),
            s@ == joined(views.take(i as int), sep@),
        decreases parts@.len() - i,
    {
        assert(views.take(i + 1).drop_last() == views.take(i as int));
        assert(views.take(i + 1).last() == parts@[i as int]@);
        if i > 0 {
            s.append(sep);
        }
        s.append(parts[i].as_str());
        i += 1;
    }
    assert(views.take(i as int) == views);
    s
}

// ---------- laws ----------

/// The code points that Unicode lists as `White_Space`.
pub open spec fn white_space_points() -> Seq<u32> {
    seq![
        0x9u32,
        0xau32,
        0xbu32,
        0xcu32,
        0xdu32,
        0x20u32,
        0x85u32,
        0xa0u32,
        0x1680u32,
        0x2000u32,
        0x2001u32,
        0x2002u32,
        0x2003u32,
        0x2004u32,
        0x2005u32,
        0x2006u32,
        0x2007u32,
        0x2008u32,
        0x2009u32,
        0x200au32,
        0x2028u32,
        0x2029u32,
        0x202fu32,
        0x205fu32,
        0x3000u32,
    ]
}

/// A character is white space if and only if its code point is on Unicode's
/// list.
pub proof fn law_white_space_is_listed(c: char)
    ensures
        is_white_space(c) <==> white_space_points().contains(c as u32),
{
    let all = white_space_points();
    assert(all[0] == 0x9);
    assert(all[1] == 0xa);
    assert(all[2] == 0xb);
    assert(all[3] == 0xc);
    assert(all[4] == 0xd);
    assert(all[5] == 0x20);
    assert(all[6] == 0x85);
    assert(all[7] == 0xa0);
    assert(all[8] == 0x1680);
    assert(all[9] == 0x2000);
    assert(all[10] == 0x2001);
    assert(all[11] == 0x2002);
    assert(all[12] == 0x2003);
    assert(all[13] == 0x2004);
    assert(all[14] == 0x2005);
    assert(all[15] == 0x2006);
    assert(all[16] == 0x2007);
    assert(all[17] == 0x2008);
    assert(all[18] == 0x2009);
    assert(all[19] == 0x200a);
    assert(all[20] == 0x2028);
    assert(all[21] == 0x2029);
    assert(all[22] == 0x202f);
    assert(all[23] == 0x205f);
    assert(all[24] == 0x3000);
}

/// Trimming takes the white space at both ends and nothing else: whatever white
/// space is put around a text that neither begins nor ends with any, trimming
/// gives that text back.
pub proof fn law_trimming_undoes_padding(lead: Seq<char>, core: Seq<char>, trail: Seq<char>)
    requires
        forall|i: int| 0 <= i < lead.len() ==> is_white_space(#[trigger] lead[i]),
        forall|i: int| 0 <= i < trail.len() ==> is_white_space(#[trigger] trail[i]),
        core.len() > 0 ==> !is_white_space(core[0]) && !is_white_space(core.last()),
    ensures
        trimmed(lead + core + trail) == core,
{
    assert(lead + core + trail =~= lead + (core + trail));
    lemma_trim_start(lead, core + trail);
    if core.len() > 0 {
        assert((core + trail)[0] == core[0]);
        lemma_trim_end(core, trail);
    } else {
        assert(core + trail =~= trail + Seq::<char>::empty());
        lemma_trim_start(trail, Seq::empty());
        assert(trimmed(lead + core + trail) =~= core);
    }
}

proof fn lemma_trim_start(lead: Seq<char>, rest: Seq<char>)
    requires
        forall|i: int| 0 <= i < lead.len() ==> is_white_space(#[trigger] lead[i]),
    ensures
        trimmed_start(lead + rest) == trimmed_start(rest),
    decreases lead.len(),
{
    if lead.len() == 0 {
        assert(lead + rest =~= rest);
    } else {
        assert(is_white_space(lead[0]));
        assert((lead + rest)[0] == lead[0]);
        assert((lead + rest).drop_first() =~= lead.drop_first() + rest);
        let tail = lead.drop_first();
        assert forall|i: int| 0 <= i < tail.len() implies is_white_space(#[trigger] tail[i]) by {
            assert(tail[i] == lead[i + 1]);
        }
        lemma_trim_start(tail, rest);
    }
}

proof fn lemma_trim_end(rest: Seq<char>, trail: Seq<char>)
    requires
        forall|i: int| 0 <= i < trail.len() ==> is_white_space(#[trigger] trail[i]),
    ensures
        trimmed_end(rest + trail) == trimmed_end(rest),
    decreases trail.len(),
{
    if trail.len() == 0 {
        assert(rest + trail =~= rest);
    } else {
        assert(is_white_space(trail[trail.len() - 1]));
        assert((rest + trail).last() == trail.last());
        assert((rest + trail).drop_last() =~= rest + trail.drop_last());
        lemma_trim_end(rest, trail.drop_last());
    }
}

/// A text occurs in another if and only if the other is that text with
/// something, or nothing, before and after it.
pub proof fn law_occurring_is_standing_between(hay: Seq<char>, needle: Seq<char>)
    ensures
        occurs_in(hay, needle) <==> exists|before: Seq<char>, after: Seq<char>|
            hay == #[trigger] (before + needle + after),
{
    if occurs_in(hay, needle) {
        let at = choose|at: int| occurs_at(hay, needle, at);
        let (before, after) = (hay.take(at), hay.skip(at + needle.len()));
        assert(hay =~= before + needle + after) by {
            assert(hay =~= before + hay.subrange(at, at + needle.len()) + after);
        }
    }
    if exists|before: Seq<char>, after: Seq<char>| hay == #[trigger] (before + needle + after) {
        let (before, after) = choose|before: Seq<char>, after: Seq<char>|
            hay == #[trigger] (before + needle + after);
        let at = before.len() as int;
        assert(hay.subrange(at, at + needle.len()) =~= needle);
        assert(occurs_at(hay, needle, at));
    }
}

/// The number that decimal digits stand for.
pub open spec fn number(digits: Seq<char>) -> nat
    decreases digits.len(),
{
    if digits.len() == 0 {
        0
    } else {
        (10 * number(digits.drop_last()) + (digits.last() as int - '0' as int)) as nat
    }
}

/// A number in decimal is made of digits, reads back as the number, and has no
/// leading zero unless it is zero itself.
pub proof fn law_decimal_reads_back(n: nat)
    ensures
        decimal(n).len() >= 1,
        forall|i: int| 0 <= i < decimal(n).len() ==> '0' <= #[trigger] decimal(n)[i] <= '9',
        number(decimal(n)) == n,
        n > 0 ==> decimal(n)[0] != '0',
        n == 0 ==> decimal(n).len() == 1,
    decreases n,
{
    reveal_with_fuel(number, 2);
    if n < 10 {
        assert(decimal(n).drop_last() =~= Seq::<char>::empty());
    } else {
        law_decimal_reads_back(n / 10);
        assert(decimal(n).drop_last() =~= decimal(n / 10));
        assert forall|i: int| 0 <= i < decimal(n).len() implies '0' <= #[trigger] decimal(n)[i]
            <= '9' by {
            if i < decimal(n).len() - 1 {
                assert(decimal(n)[i] == decimal(n / 10)[i]);
            }
        }
        assert(decimal(n)[0] == decimal(n / 10)[0]);
    }
}

/// Joining keeps every part, in order: nothing joined is empty, one part stands
/// alone, and two lists joined one after the other have the separator between
/// them.
pub proof fn law_joining_composes(a: Seq<Seq<char>>, b: Seq<Seq<char>>, sep: Seq<char>)
    ensures
        a.len() == 0 ==> joined(a, sep).len() == 0,
        a.len() == 1 ==> joined(a, sep) == a[0],
        a.len() >= 1 && b.len() >= 1 ==> joined(a + b, sep) == joined(a, sep) + sep + joined(
            b,
            sep,
        ),
    decreases b.len(),
{
    if a.len() >= 1 && b.len() >= 1 {
        assert((a + b).last() == b.last());
        if b.len() == 1 {
            assert((a + b).drop_last() =~= a);
        } else {
            assert((a + b).drop_last() =~= a + b.drop_last());
            law_joining_composes(a, b.drop_last(), sep);
            let (x, y) = (joined(a, sep), joined(b.drop_last(), sep));
            assert(x + sep + y + sep + b.last() =~= x + sep + (y + sep + b.last()));
        }
    }
}

/// Lossy decoding loses nothing of bytes that are UTF-8: encoding the text
/// again gives the bytes. Of other bytes the replacing decoder decides.
pub proof fn law_lossy_decoding_keeps_utf8(bytes: Seq<u8>)
    ensures
        valid_utf8(bytes) ==> encode_utf8(lossy(bytes)) == bytes,
        !valid_utf8(bytes) ==> lossy(bytes) == with_replacements(bytes),
{
    if valid_utf8(bytes) {
        decode_utf8_encode_utf8(bytes);
    }
}

/// The literal for bytes is what stands in the struct that it is the only field
/// of.
pub proof fn law_bytes_literal_is_the_field(bytes: Seq<u8>, literal: Seq<char>)
    requires
        chunks_debug(bytes) == "Utf8Chunks { source: "@ + literal + " }"@,
    ensures
        debug_quoted_bytes(bytes) == literal,
{
    assert(debug_quoted_bytes(bytes) =~= literal);
}

/// Cutting off a front and a back leaves what is between them; a text that is
/// too short for that stays whole.
pub proof fn law_between_leaves_the_middle(
    front: Seq<char>,
    middle: Seq<char>,
    back: Seq<char>,
    s: Seq<char>,
)
    ensures
        between(front + middle + back, front.len(), back.len()) == middle,
        s.len() < front.len() + back.len() ==> between(s, front.len(), back.len()) == s,
{
    assert(between(front + middle + back, front.len(), back.len()) =~= middle);
}

}
