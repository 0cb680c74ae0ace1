//! Owned, shell-escaped, secret-respecting snapshot of a command for display.
//!
//! [`CmdDisplay`] is what error variants carry: it holds no reference back
//! into a builder. It covers single commands and pipelines; a pipeline renders
//! shell-style with ` | ` between its stages, and [`CmdDisplay::program`] and
//! [`CmdDisplay::raw_args`] speak of the first stage.

use vstd::prelude::*;
use vstd::utf8::*;

use crate::os;
use crate::os::OsText;
use crate::text;

verus! {

// ---------- models ----------

/// One stage: the program and its arguments.
pub ghost struct StageView {
    pub program: Seq<u8>,
    pub args: Seq<Seq<u8>>,
}

/// A whole command: its stages, and whether arguments must stay hidden.
pub ghost struct CmdDisplayView {
    pub stages: Seq<StageView>,
    pub secret: bool,
}

/// Characters that a shell takes literally and that need no quotes here.
pub open spec fn is_plain(c: char) -> bool {
    ||| 'a' <= c <= 'z'
    ||| 'A' <= c <= 'Z'
    ||| '0' <= c <= '9'
    ||| c == '_'
    ||| c == '-'
    ||| c == '.'
    ||| c == '/'
    ||| c == ':'
    ||| c == '@'
    ||| c == '%'
    ||| c == '+'
    ||| c == '='
    ||| c == ','
}

/// How one character is written between single quotes: a single quote closes
/// the quotes, stands escaped, and opens them again.
pub open spec fn escaped(c: char) -> Seq<char> {
    if c == '\'' {
        seq!['\'', '\\', '\'', '\'']
    } else {
        seq![c]
    }
}

/// A whole text as it is written between single quotes.
pub open spec fn escaped_all(s: Seq<char>) -> Seq<char>
    decreases s.len(),
{
    if s.len() == 0 {
        Seq::empty()
    } else {
        escaped(s[0]) + escaped_all(s.drop_first())
    }
}

/// The text as one shell word: unchanged where it is not empty and all of it
/// is plain, else in single quotes.
pub open spec fn shell_quoted(s: Seq<char>) -> Seq<char> {
    if s.len() > 0 && (forall|i: int| 0 <= i < s.len() ==> is_plain(#[trigger] s[i])) {
        s
    } else {
        seq!['\''] + escaped_all(s) + seq!['\'']
    }
}

/// The text that a shell reads a word as: between single quotes every
/// character stands for itself; outside them a backslash makes the next one
/// stand for itself, and a single quote opens quotes.
pub open spec fn shell_word(s: Seq<char>, quoted: bool) -> Seq<char>
    decreases s.len(),
{
    if s.len() == 0 {
        Seq::empty()
    } else if s[0] == '\'' {
        shell_word(s.drop_first(), !quoted)
    } else if !quoted && s[0] == '\\' && s.len() > 1 {
        seq![s[1]] + shell_word(s.skip(2), quoted)
    } else {
        seq![s[0]] + shell_word(s.drop_first(), quoted)
    }
}

/// An argument as it appears in a rendering: a space, then the quoted text.
pub open spec fn rendered_args(args: Seq<Seq<u8>>) -> Seq<char>
    decreases args.len(),
{
    if args.len() == 0 {
        Seq::empty()
    } else {
        rendered_args(args.drop_last()).push(' ') + shell_quoted(text::lossy(args.last()))
    }
}

impl StageView {
    pub open spec fn rendered(self, secret: bool) -> Seq<char> {
        shell_quoted(text::lossy(self.program)) + if secret {
            " <secret>"@
        } else {
            rendered_args(self.args)
        }
    }

    pub open spec fn debug(self) -> Seq<char> {
        "StageDisplay { program: "@ + text::debug_quoted_bytes(self.program) + ", args: ["@
            + text::joined(self.args.map_values(|a: Seq<u8>| text::debug_quoted_bytes(a)), ", "@)
            + "] }"@
    }
}

impl CmdDisplayView {
    /// The shell-style rendering: the stages, with ` | ` between them.
    pub open spec fn rendered(self) -> Seq<char> {
        text::joined(self.stages.map_values(|s: StageView| s.rendered(self.secret)), " | "@)
    }

    /// The debugging rendering, which hides the stages of a secret command.
    pub open spec fn debug(self) -> Seq<char> {
        if self.secret {
            "CmdDisplay { stages: \"<secret>\", secret: true }"@
        } else {
            "CmdDisplay { stages: ["@ + text::joined(
                self.stages.map_values(|s: StageView| s.debug()),
                ", "@,
            ) + "], secret: false }"@
        }
    }
}

// ---------- types ----------

/// One stage in a pipeline, or the whole command for a single invocation.
pub struct StageDisplay {
    program: OsText,
    args: Vec<OsText>,
}

/// Owned snapshot of a command's programs and arguments. There is at least one
/// stage; more than one make a pipeline.
pub struct CmdDisplay {
    stages: Vec<StageDisplay>,
    secret: bool,
}

impl View for StageDisplay {
    type V = StageView;

    closed spec fn view(&self) -> StageView {
        StageView { program: self.program@, args: os::os_views(self.args@) }
    }
}

/// The views of several stages.
pub open spec fn stage_views(stages: Seq<StageDisplay>) -> Seq<StageView> {
    stages.map_values(|s: StageDisplay| s@)
}

impl View for CmdDisplay {
    type V = CmdDisplayView;

    closed spec fn view(&self) -> CmdDisplayView {
        CmdDisplayView { stages: stage_views(self.stages@), secret: self.secret }
    }
}

impl StageDisplay {
    pub fn program(&self) -> (p: &OsText)
        ensures
            p@ == self@.program,
    {
        &self.program
    }

    pub fn raw_args(&self) -> (a: &[OsText])
        ensures
            os::os_views(a@) == self@.args,
    {
        self.args.as_slice()
    }
}

impl Clone for StageDisplay {
    fn clone(&self) -> (s: StageDisplay)
        ensures
            s@ == self@,
    {
        StageDisplay { program: self.program.clone(), args: os::clone_texts(&self.args) }
    }
}

impl Clone for CmdDisplay {
    fn clone(&self) -> (d: CmdDisplay)
        ensures
            d@ == self@,
    {
        proof {
            use_type_invariant(self);
        }
        let mut stages: Vec<StageDisplay> = Vec::new();
        let mut i: usize = 0;
        while i < self.stages.len()
            invariant
                i <= self.stages@.len(),
                stages@.len() == i,
                forall|k: int| 0 <= k < i ==> (#[trigger] stages@[k])@ == self.stages@[k]@,
            decreases self.stages@.len() - i,
        {
            stages.push(self.stages[i].clone());
            i += 1;
        }
        assert(stage_views(stages@) =~= stage_views(self.stages@));
        CmdDisplay { stages, secret: self.secret }
    }
}

impl CmdDisplay {
    #[verifier::type_invariant]
    spec fn has_a_stage(self) -> bool {
        self.stages@.len() >= 1
    }

    /// A single command.
    pub fn new(program: OsText, args: Vec<OsText>, secret: bool) -> (d: CmdDisplay)
        ensures
            d@.stages == seq![StageView { program: program@, args: os::os_views(args@) }],
            d@.secret == secret,
    {
        let mut stages: Vec<StageDisplay> = Vec::new();
        stages.push(StageDisplay { program, args });
        CmdDisplay { stages, secret }
    }

    /// Add a stage on the right.
    pub fn push_stage(&mut self, program: OsText, args: Vec<OsText>)
        ensures
            final(self)@.stages == old(self)@.stages.push(
                StageView { program: program@, args: os::os_views(args@) },
            ),
            final(self)@.secret == old(self)@.secret,
    {
        let mut taken = CmdDisplay::new(OsText { bytes: Vec::new() }, Vec::new(), self.secret);
        std::mem::swap(self, &mut taken);
        let CmdDisplay { stages, secret } = taken;
        let mut stages = stages;
        let ghost before = stages@;
        stages.push(StageDisplay { program, args });
        assert(stage_views(stages@) =~= stage_views(before).push(stages@.last()@));
        *self = CmdDisplay { stages, secret };
    }

    /// Program name of the first stage.
    pub fn program(&self) -> (p: &OsText)
        ensures
            self@.stages.len() >= 1,
            p@ == self@.stages[0].program,
    {
        proof {
            use_type_invariant(self);
        }
        &self.stages[0].program
    }

    /// Whether arguments are hidden.
    pub fn is_secret(&self) -> (b: bool)
        ensures
            b == self@.secret,
    {
        self.secret
    }

    /// Arguments of the first stage.
    pub fn raw_args(&self) -> (a: &[OsText])
        ensures
            self@.stages.len() >= 1,
            os::os_views(a@) == self@.stages[0].args,
    {
        proof {
            use_type_invariant(self);
        }
        self.stages[0].args.as_slice()
    }

    /// All stages, leftmost first.
    pub fn stages(&self) -> (s: &[StageDisplay])
        ensures
            s@.len() >= 1,
            stage_views(s@) == self@.stages,
    {
        proof {
            use_type_invariant(self);
        }
        self.stages.as_slice()
    }

    /// Whether there is more than one stage.
    pub fn is_pipeline(&self) -> (b: bool)
        ensures
            b == (self@.stages.len() > 1),
    {
        self.stages.len() > 1
    }
}

// ---------- rendering ----------

proof fn lemma_escaped_all_push(s: Seq<char>, c: char)
    ensures
        escaped_all(s.push(c)) == escaped_all(s) + escaped(c),
    decreases s.len(),
{
    if s.len() == 0 {
        assert(s.push(c).drop_first() =~= Seq::<char>::empty());
        assert(escaped_all(s.push(c).drop_first()) =~= Seq::<char>::empty());
        assert(escaped_all(s) =~= Seq::<char>::empty());
    } else {
        assert(s.push(c).drop_first() =~= s.drop_first().push(c));
        lemma_escaped_all_push(s.drop_first(), c);
    }
}

fn plain(c: char) -> (b: bool)
    ensures
        b == is_plain(c),
{
    ('a' <= c && c <= 'z') || ('A' <= c && c <= 'Z') || ('0' <= c && c <= '9') || c == '_' || c
        == '-' || c == '.' || c == '/' || c == ':' || c == '@' || c == '%' || c == '+' || c == '='
        || c == ','
}

/// The text as one shell word.
fn shell_quote(s: &str) -> (out: String)
    ensures
        out@ == shell_quoted(s@),
{
    let v = text::chars_of(s);
    let mut needs_quote: bool = v.len() == 0;
    let mut i: usize = 0;
    while i < v.len() && !needs_quote
        invariant
            i <= v@.len(),
            v@ == s@,
            v@.len() == 0 ==> needs_quote,
            !needs_quote ==> forall|k: int| 0 <= k < i ==> is_plain(#[trigger] v@[k]),
            needs_quote ==> v@.len() == 0 || exists|k: int|
                0 <= k < v@.len() && !is_plain(#[trigger] v@[k]),
        decreases v@.len() - i,
    {
        if !plain(v[i]) {
            assert(!is_plain(v@[i as int]));
            needs_quote = true;
        }
        i += 1;
    }
    if !needs_quote {
        return s.to_owned();
    }
    let mut out = String::new();
    out.push('\'');
    let mut i: usize = 0;
    assert(s@.take(0) =~= Seq::<char>::empty());
    assert(escaped_all(s@.take(0)) =~= Seq::<char>::empty());
    while i < v.len()
        invariant
            i <= v@.len(),
            v@ == s@,
            out@ == seq!['\''] + escaped_all(s@.take(i as int)),
        decreases v@.len() - i,
    {
        proof {
            lemma_escaped_all_push(s@.take(i as int), s@[i as int]);
            assert(s@.take(i as int).push(s@[i as int]) =~= s@.take(i + 1));
        }
        let ch = v[i];
        if ch == '\'' {
            out.push('\'');
            out.push('\\');
            out.push('\'');
            out.push('\'');
        } else {
            out.push(ch);
        }
        i += 1;
        assert(out@ =~= seq!['\''] + escaped_all(s@.take(i as int)));
    }
    assert(s@.take(i as int) =~= s@);
    out.push('\'');
    assert(out@ =~= seq!['\''] + escaped_all(s@) + seq!['\'']);
    out
}

impl StageDisplay {
    fn render(&self, secret: bool) -> (out: String)
        ensures
            out@ == self@.rendered(secret),
    {
        let mut out = shell_quote(self.program.to_string_lossy().as_str());
        if secret {
            out.append(" <secret>");
            return out;
        }
        let ghost program = out@;
        let ghost args = os::os_views(self.args@);
        let mut i: usize = 0;
        assert(rendered_args(args.take(0)) =~= Seq::<char>::empty());
        while i < self.args.len()
            invariant
                i <= self.args@.len(),
                args == os::os_views(self.args@),
                out@ == program + rendered_args(args.take(i as int)),
            decreases self.args@.len() - i,
        {
            proof {
                assert(args.take(i + 1).drop_last() =~= args.take(i as int));
                assert(args.take(i + 1).last() == self.args@[i as int]@);
            }
            out.push(' ');
            out.append(shell_quote(self.args[i].to_string_lossy().as_str()).as_str());
            i += 1;
            assert(out@ =~= program + rendered_args(args.take(i as int)));
        }
        assert(args.take(i as int) =~= args);
        out
    }

    fn debug(&self) -> (out: String)
        ensures
            out@ == self@.debug(),
    {
        let mut parts: Vec<String> = Vec::new();
        let mut i: usize = 0;
        while i < self.args.len()
            invariant
                i <= self.args@.len(),
                parts@.len() == i,
                forall|k: int|
                    0 <= k < i ==> (#[trigger] parts@[k])@ == text::debug_quoted_bytes(
                        self.args@[k]@,
                    ),
            decreases self.args@.len() - i,
        {
            parts.push(text::debug_quote_bytes(self.args[i].as_bytes()));
            i += 1;
        }
        assert(parts@.map_values(|p: String| p@) =~= self@.args.map_values(
            |a: Seq<u8>| text::debug_quoted_bytes(a),
        ));
        let mut out = "StageDisplay { program: ".to_owned();
        out.append(text::debug_quote_bytes(self.program.as_bytes()).as_str());
        out.append(", args: [");
        out.append(text::join(&parts, ", ").as_str());
        out.append("] }");
        out
    }
}

impl CmdDisplay {
    /// The shell-style rendering, arguments hidden where the command is
    /// secret.
    pub fn to_string(&self) -> (out: String)
        ensures
            out@ == self@.rendered(),
    {
        let mut parts: Vec<String> = Vec::new();
        let mut i: usize = 0;
        while i < self.stages.len()
            invariant
                i <= self.stages@.len(),
                parts@.len() == i,
                forall|k: int|
                    0 <= k < i ==> (#[trigger] parts@[k])@ == self.stages@[k]@.rendered(
                        self.secret,
                    ),
            decreases self.stages@.len() - i,
        {
            parts.push(self.stages[i].render(self.secret));
            i += 1;
        }
        assert(parts@.map_values(|p: String| p@) =~= self@.stages.map_values(
            |s: StageView| s.rendered(self@.secret),
        ));
        text::join(&parts, " | ")
    }

    /// The debugging rendering, stages hidden where the command is secret.
    pub fn debug(&self) -> (out: String)
        ensures
            out@ == self@.debug(),
    {
        if self.secret {
            return "CmdDisplay { stages: \"<secret>\", secret: true }".to_owned();
        }
        let mut parts: Vec<String> = Vec::new();
        let mut i: usize = 0;
        while i < self.stages.len()
            invariant
                i <= self.stages@.len(),
                parts@.len() == i,
                forall|k: int|
                    0 <= k < i ==> (#[trigger] parts@[k])@ == self.stages@[k]@.debug(),
            decreases self.stages@.len() - i,
        {
            parts.push(self.stages[i].debug());
            i += 1;
        }
        assert(parts@.map_values(|p: String| p@) =~= self@.stages.map_values(
            |s: StageView| s.debug(),
        ));
        let mut out = "CmdDisplay { stages: [".to_owned();
        out.append(text::join(&parts, ", ").as_str());
        out.append("], secret: false }");
        out
    }
}

// ---------- laws ----------

proof fn lemma_plain_word(s: Seq<char>)
    requires
        forall|i: int| 0 <= i < s.len() ==> is_plain(#[trigger] s[i]),
    ensures
        shell_word(s, false) == s,
    decreases s.len(),
{
    if s.len() > 0 {
        assert(is_plain(s[0]));
        let rest = s.drop_first();
        assert forall|i: int| 0 <= i < rest.len() implies is_plain(#[trigger] rest[i]) by {
            assert(rest[i] == s[i + 1]);
        }
        lemma_plain_word(rest);
        assert(seq![s[0]] + rest =~= s);
    }
}

proof fn lemma_quoted_word(s: Seq<char>)
    ensures
        shell_word(escaped_all(s) + seq!['\''], true) == s,
    decreases s.len(),
{
    let word = escaped_all(s) + seq!['\''];
    if s.len() == 0 {
        assert(word =~= seq!['\'']);
        assert(word.drop_first() =~= Seq::<char>::empty());
        assert(shell_word(word.drop_first(), false) =~= Seq::<char>::empty());
        assert(s =~= Seq::<char>::empty());
    } else {
        let tail = escaped_all(s.drop_first()) + seq!['\''];
        lemma_quoted_word(s.drop_first());
        assert(seq![s[0]] + s.drop_first() =~= s);
        if s[0] == '\'' {
            assert(word =~= seq!['\'', '\\', '\'', '\''] + tail);
            let w1 = word.drop_first();
            assert(w1 =~= seq!['\\', '\'', '\''] + tail);
            assert(w1.skip(2) =~= seq!['\''] + tail);
            assert(w1.skip(2).drop_first() =~= tail);
            assert(shell_word(w1.skip(2), false) == shell_word(tail, true));
            assert(shell_word(w1, false) == seq!['\''] + shell_word(tail, true));
        } else {
            assert(word =~= seq![s[0]] + tail);
            assert(word.drop_first() =~= tail);
        }
    }
}

/// A shell reads a quoted text back as the text itself.
pub proof fn law_shell_reads_quoted_text_back(s: Seq<char>)
    ensures
        shell_word(shell_quoted(s), false) == s,
{
    if s.len() > 0 && (forall|i: int| 0 <= i < s.len() ==> is_plain(#[trigger] s[i])) {
        lemma_plain_word(s);
    } else {
        lemma_quoted_word(s);
        let word = seq!['\''] + escaped_all(s) + seq!['\''];
        assert(word.drop_first() =~= escaped_all(s) + seq!['\'']);
    }
}

/// What a secret command renders as, for display and for debugging, does not
/// depend on any of its arguments.
pub proof fn law_secret_hides_arguments(a: CmdDisplayView, b: CmdDisplayView)
    requires
        a.secret,
        b.secret,
        a.stages.len() == b.stages.len(),
        forall|i: int|
            0 <= i < a.stages.len() ==> (#[trigger] a.stages[i]).program == b.stages[i].program,
    ensures
        a.rendered() == b.rendered(),
        a.debug() == b.debug(),
{
    assert(a.stages.map_values(|s: StageView| s.rendered(a.secret)) =~= b.stages.map_values(
        |s: StageView| s.rendered(b.secret),
    )) by {
        assert forall|i: int| 0 <= i < a.stages.len() implies a.stages[i].rendered(true)
            == b.stages[i].rendered(true) by {
            assert(a.stages[i].program == b.stages[i].program);
        }
    }
}

/// A further stage extends the rendering by ` | ` and the stage's own text.
pub proof fn law_stage_extends_rendering(d: CmdDisplayView, stage: StageView)
    requires
        d.stages.len() >= 1,
    ensures
        (CmdDisplayView { stages: d.stages.push(stage), secret: d.secret }).rendered()
            == d.rendered() + " | "@ + stage.rendered(d.secret),
{
    let f = |s: StageView| s.rendered(d.secret);
    let all = d.stages.push(stage).map_values(f);
    assert(all.drop_last() =~= d.stages.map_values(f));
    assert(all.last() == stage.rendered(d.secret));
}

// ---------- different commands render differently ----------

/// How many characters there are before the first space that a shell does not
/// take literally.
spec fn word_end(s: Seq<char>, quoted: bool) -> nat
    decreases s.len(),
{
    if s.len() == 0 || (!quoted && s[0] == ' ') {
        0
    } else if s[0] == '\'' {
        1 + word_end(s.drop_first(), !quoted)
    } else if !quoted && s[0] == '\\' && s.len() > 1 {
        2 + word_end(s.skip(2), quoted)
    } else {
        1 + word_end(s.drop_first(), quoted)
    }
}

/// The text is one quoted word, or the bare sign between two stages.
spec fn is_token(t: Seq<char>) -> bool {
    t == seq!['|'] || exists|w: Seq<char>| t == #[trigger] shell_quoted(w)
}

/// What can follow a token: nothing, or a space.
spec fn follows_token(rest: Seq<char>) -> bool {
    rest.len() == 0 || rest[0] == ' '
}

proof fn lemma_plain_ends(s: Seq<char>, rest: Seq<char>)
    requires
        forall|i: int| 0 <= i < s.len() ==> is_plain(#[trigger] s[i]) || s[i] == '|',
        follows_token(rest),
    ensures
        word_end(s + rest, false) == s.len(),
    decreases s.len(),
{
    let whole = s + rest;
    if s.len() > 0 {
        assert(is_plain(s[0]) || s[0] == '|');
        let tail = s.drop_first();
        assert forall|i: int| 0 <= i < tail.len() implies is_plain(#[trigger] tail[i]) || tail[i]
            == '|' by {
            assert(tail[i] == s[i + 1]);
        }
        lemma_plain_ends(tail, rest);
        assert(whole[0] == s[0]);
        assert(whole.drop_first() =~= tail + rest);
    } else {
        assert(whole =~= rest);
    }
}

proof fn lemma_quoted_ends(s: Seq<char>, rest: Seq<char>)
    requires
        follows_token(rest),
    ensures
        word_end(escaped_all(s) + seq!['\''] + rest, true) == escaped_all(s).len() + 1,
    decreases s.len(),
{
    let whole = escaped_all(s) + seq!['\''] + rest;
    if s.len() == 0 {
        assert(whole[0] == '\'');
        assert(whole.drop_first() =~= rest);
        assert(word_end(rest, false) == 0);
    } else {
        let tail = escaped_all(s.drop_first()) + seq!['\''] + rest;
        lemma_quoted_ends(s.drop_first(), rest);
        if s[0] == '\'' {
            assert(whole =~= seq!['\'', '\\', '\'', '\''] + tail);
            let w1 = whole.drop_first();
            assert(w1 =~= seq!['\\', '\'', '\''] + tail);
            let w2 = w1.skip(2);
            assert(w2 =~= seq!['\''] + tail);
            assert(w2.drop_first() =~= tail);
            assert(word_end(w2, false) == 1 + word_end(tail, true));
            assert(word_end(w1, false) == 2 + word_end(w2, false));
        } else {
            assert(whole =~= seq![s[0]] + tail);
            assert(whole.drop_first() =~= tail);
        }
    }
}

/// A shell sees where a token ends.
proof fn lemma_token_ends(t: Seq<char>, rest: Seq<char>)
    requires
        is_token(t),
        follows_token(rest),
    ensures
        t.len() > 0,
        word_end(t + rest, false) == t.len(),
{
    if t == seq!['|'] {
        lemma_plain_ends(t, rest);
    } else {
        let w = choose|w: Seq<char>| t == #[trigger] shell_quoted(w);
        if w.len() > 0 && (forall|i: int| 0 <= i < w.len() ==> is_plain(#[trigger] w[i])) {
            lemma_plain_ends(t, rest);
        } else {
            lemma_quoted_ends(w, rest);
            let whole = t + rest;
            assert(whole[0] == '\'');
            assert(whole.drop_first() =~= escaped_all(w) + seq!['\''] + rest);
        }
    }
}

/// A quoted word is never the bare sign between two stages.
proof fn lemma_quoted_is_no_bar(w: Seq<char>)
    ensures
        shell_quoted(w) != seq!['|'],
{
    if w.len() > 0 && (forall|i: int| 0 <= i < w.len() ==> is_plain(#[trigger] w[i])) {
        assert(is_plain(w[0]));
        if w == seq!['|'] {
            assert(w[0] == '|');
        }
    } else {
        assert(shell_quoted(w)[0] == '\'');
        assert(seq!['|'][0] == '|');
    }
}

proof fn lemma_joined_concat(a: Seq<Seq<char>>, b: Seq<Seq<char>>, sep: Seq<char>)
    requires
        a.len() >= 1,
        b.len() >= 1,
    ensures
        text::joined(a + b, sep) == text::joined(a, sep) + sep + text::joined(b, sep),
{
    text::law_joining_composes(a, b, sep);
}

/// Tokens with single spaces between them can be told apart again.
proof fn lemma_tokens_are_told_apart(a: Seq<Seq<char>>, b: Seq<Seq<char>>)
    requires
        a.len() >= 1,
        b.len() >= 1,
        forall|i: int| 0 <= i < a.len() ==> is_token(#[trigger] a[i]),
        forall|i: int| 0 <= i < b.len() ==> is_token(#[trigger] b[i]),
        text::joined(a, seq![' ']) == text::joined(b, seq![' ']),
    ensures
        a == b,
    decreases a.len(),
{
    let sep = seq![' '];
    let whole = text::joined(a, sep);
    let rest_a = lemma_first_token(a);
    let rest_b = lemma_first_token(b);
    assert(is_token(a[0]) && is_token(b[0]));
    lemma_token_ends(a[0], rest_a);
    lemma_token_ends(b[0], rest_b);
    assert(a[0].len() == b[0].len());
    assert(a[0] =~= whole.take(a[0].len() as int));
    assert(b[0] =~= whole.take(b[0].len() as int));
    assert(rest_a =~= whole.skip(a[0].len() as int));
    assert(rest_b =~= whole.skip(b[0].len() as int));
    if a.len() == 1 {
        assert(b.len() == 1);
        assert(a =~= b);
    } else {
        assert(b.len() > 1);
        let (ta, tb) = (a.drop_first(), b.drop_first());
        assert(text::joined(ta, sep) =~= rest_a.drop_first());
        assert(text::joined(tb, sep) =~= rest_b.drop_first());
        assert forall|i: int| 0 <= i < ta.len() implies is_token(#[trigger] ta[i]) by {
            assert(ta[i] == a[i + 1]);
        }
        assert forall|i: int| 0 <= i < tb.len() implies is_token(#[trigger] tb[i]) by {
            assert(tb[i] == b[i + 1]);
        }
        lemma_tokens_are_told_apart(ta, tb);
        assert(a =~= seq![a[0]] + ta);
        assert(b =~= seq![b[0]] + tb);
    }
}

/// What follows the first of several tokens.
proof fn lemma_first_token(a: Seq<Seq<char>>) -> (rest: Seq<char>)
    requires
        a.len() >= 1,
    ensures
        text::joined(a, seq![' ']) == a[0] + rest,
        follows_token(rest),
        rest.len() == 0 <==> a.len() == 1,
        a.len() > 1 ==> rest == seq![' '] + text::joined(a.drop_first(), seq![' ']),
{
    let sep = seq![' '];
    if a.len() == 1 {
        assert(a[0] + Seq::<char>::empty() =~= a[0]);
        Seq::empty()
    } else {
        assert(a =~= seq![a[0]] + a.drop_first());
        lemma_joined_concat(seq![a[0]], a.drop_first(), sep);
        let rest = sep + text::joined(a.drop_first(), sep);
        assert(a[0] + sep + text::joined(a.drop_first(), sep) =~= a[0] + rest);
        rest
    }
}

/// The quoted program and arguments of a stage.
spec fn stage_tokens(stage: StageView) -> Seq<Seq<char>> {
    seq![shell_quoted(text::lossy(stage.program))] + stage.args.map_values(
        |a: Seq<u8>| shell_quoted(text::lossy(a)),
    )
}

/// The tokens of all stages, with a bare sign between neighbours.
spec fn tokens(stages: Seq<StageView>) -> Seq<Seq<char>>
    decreases stages.len(),
{
    if stages.len() == 0 {
        Seq::empty()
    } else if stages.len() == 1 {
        stage_tokens(stages[0])
    } else {
        tokens(stages.drop_last()) + seq![seq!['|']] + stage_tokens(stages.last())
    }
}

proof fn lemma_stage_renders_tokens(stage: StageView)
    ensures
        stage.rendered(false) == text::joined(stage_tokens(stage), seq![' ']),
    decreases stage.args.len(),
{
    let sep = seq![' '];
    let program = shell_quoted(text::lossy(stage.program));
    if stage.args.len() == 0 {
        assert(stage_tokens(stage) =~= seq![program]);
        assert(program + rendered_args(stage.args) =~= program);
    } else {
        let init = StageView { args: stage.args.drop_last(), ..stage };
        lemma_stage_renders_tokens(init);
        let last = shell_quoted(text::lossy(stage.args.last()));
        assert(stage_tokens(stage).drop_last() =~= stage_tokens(init));
        assert(stage_tokens(stage).last() == last);
        assert(stage.rendered(false) =~= init.rendered(false) + sep + last);
    }
}

proof fn lemma_command_renders_tokens(d: CmdDisplayView)
    requires
        !d.secret,
        d.stages.len() >= 1,
    ensures
        tokens(d.stages).len() >= 1,
        d.rendered() == text::joined(tokens(d.stages), seq![' ']),
    decreases d.stages.len(),
{
    let sep = seq![' '];
    let f = |s: StageView| s.rendered(d.secret);
    let last = d.stages.last();
    lemma_stage_renders_tokens(last);
    if d.stages.len() == 1 {
        assert(d.stages.map_values(f) =~= seq![last.rendered(false)]);
    } else {
        let init = CmdDisplayView { stages: d.stages.drop_last(), secret: false };
        lemma_command_renders_tokens(init);
        law_stage_extends_rendering(init, last);
        assert(init.stages.push(last) =~= d.stages);
        let bar = seq![seq!['|']];
        lemma_joined_concat(tokens(init.stages), bar, sep);
        lemma_joined_concat(tokens(init.stages) + bar, stage_tokens(last), sep);
        reveal_strlit(" | ");
        assert(" | "@ =~= sep + seq!['|'] + sep);
        assert(init.rendered() + " | "@ + last.rendered(false) =~= init.rendered() + sep + seq!['|']
            + sep + last.rendered(false));
    }
}

proof fn lemma_tokens_are_tokens(stages: Seq<StageView>)
    ensures
        forall|i: int| 0 <= i < tokens(stages).len() ==> is_token(#[trigger] tokens(stages)[i]),
    decreases stages.len(),
{
    if stages.len() >= 1 {
        let last = stage_tokens(stages.last());
        lemma_stage_tokens_are_words(stages.last());
        if stages.len() > 1 {
            let init = tokens(stages.drop_last());
            lemma_tokens_are_tokens(stages.drop_last());
            assert forall|i: int| 0 <= i < tokens(stages).len() implies is_token(
                #[trigger] tokens(stages)[i],
            ) by {
                if i < init.len() {
                    assert(is_token(init[i]));
                } else if i > init.len() {
                    assert(is_token(last[i - init.len() - 1]));
                }
            }
        }
    }
}

proof fn lemma_stage_tokens_are_words(stage: StageView)
    ensures
        forall|i: int|
            0 <= i < stage_tokens(stage).len() ==> is_token(#[trigger] stage_tokens(stage)[i])
                && stage_tokens(stage)[i] != seq!['|'],
{
    assert forall|i: int| 0 <= i < stage_tokens(stage).len() implies is_token(
        #[trigger] stage_tokens(stage)[i],
    ) && stage_tokens(stage)[i] != seq!['|'] by {
        let w = if i == 0 {
            text::lossy(stage.program)
        } else {
            text::lossy(stage.args[i - 1])
        };
        assert(stage_tokens(stage)[i] == shell_quoted(w));
        lemma_quoted_is_no_bar(w);
    }
}

/// The program and all arguments are UTF-8.
pub open spec fn is_utf8(stage: StageView) -> bool {
    valid_utf8(stage.program) && forall|i: int|
        0 <= i < stage.args.len() ==> valid_utf8(#[trigger] stage.args[i])
}

/// Two texts that are quoted alike are the same.
proof fn lemma_quoting_is_injective(a: Seq<u8>, b: Seq<u8>)
    requires
        valid_utf8(a),
        valid_utf8(b),
        shell_quoted(text::lossy(a)) == shell_quoted(text::lossy(b)),
    ensures
        a == b,
{
    law_shell_reads_quoted_text_back(text::lossy(a));
    law_shell_reads_quoted_text_back(text::lossy(b));
    decode_utf8_encode_utf8(a);
    decode_utf8_encode_utf8(b);
}

proof fn lemma_stage_by_tokens(a: StageView, b: StageView)
    requires
        is_utf8(a),
        is_utf8(b),
        stage_tokens(a) == stage_tokens(b),
    ensures
        a == b,
{
    let (ta, tb) = (stage_tokens(a), stage_tokens(b));
    assert(ta[0] == tb[0]);
    lemma_quoting_is_injective(a.program, b.program);
    assert(ta.len() == tb.len());
    assert forall|i: int| 0 <= i < a.args.len() implies a.args[i] == b.args[i] by {
        assert(ta[i + 1] == tb[i + 1]);
        lemma_quoting_is_injective(a.args[i], b.args[i]);
    }
    assert(a.args =~= b.args);
}

/// The tokens behind the last bare sign are those of the last stage, so the
/// last stage of one command is no longer than that of another with the same
/// tokens.
proof fn lemma_last_stage_is_no_longer(a: Seq<StageView>, b: Seq<StageView>)
    requires
        a.len() >= 1,
        b.len() >= 1,
        tokens(a) == tokens(b),
    ensures
        stage_tokens(b.last()).len() <= stage_tokens(a.last()).len(),
{
    let (la, lb) = (stage_tokens(a.last()), stage_tokens(b.last()));
    let t = tokens(a);
    if la.len() < lb.len() {
        if a.len() > 1 {
            let at = t.len() - la.len() - 1;
            assert(t[at] == seq!['|']);
            lemma_stage_tokens_are_words(b.last());
            let from = t.len() - lb.len();
            assert(t[at] == lb[at - from]);
        }
    }
}

proof fn lemma_stages_by_tokens(a: Seq<StageView>, b: Seq<StageView>)
    requires
        a.len() >= 1,
        b.len() >= 1,
        forall|i: int| 0 <= i < a.len() ==> is_utf8(#[trigger] a[i]),
        forall|i: int| 0 <= i < b.len() ==> is_utf8(#[trigger] b[i]),
        tokens(a) == tokens(b),
    ensures
        a == b,
    decreases a.len(),
{
    lemma_last_stage_is_no_longer(a, b);
    lemma_last_stage_is_no_longer(b, a);
    let (la, lb) = (stage_tokens(a.last()), stage_tokens(b.last()));
    let t = tokens(a);
    let from = t.len() - la.len();
    assert(la =~= t.skip(from));
    assert(lb =~= t.skip(from));
    lemma_stage_by_tokens(a.last(), b.last());
    if a.len() == 1 || b.len() == 1 {
        assert(a.len() == 1 && b.len() == 1);
        assert(a =~= b);
    } else {
        let (ia, ib) = (a.drop_last(), b.drop_last());
        assert(tokens(ia) =~= t.take(from - 1));
        assert(tokens(ib) =~= t.take(from - 1));
        lemma_stages_by_tokens(ia, ib);
        assert(a =~= ia.push(a.last()));
        assert(b =~= ib.push(b.last()));
    }
}

/// Two commands of UTF-8 text that are not secret render alike if and only if
/// they have the same stages: no space, quote, empty argument or literal `|`
/// makes different commands look the same.
pub proof fn law_different_commands_render_differently(a: CmdDisplayView, b: CmdDisplayView)
    requires
        !a.secret,
        !b.secret,
        a.stages.len() >= 1,
        b.stages.len() >= 1,
        forall|i: int| 0 <= i < a.stages.len() ==> is_utf8(#[trigger] a.stages[i]),
        forall|i: int| 0 <= i < b.stages.len() ==> is_utf8(#[trigger] b.stages[i]),
    ensures
        a.rendered() == b.rendered() <==> a.stages == b.stages,
{
    if a.rendered() == b.rendered() {
        lemma_command_renders_tokens(a);
        lemma_command_renders_tokens(b);
        lemma_tokens_are_tokens(a.stages);
        lemma_tokens_are_tokens(b.stages);
        lemma_tokens_are_told_apart(tokens(a.stages), tokens(b.stages));
        lemma_stages_by_tokens(a.stages, b.stages);
    }
}

// ---------- how words, stages and commands are written ----------

/// Plain characters are the letters and digits of ASCII and a few signs.
pub proof fn law_plain_characters(c: char)
    ensures
        is_plain(c) <==> {
            ||| 0x61 <= c as u32 <= 0x7a
            ||| 0x41 <= c as u32 <= 0x5a
            ||| 0x30 <= c as u32 <= 0x39
            ||| "_-./:@%+=,"@.contains(c)
        },
{
    reveal_strlit("_-./:@%+=,");
    let signs = "_-./:@%+=,"@;
    assert(signs[0] == '_' && signs[1] == '-' && signs[2] == '.' && signs[3] == '/' && signs[4]
        == ':' && signs[5] == '@' && signs[6] == '%' && signs[7] == '+' && signs[8] == '='
        && signs[9] == ',');
}

/// Inside quotes every character but a single quote is written as it is, and
/// texts are written one after the other.
pub proof fn law_escaping_goes_character_by_character(a: Seq<char>, b: Seq<char>, c: char)
    ensures
        escaped_all(a + b) == escaped_all(a) + escaped_all(b),
        c != '\'' ==> escaped_all(seq![c]) == seq![c],
        escaped_all(seq!['\'']) == seq!['\'', '\\', '\'', '\''],
        escaped_all(Seq::empty()).len() == 0,
        !a.contains('\'') ==> escaped_all(a) == a,
    decreases a.len(),
{
    assert(seq![c].drop_first() =~= Seq::empty());
    assert(seq!['\''].drop_first() =~= Seq::empty());
    assert(escaped_all(Seq::empty()).len() == 0);
    assert(escaped_all(seq![c].drop_first()).len() == 0);
    assert(escaped_all(seq!['\''].drop_first()).len() == 0);
    assert(escaped_all(seq![c]) =~= escaped(c));
    assert(escaped_all(seq!['\'']) =~= escaped('\''));
    if a.len() == 0 {
        assert(a + b =~= b);
        assert(escaped_all(a) + escaped_all(b) =~= escaped_all(b));
        assert(escaped_all(a) =~= a);
    } else {
        let rest = a.drop_first();
        law_escaping_goes_character_by_character(rest, b, c);
        assert((a + b).drop_first() =~= rest + b);
        assert((a + b)[0] == a[0]);
        assert(escaped_all(a + b) =~= escaped_all(a) + escaped_all(b));
        if !a.contains('\'') {
            assert(a[0] != '\'') by {
                assert(a.contains(a[0]));
            }
            assert(!rest.contains('\'')) by {
                if rest.contains('\'') {
                    let i = choose|i: int| 0 <= i < rest.len() && rest[i] == '\'';
                    assert(a[i + 1] == '\'');
                }
            }
            assert(escaped_all(a) =~= a);
        }
    }
}

/// A word is quoted only where it must be: plain text stays as it is, and
/// anything else, the empty text included, stands between single quotes.
pub proof fn law_words_are_quoted_where_needed(s: Seq<char>)
    ensures
        s.len() > 0 && (forall|i: int| 0 <= i < s.len() ==> is_plain(#[trigger] s[i]))
            ==> shell_quoted(s) == s,
        s.len() == 0 || (exists|i: int| 0 <= i < s.len() && !is_plain(#[trigger] s[i]))
            ==> shell_quoted(s) == seq!['\''] + escaped_all(s) + seq!['\''],
{
}

/// Arguments are written one after the other, each behind a space.
pub proof fn law_arguments_stand_behind_spaces(
    a: Seq<Seq<u8>>,
    b: Seq<Seq<u8>>,
    arg: Seq<u8>,
)
    ensures
        rendered_args(a + b) == rendered_args(a) + rendered_args(b),
        rendered_args(seq![arg]) == seq![' '] + shell_quoted(text::lossy(arg)),
        rendered_args(Seq::empty()).len() == 0,
    decreases b.len(),
{
    assert(seq![arg].drop_last() =~= Seq::empty());
    assert(rendered_args(seq![arg].drop_last()).len() == 0);
    assert(rendered_args(seq![arg]) =~= seq![' '] + shell_quoted(text::lossy(arg)));
    if b.len() == 0 {
        assert(a + b =~= a);
        assert(rendered_args(a) + rendered_args(b) =~= rendered_args(a));
    } else {
        law_arguments_stand_behind_spaces(a, b.drop_last(), arg);
        assert((a + b).drop_last() =~= a + b.drop_last());
        assert((a + b).last() == b.last());
        assert(rendered_args(a + b) =~= rendered_args(a) + rendered_args(b));
    }
}

/// A stage shows its program and then its arguments, or, where the command is
/// secret, the mark that hides them. A command of one stage looks like that
/// stage.
pub proof fn law_stage_shows_program_then_arguments(stage: StageView, secret: bool)
    ensures
        stage.rendered(false) == shell_quoted(text::lossy(stage.program)) + rendered_args(
            stage.args,
        ),
        stage.rendered(true) == shell_quoted(text::lossy(stage.program)) + " <secret>"@,
        (CmdDisplayView { stages: seq![stage], secret }).rendered() == stage.rendered(secret),
{
    let d = CmdDisplayView { stages: seq![stage], secret };
    let all = d.stages.map_values(|s: StageView| s.rendered(d.secret));
    assert(all =~= seq![stage.rendered(secret)]);
    text::law_joining_composes(all, all, " | "@);
}

/// The debugging rendering of a command lists every stage, and every argument of
/// a stage, one after the other, unless the command is secret.
pub proof fn law_debug_lists_every_stage(
    stages: Seq<StageView>,
    stage: StageView,
    arg: Seq<u8>,
)
    ensures
        ({
            let close = "], secret: false }"@;
            let one = (CmdDisplayView { stages: seq![stage], secret: false }).debug();
            let many = (CmdDisplayView { stages, secret: false }).debug();
            let more = (CmdDisplayView { stages: stages.push(stage), secret: false }).debug();
            &&& one == "CmdDisplay { stages: ["@ + stage.debug() + close
            &&& stages.len() > 0 ==> more == many.take(many.len() - close.len()) + ", "@
                + stage.debug() + close
            &&& (CmdDisplayView { stages, secret: true }).debug()
                == "CmdDisplay { stages: \"<secret>\", secret: true }"@
        }),
        ({
            let program = "StageDisplay { program: "@ + text::debug_quoted_bytes(stage.program)
                + ", args: ["@;
            let none = StageView { program: stage.program, args: Seq::empty() };
            let one = StageView { program: stage.program, args: seq![arg] };
            let more = StageView { program: stage.program, args: stage.args.push(arg) };
            &&& none.debug() == program + "] }"@
            &&& one.debug() == program + text::debug_quoted_bytes(arg) + "] }"@
            &&& stage.args.len() > 0 ==> more.debug() == stage.debug().take(
                stage.debug().len() - "] }"@.len(),
            ) + ", "@ + text::debug_quoted_bytes(arg) + "] }"@
        }),
{
    let f = |s: StageView| s.debug();
    let sep = ", "@;
    assert(seq![stage].map_values(f) =~= seq![stage.debug()]);
    text::law_joining_composes(seq![stage.debug()], Seq::empty(), sep);
    let close = "], secret: false }"@;
    if stages.len() > 0 {
        assert(stages.push(stage).map_values(f) =~= stages.map_values(f) + seq![stage.debug()]);
        text::law_joining_composes(stages.map_values(f), seq![stage.debug()], sep);
        let many = (CmdDisplayView { stages, secret: false }).debug();
        assert(many.take(many.len() - close.len()) =~= "CmdDisplay { stages: ["@ + text::joined(
            stages.map_values(f),
            sep,
        ));
        assert((CmdDisplayView { stages: stages.push(stage), secret: false }).debug() =~= many.take(
            many.len() - close.len(),
        ) + sep + stage.debug() + close);
    }
    let g = |a: Seq<u8>| text::debug_quoted_bytes(a);
    let quoted = text::debug_quoted_bytes(arg);
    let program = "StageDisplay { program: "@ + text::debug_quoted_bytes(stage.program)
        + ", args: ["@;
    assert(Seq::<Seq<u8>>::empty().map_values(g) =~= Seq::empty());
    text::law_joining_composes(Seq::empty(), Seq::empty(), sep);
    let none = StageView { program: stage.program, args: Seq::empty() };
    assert(none.debug() =~= program + "] }"@);
    assert(seq![arg].map_values(g) =~= seq![quoted]);
    text::law_joining_composes(seq![quoted], Seq::empty(), sep);
    if stage.args.len() > 0 {
        assert(stage.args.push(arg).map_values(g) =~= stage.args.map_values(g) + seq![quoted]);
        text::law_joining_composes(stage.args.map_values(g), seq![quoted], sep);
        let shown = stage.debug();
        assert(shown.take(shown.len() - "] }"@.len()) =~= program + text::joined(
            stage.args.map_values(g),
            sep,
        ));
        let more = StageView { program: stage.program, args: stage.args.push(arg) };
        assert(more.debug() =~= shown.take(shown.len() - "] }"@.len()) + sep + quoted + "] }"@);
    }
}

/// A display, as it is made: one stage to begin with, further ones on the right.
pub proof fn law_displays_grow_on_the_right(
    program: OsText,
    args: Vec<OsText>,
    secret: bool,
    single: CmdDisplay,
    d: &mut CmdDisplay,
    nothing: (),
)
    ensures
        call_ensures(CmdDisplay::new, (program, args, secret), single) ==> {
            &&& single@.secret == secret
            &&& single@.stages.len() == 1
            &&& single@.stages[0].program == program.bytes@
            &&& single@.stages[0].args == os::os_views(args@)
        },
        call_ensures(CmdDisplay::push_stage, (d, program, args), nothing) ==> {
            &&& final(d)@.secret == old(d)@.secret
            &&& final(d)@.stages.len() == old(d)@.stages.len() + 1
            &&& final(d)@.stages.drop_last() == old(d)@.stages
            &&& final(d)@.stages.last().program == program.bytes@
            &&& final(d)@.stages.last().args == os::os_views(args@)
        },
{
    assert(old(d)@.stages.push(final(d)@.stages.last()).drop_last() =~= old(d)@.stages);
}

/// A display tells what it was made of; of a pipeline, program and arguments are
/// those of the first stage.
pub proof fn law_displays_tell_their_stages(
    d: &CmdDisplay,
    program: &OsText,
    b: bool,
    args: &[OsText],
    stages: &[StageDisplay],
    s: &StageDisplay,
    i: int,
    copy: CmdDisplay,
)
    ensures
        call_ensures(CmdDisplay::program, (d,), program) ==> program@ == d@.stages[0].program,
        call_ensures(CmdDisplay::is_secret, (d,), b) ==> b == d@.secret,
        call_ensures(CmdDisplay::raw_args, (d,), args) ==> os::os_views(args@)
            == d@.stages[0].args,
        call_ensures(CmdDisplay::is_pipeline, (d,), b) ==> b == (d@.stages.len() > 1),
        call_ensures(CmdDisplay::stages, (d,), stages) ==> {
            &&& stages@.len() == d@.stages.len()
            &&& 0 <= i < stages@.len() ==> stages@[i]@ == d@.stages[i]
        },
        call_ensures(StageDisplay::program, (s,), program) ==> program@ == s@.program,
        call_ensures(StageDisplay::raw_args, (s,), args) ==> os::os_views(args@) == s@.args,
        call_ensures(CmdDisplay::clone, (d,), copy) ==> copy@ == d@,
{
    if call_ensures(CmdDisplay::stages, (d,), stages) {
        assert(stage_views(stages@).len() == stages@.len());
        if 0 <= i < stages@.len() {
            assert(stage_views(stages@)[i] == stages@[i]@);
        }
    }
}

/// A display, as it is shown: a stage is its quoted program and its quoted
/// arguments or the mark that hides them, and a pipeline is its stages with bars
/// between them.
pub proof fn law_shown_commands_read_like_shell(
    d: &CmdDisplay,
    out: String,
    debug: String,
)
    ensures
        call_ensures(CmdDisplay::to_string, (d,), out) && d@.stages.len() == 1 && !d@.secret
            ==> out@ == shell_quoted(text::lossy(d@.stages[0].program)) + rendered_args(
            d@.stages[0].args,
        ),
        call_ensures(CmdDisplay::to_string, (d,), out) && d@.stages.len() == 1 && d@.secret
            ==> out@ == shell_quoted(text::lossy(d@.stages[0].program)) + " <secret>"@,
        call_ensures(CmdDisplay::to_string, (d,), out) && d@.stages.len() > 1 ==> out@ == (
        CmdDisplayView { stages: d@.stages.drop_last(), secret: d@.secret }).rendered() + " | "@ + (
        CmdDisplayView { stages: seq![d@.stages.last()], secret: d@.secret }).rendered(),
        call_ensures(CmdDisplay::debug, (d,), debug) ==> debug@ == d@.debug(),
{
    if d@.stages.len() >= 1 {
        law_stage_shows_program_then_arguments(d@.stages.last(), d@.secret);
        if d@.stages.len() == 1 {
            assert(d@.stages =~= seq![d@.stages[0]]);
        } else {
            let init = CmdDisplayView { stages: d@.stages.drop_last(), secret: d@.secret };
            law_stage_extends_rendering(init, d@.stages.last());
            assert(init.stages.push(d@.stages.last()) =~= d@.stages);
        }
    }
}

}
