//! Terminal colouring through the `colored` crate, and what is left of a
//! coloured text once its escape sequences are taken out.
use colored::Colorize;
use std::io::Write;
use vstd::prelude::*;

verus! {

/// The escape character that starts a terminal control sequence.
pub open spec fn esc() -> char {
    '\x1b'
}

/// The control sequence `ESC [ <code> m` that switches a style on.
pub open spec fn style_on(code: Seq<char>) -> Seq<char> {
    seq![esc(), '['] + code + seq!['m']
}

/// The control sequence `ESC [ 0 m` that resets the style.
pub open spec fn style_reset() -> Seq<char> {
    seq![esc(), '[', '0', 'm']
}

/// `res` shows `text` in the style `code`: either the text alone (when the
/// terminal is not coloured) or the text between the style's control
/// sequence and the reset sequence.
pub open spec fn painted(text: Seq<char>, code: Seq<char>, res: Seq<char>) -> bool {
    res == text || res == style_on(code) + text + style_reset()
}

/// Whether `s` holds no escape character.
pub open spec fn no_escape(s: Seq<char>) -> bool {
    forall|i: int| 0 <= i < s.len() ==> s[i] != esc()
}

/// The style code of bold cyan text.
pub open spec fn bold_cyan() -> Seq<char> {
    seq!['1', ';', '3', '6']
}

/// The style code of bold yellow text.
pub open spec fn bold_yellow() -> Seq<char> {
    seq!['1', ';', '3', '3']
}

/// The style code of bold red text.
pub open spec fn bold_red() -> Seq<char> {
    seq!['1', ';', '3', '1']
}

/// The style code of cyan text.
pub open spec fn cyan() -> Seq<char> {
    seq!['3', '6']
}

/// The style code of yellow text.
pub open spec fn yellow() -> Seq<char> {
    seq!['3', '3']
}

/// The style code of red text.
pub open spec fn red() -> Seq<char> {
    seq!['3', '1']
}

/// `text.cyan().bold().to_string()` of `colored`. Its source writes the text
/// alone when colouring is off (decided from the environment and the
/// terminal), and otherwise `ESC[1;36m`, the text, `ESC[0m`; only a text that
/// itself holds a reset sequence is changed further, so the exact form is
/// claimed for text without an escape character. It is never shorter than
/// the text. (The source consults the colouring setting more than once per
/// call; the claim takes that setting to stay put during the call, which
/// only `colored::control::set_override` from another thread could break.)
#[verifier::external_body]
pub fn paint_bold_cyan(text: &str) -> (res: String)
    ensures
        res@.len() >= text@.len(),
        no_escape(text@) ==> painted(text@, bold_cyan(), res@),
{
    text.cyan().bold().to_string()
}

/// `text.yellow().bold().to_string()` of `colored`: as `paint_bold_cyan`,
/// with the style code `1;33`.
#[verifier::external_body]
pub fn paint_bold_yellow(text: &str) -> (res: String)
    ensures
        res@.len() >= text@.len(),
        no_escape(text@) ==> painted(text@, bold_yellow(), res@),
{
    text.yellow().bold().to_string()
}

/// `text.red().bold().to_string()` of `colored`: as `paint_bold_cyan`,
/// with the style code `1;31`.
#[verifier::external_body]
pub fn paint_bold_red(text: &str) -> (res: String)
    ensures
        res@.len() >= text@.len(),
        no_escape(text@) ==> painted(text@, bold_red(), res@),
{
    text.red().bold().to_string()
}

/// `text.cyan().to_string()` of `colored`: as `paint_bold_cyan`, with the
/// style code `36`.
#[verifier::external_body]
pub fn paint_cyan(text: &str) -> (res: String)
    ensures
        res@.len() >= text@.len(),
        no_escape(text@) ==> painted(text@, cyan(), res@),
{
    text.cyan().to_string()
}

/// `text.yellow().to_string()` of `colored`: as `paint_bold_cyan`, with the
/// style code `33`.
#[verifier::external_body]
pub fn paint_yellow(text: &str) -> (res: String)
    ensures
        res@.len() >= text@.len(),
        no_escape(text@) ==> painted(text@, yellow(), res@),
{
    text.yellow().to_string()
}

/// `text.red().to_string()` of `colored`: as `paint_bold_cyan`, with the
/// style code `31`.
#[verifier::external_body]
pub fn paint_red(text: &str) -> (res: String)
    ensures
        res@.len() >= text@.len(),
        no_escape(text@) ==> painted(text@, red(), res@),
{
    text.red().to_string()
}

/// Writes `text` to standard output through `write!` on `std::io::stdout()`.
/// Nothing is claimed: the effect is outside the program, and a failed write
/// is ignored.
#[verifier::external_body]
pub fn write_to_stdout(text: &str) {
    let _ = write!(std::io::stdout(), "{}", text);
}

/// A record of one write to standard output: the text that was written.
/// Only `print_text` makes one, right after writing that text.
pub struct Printed {
    text: Ghost<Seq<char>>,
}

impl Printed {
    /// The text that was written.
    pub closed spec fn text(self) -> Seq<char> {
        self.text@
    }
}

/// Writes `text` to standard output (`write_to_stdout`) and records what
/// was written.
pub fn print_text(text: &str) -> (printed: Printed)
    ensures
        printed.text() == text@,
{
    write_to_stdout(text);
    Printed { text: Ghost(text@) }
}

/// What remains of `s` when every escape sequence is taken out: from an
/// escape character up to and including the next `m`. `skipping` says that
/// an escape sequence is open at the start of `s`.
pub open spec fn strip_escapes_from(s: Seq<char>, skipping: bool) -> Seq<char>
    decreases s.len(),
{
    if s.len() == 0 {
        seq![]
    } else if skipping {
        strip_escapes_from(s.drop_first(), s[0] != 'm')
    } else if s[0] == esc() {
        strip_escapes_from(s.drop_first(), true)
    } else {
        seq![s[0]] + strip_escapes_from(s.drop_first(), false)
    }
}

/// Whether an escape sequence is still open after reading `s`, starting in
/// the state `skipping`.
pub open spec fn open_after(s: Seq<char>, skipping: bool) -> bool
    decreases s.len(),
{
    if s.len() == 0 {
        skipping
    } else if skipping {
        open_after(s.drop_first(), s[0] != 'm')
    } else {
        open_after(s.drop_first(), s[0] == esc())
    }
}

/// The visible text of `s`: `s` without its escape sequences.
pub open spec fn strip_escapes(s: Seq<char>) -> Seq<char> {
    strip_escapes_from(s, false)
}

/// Stripping splits over a concatenation, the second part starting in the
/// state the first part ends in.
pub proof fn lemma_strip_concat(a: Seq<char>, b: Seq<char>, skipping: bool)
    ensures
        strip_escapes_from(a + b, skipping) == strip_escapes_from(a, skipping)
            + strip_escapes_from(b, open_after(a, skipping)),
    decreases a.len(),
{
    if a.len() == 0 {
        assert(a + b =~= b);
    } else {
        assert((a + b).drop_first() =~= a.drop_first() + b);
        if skipping {
            lemma_strip_concat(a.drop_first(), b, a[0] != 'm');
        } else if a[0] == esc() {
            lemma_strip_concat(a.drop_first(), b, true);
        } else {
            lemma_strip_concat(a.drop_first(), b, false);
            assert(seq![a[0]] + strip_escapes_from(a.drop_first(), false) + strip_escapes_from(
                b,
                open_after(a.drop_first(), false),
            ) =~= seq![a[0]] + (strip_escapes_from(a.drop_first(), false) + strip_escapes_from(
                b,
                open_after(a.drop_first(), false),
            )));
        }
    }
}

/// Text without escape characters is left as it is, and leaves no sequence
/// open.
pub proof fn lemma_strip_plain(s: Seq<char>)
    requires
        no_escape(s),
    ensures
        strip_escapes_from(s, false) == s,
        !open_after(s, false),
    decreases s.len(),
{
    if s.len() > 0 {
        assert(no_escape(s.drop_first()));
        lemma_strip_plain(s.drop_first());
        assert(seq![s[0]] + s.drop_first() =~= s);
    }
}

/// Once open, a sequence made of style characters and a closing `m` is
/// skipped entirely and closed.
pub proof fn lemma_strip_sequence_tail(code: Seq<char>)
    requires
        forall|i: int| 0 <= i < code.len() ==> code[i] != 'm',
    ensures
        strip_escapes_from(code + seq!['m'], true) == Seq::<char>::empty(),
        !open_after(code + seq!['m'], true),
    decreases code.len(),
{
    let s = code + seq!['m'];
    if code.len() == 0 {
        assert(s =~= seq!['m']);
        assert(s.drop_first() =~= Seq::<char>::empty());
        assert(strip_escapes_from(s.drop_first(), false) == Seq::<char>::empty());
        assert(!open_after(s.drop_first(), false));
    } else {
        assert(s.drop_first() =~= code.drop_first() + seq!['m']);
        assert(s[0] == code[0]);
        assert forall|i: int| 0 <= i < code.drop_first().len() implies code.drop_first()[i] != 'm' by {
            assert(code.drop_first()[i] == code[i + 1]);
        }
        lemma_strip_sequence_tail(code.drop_first());
    }
}

/// A style sequence, and the reset sequence, leave nothing visible and no
/// sequence open.
pub proof fn lemma_strip_style_on(code: Seq<char>)
    requires
        forall|i: int| 0 <= i < code.len() ==> code[i] != 'm',
    ensures
        strip_escapes(style_on(code)) == Seq::<char>::empty(),
        !open_after(style_on(code), false),
        strip_escapes(style_reset()) == Seq::<char>::empty(),
        !open_after(style_reset(), false),
{
    let tail = seq!['['] + code;
    assert forall|i: int| 0 <= i < tail.len() implies tail[i] != 'm' by {
        if i > 0 {
            assert(tail[i] == code[i - 1]);
        }
    }
    lemma_strip_sequence_tail(tail);
    assert(style_on(code).drop_first() =~= tail + seq!['m']);
    let rtail = seq!['[', '0'];
    lemma_strip_sequence_tail(rtail);
    assert(style_reset().drop_first() =~= rtail + seq!['m']);
}

/// Painting text without escape characters leaves exactly the text visible,
/// and no sequence open.
pub proof fn lemma_strip_painted(text: Seq<char>, code: Seq<char>, res: Seq<char>)
    requires
        no_escape(text),
        forall|i: int| 0 <= i < code.len() ==> code[i] != 'm',
        painted(text, code, res),
    ensures
        strip_escapes(res) == text,
        !open_after(res, false),
{
    lemma_strip_plain(text);
    if res != text {
        lemma_strip_style_on(code);
        lemma_strip_concat(style_on(code), text, false);
        lemma_strip_concat(style_on(code) + text, style_reset(), false);
        lemma_strip_concat(style_on(code), text + style_reset(), false);
        lemma_strip_concat(text, style_reset(), false);
        lemma_open_concat(style_on(code), text, false);
        lemma_open_concat(style_on(code) + text, style_reset(), false);
        assert(strip_escapes_from(style_on(code), false) + text =~= text);
        assert(text + Seq::<char>::empty() =~= text);
    }
}

/// After a part that leaves no sequence open, stripping and the final state
/// go part by part.
pub proof fn lemma_closed_concat(a: Seq<char>, b: Seq<char>)
    requires
        !open_after(a, false),
    ensures
        strip_escapes(a + b) == strip_escapes(a) + strip_escapes(b),
        open_after(a + b, false) == open_after(b, false),
{
    lemma_strip_concat(a, b, false);
    lemma_open_concat(a, b, false);
}

/// The state after a concatenation is the state after its second part,
/// started in the state after the first.
pub proof fn lemma_open_concat(a: Seq<char>, b: Seq<char>, skipping: bool)
    ensures
        open_after(a + b, skipping) == open_after(b, open_after(a, skipping)),
    decreases a.len(),
{
    if a.len() == 0 {
        assert(a + b =~= b);
    } else {
        assert((a + b).drop_first() =~= a.drop_first() + b);
        if skipping {
            lemma_open_concat(a.drop_first(), b, a[0] != 'm');
        } else {
            lemma_open_concat(a.drop_first(), b, a[0] == esc());
        }
    }
}

} // verus!
