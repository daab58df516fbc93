//! Terminal colours: the escape codes that surround a coloured text, and the
//! calls that produce them.

use owo_colors::OwoColorize;
use vstd::prelude::*;

verus! {

/// The escape character that starts every colour code.
pub open spec fn escape() -> char {
    '\x1b'
}

/// The code that selects a colour: the escape character, `[`, two digits
/// and `m`.
pub open spec fn colour_code(tens: char, units: char) -> Seq<char> {
    seq![escape(), '[', tens, units, 'm']
}

/// The code that returns the foreground to the terminal's default.
pub open spec fn foreground_reset() -> Seq<char> {
    colour_code('3', '9')
}

/// The code that returns the background to the terminal's default.
pub open spec fn background_reset() -> Seq<char> {
    colour_code('4', '9')
}

/// `text` on a red background.
pub open spec fn red_background(text: Seq<char>) -> Seq<char> {
    colour_code('4', '1') + text + background_reset()
}

/// `text` in green.
pub open spec fn green_text(text: Seq<char>) -> Seq<char> {
    colour_code('3', '2') + text + foreground_reset()
}

/// `text` in yellow.
pub open spec fn yellow_text(text: Seq<char>) -> Seq<char> {
    colour_code('3', '3') + text + foreground_reset()
}

/// `text` in blue.
pub open spec fn blue_text(text: Seq<char>) -> Seq<char> {
    colour_code('3', '4') + text + foreground_reset()
}

/// `OwoColorize::on_red`, displayed: the text between the code for a red
/// background and the code that resets the background. Not proved; the
/// colour crate writes exactly these three parts.
#[verifier::external_body]
pub(crate) fn on_red(text: &str) -> (out: String)
    ensures
        out@ == red_background(text@),
{
    text.on_red().to_string()
}

/// `OwoColorize::green`, displayed: the text between the code for a green
/// foreground and the code that resets the foreground. Not proved.
#[verifier::external_body]
pub(crate) fn green(text: &str) -> (out: String)
    ensures
        out@ == green_text(text@),
{
    text.green().to_string()
}

/// `OwoColorize::yellow`, displayed: the text between the code for a yellow
/// foreground and the code that resets the foreground. Not proved.
#[verifier::external_body]
pub(crate) fn yellow(text: &str) -> (out: String)
    ensures
        out@ == yellow_text(text@),
{
    text.yellow().to_string()
}

/// `OwoColorize::blue`, displayed: the text between the code for a blue
/// foreground and the code that resets the foreground. Not proved.
#[verifier::external_body]
pub(crate) fn blue(text: &str) -> (out: String)
    ensures
        out@ == blue_text(text@),
{
    text.blue().to_string()
}

/// Whether `c` is a decimal digit.
pub open spec fn is_digit(c: char) -> bool {
    '0' <= c <= '9'
}

/// Whether `text` begins with a colour code.
pub open spec fn starts_with_code(text: Seq<char>) -> bool {
    &&& text.len() >= 5
    &&& text[0] == escape()
    &&& text[1] == '['
    &&& is_digit(text[2])
    &&& is_digit(text[3])
    &&& text[4] == 'm'
}

/// `text` without its colour codes, read from left to right.
pub open spec fn stripped(text: Seq<char>) -> Seq<char>
    decreases text.len(),
{
    if text.len() == 0 {
        Seq::empty()
    } else if starts_with_code(text) {
        stripped(text.skip(5))
    } else {
        seq![text[0]] + stripped(text.skip(1))
    }
}

/// Whether `text` holds no escape character.
pub open spec fn plain(text: Seq<char>) -> bool {
    forall|i: int| 0 <= i < text.len() ==> text[i] != escape()
}

/// Whether `text` holds no complete colour code.
#[verifier::opaque]
pub open spec fn code_free(text: Seq<char>) -> bool {
    forall|i: int| 0 <= i < text.len() ==> !starts_with_code(#[trigger] text.skip(i))
}

/// Whether `rest` cannot complete a colour code that the text before it has
/// begun: it is empty, or begins with something that stands in no colour
/// code behind the escape character.
pub open spec fn breaks_code(rest: Seq<char>) -> bool {
    rest.len() == 0 || (rest[0] != '[' && !is_digit(rest[0]) && rest[0] != 'm')
}

/// A text without escape characters holds no colour code.
pub proof fn plain_text_is_code_free(text: Seq<char>)
    requires
        plain(text),
    ensures
        code_free(text),
{
    reveal(code_free);
    assert forall|i: int| 0 <= i < text.len() implies !starts_with_code(
        #[trigger] text.skip(i),
    ) by {
        assert(text.skip(i)[0] == text[i]);
    }
}

/// Any part of a text without colour codes is without them too.
pub proof fn lemma_code_free_part(text: Seq<char>, start: int, end: int)
    requires
        code_free(text),
        0 <= start <= end <= text.len(),
    ensures
        code_free(text.subrange(start, end)),
{
    let part = text.subrange(start, end);
    reveal(code_free);
    assert forall|i: int| 0 <= i < part.len() implies !starts_with_code(
        #[trigger] part.skip(i),
    ) by {
        if starts_with_code(part.skip(i)) {
            let there = text.skip(start + i);
            assert(part.skip(i)[0] == there[0]);
            assert(part.skip(i)[1] == there[1]);
            assert(part.skip(i)[2] == there[2]);
            assert(part.skip(i)[3] == there[3]);
            assert(part.skip(i)[4] == there[4]);
            assert(starts_with_code(there));
        }
    }
}

/// Stripping leaves a text without colour codes as it is, and goes on
/// behind it, where what follows cannot complete a code.
pub proof fn lemma_stripped_code_free(text: Seq<char>, rest: Seq<char>)
    requires
        code_free(text),
        breaks_code(rest),
    ensures
        stripped(text + rest) == text + stripped(rest),
    decreases text.len(),
{
    reveal(code_free);
    if text.len() == 0 {
        assert(text + rest == rest);
        assert(text + stripped(rest) == stripped(rest));
    } else {
        let whole = text + rest;
        assert(text.skip(0) == text);
        assert(!starts_with_code(whole)) by {
            if starts_with_code(whole) {
                if text.len() >= 5 {
                    assert(starts_with_code(text));
                } else {
                    assert(whole[text.len() as int] == rest[0]);
                }
            }
        }
        assert(whole[0] == text[0]);
        assert(whole.skip(1) == text.skip(1) + rest);
        assert(code_free(text.skip(1))) by {
            assert forall|i: int| 0 <= i < text.skip(1).len() implies !starts_with_code(
                #[trigger] text.skip(1).skip(i),
            ) by {
                assert(text.skip(1).skip(i) == text.skip(i + 1));
            }
        }
        lemma_stripped_code_free(text.skip(1), rest);
        assert(seq![text[0]] + (text.skip(1) + stripped(rest)) == text + stripped(rest));
    }
}

/// Stripping leaves a text without escape characters as it is, and goes on
/// behind it.
pub proof fn lemma_stripped_plain(text: Seq<char>, rest: Seq<char>)
    requires
        plain(text),
    ensures
        stripped(text + rest) == text + stripped(rest),
    decreases text.len(),
{
    if text.len() == 0 {
        assert(text + rest == rest);
        assert(text + stripped(rest) == stripped(rest));
    } else {
        let whole = text + rest;
        assert(whole[0] == text[0]);
        assert(!starts_with_code(whole));
        assert(whole.skip(1) == text.skip(1) + rest);
        assert(plain(text.skip(1))) by {
            assert forall|i: int| 0 <= i < text.skip(1).len() implies text.skip(1)[i]
                != escape() by {
                assert(text.skip(1)[i] == text[i + 1]);
            }
        }
        lemma_stripped_plain(text.skip(1), rest);
        assert(seq![text[0]] + (text.skip(1) + stripped(rest)) == text + stripped(rest));
    }
}

/// Stripping removes a colour code at the front, and goes on behind it.
pub proof fn lemma_stripped_code(tens: char, units: char, rest: Seq<char>)
    requires
        is_digit(tens),
        is_digit(units),
    ensures
        stripped(colour_code(tens, units) + rest) == stripped(rest),
{
    let whole = colour_code(tens, units) + rest;
    assert(starts_with_code(whole));
    assert(whole.skip(5) == rest);
}

/// `text` without its colour codes.
pub fn without_codes(text: &str) -> (out: String)
    ensures
        out@ == stripped(text@),
{
    let chars = crate::text::chars_of(text);
    let len = chars.len();
    let mut out = String::new();
    let mut pos: usize = 0;
    assert(chars@.skip(0) == chars@);
    assert(out@ + stripped(chars@) == stripped(text@));
    while pos < len
        invariant
            pos <= len == chars@.len(),
            chars@ == text@,
            out@ + stripped(chars@.skip(pos as int)) == stripped(text@),
        decreases len - pos,
    {
        let ghost rest = chars@.skip(pos as int);
        let ghost before = out@;
        let coded = len - pos >= 5 && chars[pos] == '\x1b' && chars[pos + 1] == '[' && '0'
            <= chars[pos + 2] && chars[pos + 2] <= '9' && '0' <= chars[pos + 3] && chars[pos + 3]
            <= '9' && chars[pos + 4] == 'm';
        assert(coded == starts_with_code(rest));
        if coded {
            assert(rest.skip(5) == chars@.skip(pos + 5));
            pos += 5;
        } else {
            out.push(chars[pos]);
            proof {
                assert(rest.skip(1) == chars@.skip(pos + 1));
                assert(out@ + stripped(rest.skip(1)) == before + (seq![rest[0]] + stripped(
                    rest.skip(1),
                )));
            }
            pos += 1;
        }
    }
    assert(out@ + Seq::<char>::empty() == out@);
    out
}

} // verus!
