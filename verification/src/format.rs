//! Rendering one line within a bounded width, with the occurrences of the
//! query marked.

use crate::laws::{
    decorated_stripped_is_plain, plain_highlighting_is_verbatim, plain_rendering_is_bounded,
    short_line_is_verbatim,
};
use crate::paint::{code_free, on_red, red_background, stripped};
use crate::text::{chars_of, string_of_range};
use vstd::prelude::*;

verus! {

/// The mark that stands for text left out.
pub open spec fn ellipsis() -> Seq<char> {
    seq!['.', '.', '.']
}

/// An occurrence as it is shown: on a red background where the output is
/// decorated, unchanged where it is plain.
pub open spec fn marked(text: Seq<char>, decorated: bool) -> Seq<char> {
    if decorated {
        red_background(text)
    } else {
        text
    }
}

/// `a + b`, but no more than `cap`.
pub open spec fn capped_sum(a: int, b: int, cap: int) -> int {
    if a + b < cap {
        a + b
    } else {
        cap
    }
}

/// `a - b`, but no less than zero.
pub open spec fn floored_diff(a: int, b: int) -> int {
    if a > b {
        a - b
    } else {
        0
    }
}

/// What is emitted for `content` from position `from` on, given the offsets
/// still to be handled. Nothing of `content` is written twice. The range of
/// an offset is the `width` characters that start at it, cut at the end of
/// `content`; of it, the part at or behind `from` is marked, and before that
/// part comes the text between `from` and it. An offset at or past the end
/// of `content` contributes nothing, nor does one before `from` whose range
/// ends at or before `from`. After the last offset comes the rest of
/// `content`.
pub open spec fn highlighted_from(
    content: Seq<char>,
    width: nat,
    offsets: Seq<usize>,
    from: int,
    decorated: bool,
) -> Seq<char>
    decreases offsets.len(),
{
    if offsets.len() == 0 {
        if from < content.len() {
            content.subrange(from, content.len() as int)
        } else {
            Seq::empty()
        }
    } else {
        let start = offsets[0] as int;
        let rest = offsets.drop_first();
        let end = capped_sum(start, width as int, content.len() as int);
        if start >= content.len() || (start < from && end <= from) {
            highlighted_from(content, width, rest, from, decorated)
        } else {
            let shown = if start > from {
                start
            } else {
                from
            };
            content.subrange(from, shown) + marked(content.subrange(shown, end), decorated)
                + highlighted_from(content, width, rest, end, decorated)
        }
    }
}

/// `content` with the range of `width` characters at each offset marked.
pub open spec fn highlighted(
    content: Seq<char>,
    width: nat,
    offsets: Seq<usize>,
    decorated: bool,
) -> Seq<char> {
    highlighted_from(content, width, offsets, 0, decorated)
}

/// The offsets that lie in `[start, end)`, each counted from `start`.
pub open spec fn rebased(offsets: Seq<usize>, start: int, end: int) -> Seq<usize>
    decreases offsets.len(),
{
    if offsets.len() == 0 {
        Seq::empty()
    } else {
        let kept = rebased(offsets.drop_last(), start, end);
        let o = offsets.last();
        if start <= o < end {
            kept.push((o - start) as usize)
        } else {
            kept
        }
    }
}

/// The part `[start, end)` of a line of `len` characters that is shown when
/// the line is too long: the span from the first occurrence to the end of
/// the last, with `context` characters on each side; or, where that is wider
/// than `max_width - 6`, half of that width on each side of the first
/// occurrence. Both ends are kept inside the line.
pub open spec fn window(
    len: int,
    first: int,
    last: int,
    width: int,
    max_width: int,
    context: int,
) -> (int, int) {
    let near_start = floored_diff(first, context);
    let near_end = capped_sum(last + width, context, len);
    let available = floored_diff(max_width, 6);
    let half = available / 2;
    let (start, end) = if near_end > near_start && near_end - near_start > available {
        (floored_diff(first, half), capped_sum(first, half, len))
    } else {
        (near_start, near_end)
    };
    let start = if start < len {
        start
    } else {
        len
    };
    let end = if end < start {
        start
    } else {
        end
    };
    (start, end)
}

/// A long line cut down to its window, with an ellipsis on each side where
/// text was left out.
pub open spec fn windowed(
    line: Seq<char>,
    width: nat,
    offsets: Seq<usize>,
    max_width: nat,
    context: nat,
    decorated: bool,
) -> Seq<char>
    recommends
        offsets.len() > 0,
{
    let (start, end) = window(
        line.len() as int,
        offsets.first() as int,
        offsets.last() as int,
        width as int,
        max_width as int,
        context as int,
    );
    let lead = if start > 0 {
        ellipsis()
    } else {
        Seq::empty()
    };
    let trail = if end < line.len() {
        ellipsis()
    } else {
        Seq::empty()
    };
    lead + highlighted(line.subrange(start, end), width, rebased(offsets, start, end), decorated)
        + trail
}

/// The display form of `line`. A line of at most `max_width` characters is
/// shown whole; a longer one without occurrences is cut after
/// `max_width - 3` characters; a longer one with occurrences is cut down to
/// its window.
pub open spec fn rendered(
    line: Seq<char>,
    width: nat,
    offsets: Seq<usize>,
    max_width: nat,
    context: nat,
    decorated: bool,
) -> Seq<char> {
    if line.len() <= max_width {
        highlighted(line, width, offsets, decorated)
    } else if offsets.len() == 0 {
        line.take(floored_diff(max_width as int, 3)) + ellipsis()
    } else {
        windowed(line, width, offsets, max_width, context, decorated)
    }
}

/// The number that `str::parse::<usize>` reads from a text, or nothing where
/// it reads none.
pub uninterp spec fn parsed_width(text: Seq<char>) -> Option<usize>;

/// The width that a parsed setting gives: its number, or 80 where it gave
/// none.
pub open spec fn width_or_default(parsed: Option<usize>) -> usize {
    match parsed {
        Some(width) => width,
        None => 80,
    }
}

/// The width for a terminal whose setting of columns reads `columns`: the
/// number that the setting stands for, or 80 where there is no setting or
/// it stands for no number.
pub open spec fn terminal_width(columns: Option<&str>) -> usize {
    match columns {
        Some(text) => width_or_default(parsed_width(text@)),
        None => 80,
    }
}

/// `str::parse::<usize>`, with its error left out. Not proved; the result
/// is only named, nothing is said of which texts stand for a number.
#[verifier::external_body]
fn parse_width(text: &str) -> (out: Option<usize>)
    ensures
        out == parsed_width(text@),
{
    text.parse::<usize>().ok()
}

/// The width that a parsed setting gives: its number, or 80 where it gave
/// none.
pub fn width_of(parsed: Option<usize>) -> (out: usize)
    ensures
        out == width_or_default(parsed),
{
    match parsed {
        Some(width) => width,
        None => 80,
    }
}

/// The width for a terminal whose setting of columns reads `columns`.
pub fn width_from(columns: Option<&str>) -> (out: usize)
    ensures
        out == terminal_width(columns),
{
    match columns {
        Some(text) => width_of(parse_width(text)),
        None => 80,
    }
}

/// Renders lines for display within `max_width` characters, keeping
/// `context_chars` characters around the occurrences of a long line.
pub struct LineFormatter {
    max_width: usize,
    context_chars: usize,
}

fn add_capped(a: usize, b: usize, cap: usize) -> (out: usize)
    ensures
        out == capped_sum(a as int, b as int, cap as int),
{
    if a >= cap {
        cap
    } else if b >= cap - a {
        cap
    } else {
        a + b
    }
}

fn sub_floored(a: usize, b: usize) -> (out: usize)
    ensures
        out == floored_diff(a as int, b as int),
{
    if a > b {
        a - b
    } else {
        0
    }
}

fn highlight(content: &Vec<char>, width: usize, offsets: &[usize], decorated: bool) -> (out:
    String)
    ensures
        out@ == highlighted(content@, width as nat, offsets@, decorated),
{
    let len = content.len();
    let mut out = String::new();
    let mut from: usize = 0;
    let mut i: usize = 0;
    proof {
        assert(offsets@.skip(0) == offsets@);
        assert(Seq::<char>::empty() + highlighted(content@, width as nat, offsets@, decorated)
            == highlighted(content@, width as nat, offsets@, decorated));
    }
    while i < offsets.len()
        invariant
            i <= offsets@.len(),
            from <= len == content@.len(),
            out@ + highlighted_from(content@, width as nat, offsets@.skip(i as int), from as int, decorated)
                == highlighted(content@, width as nat, offsets@, decorated),
        decreases offsets@.len() - i,
    {
        let start = offsets[i];
        proof {
            assert(offsets@.skip(i as int)[0] == start);
            assert(offsets@.skip(i as int).drop_first() == offsets@.skip(i as int + 1));
        }
        let end = add_capped(start, width, len);
        if start < len && (start >= from || end > from) {
            let shown = if start > from {
                start
            } else {
                from
            };
            let ghost before = out@;
            if shown > from {
                let plain = string_of_range(content, from, shown);
                out.append(plain.as_str());
            }
            let found = string_of_range(content, shown, end);
            if decorated {
                let red = on_red(found.as_str());
                out.append(red.as_str());
            } else {
                out.append(found.as_str());
            }
            proof {
                let gap = content@.subrange(from as int, shown as int);
                let marking = marked(content@.subrange(shown as int, end as int), decorated);
                let tail = highlighted_from(
                    content@,
                    width as nat,
                    offsets@.skip(i as int + 1),
                    end as int,
                    decorated,
                );
                assert(out@ =~= before + gap + marking);
                assert(out@ + tail == before + (gap + marking + tail));
            }
            from = end;
        }
        i += 1;
    }
    if from < len {
        let rest = string_of_range(content, from, len);
        out.append(rest.as_str());
    }
    out
}

fn rebase(offsets: &[usize], start: usize, end: usize) -> (out: Vec<usize>)
    ensures
        out@ == rebased(offsets@, start as int, end as int),
{
    let mut out: Vec<usize> = Vec::new();
    let mut i: usize = 0;
    while i < offsets.len()
        invariant
            i <= offsets@.len(),
            out@ == rebased(offsets@.take(i as int), start as int, end as int),
        decreases offsets@.len() - i,
    {
        let o = offsets[i];
        proof {
            assert(offsets@.take(i as int + 1).drop_last() == offsets@.take(i as int));
            assert(offsets@.take(i as int + 1).last() == o);
        }
        if start <= o && o < end {
            out.push(o - start);
        }
        i += 1;
    }
    proof {
        assert(offsets@.take(offsets@.len() as int) == offsets@);
    }
    out
}

impl LineFormatter {
    /// The widest line that is shown whole.
    pub closed spec fn max_width(&self) -> nat {
        self.max_width as nat
    }

    /// How many characters are kept on each side of the occurrences of a
    /// long line.
    pub closed spec fn context_chars(&self) -> nat {
        self.context_chars as nat
    }

    /// A formatter for a terminal of 80 columns, with 20 characters of
    /// context.
    pub fn new() -> (out: Self)
        ensures
            out.max_width() == 80,
            out.context_chars() == 20,
    {
        LineFormatter { max_width: 80, context_chars: 20 }
    }

    /// A formatter for a terminal whose setting of columns reads `columns`,
    /// with 20 characters of context.
    pub fn for_terminal(columns: Option<&str>) -> (out: Self)
        ensures
            out.max_width() == terminal_width(columns),
            out.context_chars() == 20,
    {
        LineFormatter { max_width: width_from(columns), context_chars: 20 }
    }

    /// A formatter for the given width and context.
    pub fn with_limits(max_width: usize, context_chars: usize) -> (out: Self)
        ensures
            out.max_width() == max_width,
            out.context_chars() == context_chars,
    {
        LineFormatter { max_width, context_chars }
    }

    fn window_of(&self, len: usize, first: usize, last: usize, width: usize) -> (out: (
        usize,
        usize,
    ))
        ensures
            0 <= out.0 <= out.1 <= len,
            (out.0 as int, out.1 as int) == window(
                len as int,
                first as int,
                last as int,
                width as int,
                self.max_width() as int,
                self.context_chars() as int,
            ),
    {
        let near_start = sub_floored(first, self.context_chars);
        let last_end = add_capped(last, width, len);
        let near_end = add_capped(last_end, self.context_chars, len);
        let available = sub_floored(self.max_width, 6);
        let mut start = near_start;
        let mut end = near_end;
        if near_end > near_start && near_end - near_start > available {
            let half = available / 2;
            start = sub_floored(first, half);
            end = add_capped(first, half, len);
        }
        if start > len {
            start = len;
        }
        if end < start {
            end = start;
        }
        (start, end)
    }

    fn render(&self, line_content: &str, query: &str, match_indices: &[usize], decorated: bool) -> (out:
        String)
        ensures
            out@ == rendered(
                line_content@,
                query@.len(),
                match_indices@,
                self.max_width(),
                self.context_chars(),
                decorated,
            ),
    {
        let line = chars_of(line_content);
        let width = query.unicode_len();
        let len = line.len();
        if len <= self.max_width {
            return highlight(&line, width, match_indices, decorated);
        }
        proof {
            reveal_strlit("...");
            assert("..."@ == ellipsis());
        }
        let count = match_indices.len();
        if count == 0 {
            let kept = sub_floored(self.max_width, 3);
            assert(line@.take(kept as int) == line@.subrange(0, kept as int));
            let mut out = string_of_range(&line, 0, kept);
            out.append("...");
            return out;
        }
        let (start, end) = self.window_of(len, match_indices[0], match_indices[count - 1], width);
        let mut out = String::new();
        if start > 0 {
            out.append("...");
        }
        let segment = string_of_range(&line, start, end);
        let segment_chars = chars_of(segment.as_str());
        let local = rebase(match_indices, start, end);
        let shown = highlight(&segment_chars, width, local.as_slice(), decorated);
        out.append(shown.as_str());
        if end < len {
            out.append("...");
        }
        out
    }

    /// Renders a line for the terminal, with each occurrence on a red
    /// background. Without its colour codes the result is the plain
    /// rendering, unless the line holds a colour code itself.
    pub fn format_long_line(&self, line_content: &str, query: &str, match_indices: &[usize]) -> (out:
        String)
        ensures
            out@ == rendered(
                line_content@,
                query@.len(),
                match_indices@,
                self.max_width(),
                self.context_chars(),
                true,
            ),
            code_free(line_content@) ==> stripped(out@) == rendered(
                line_content@,
                query@.len(),
                match_indices@,
                self.max_width(),
                self.context_chars(),
                false,
            ),
    {
        proof {
            if code_free(line_content@) {
                decorated_stripped_is_plain(
                    line_content@,
                    query@.len(),
                    match_indices@,
                    self.max_width(),
                    self.context_chars(),
                );
            }
        }
        self.render(line_content, query, match_indices, true)
    }

    /// Renders a line as plain text. A line that is no longer than the
    /// width comes back as it is, whatever the offsets; no result is longer
    /// than the width, or than six characters where the width is less.
    pub fn format_long_line_pure(
        &self,
        line_content: &str,
        query: &str,
        match_indices: &[usize],
    ) -> (out: String)
        ensures
            out@ == rendered(
                line_content@,
                query@.len(),
                match_indices@,
                self.max_width(),
                self.context_chars(),
                false,
            ),
            line_content@.len() <= self.max_width() ==> out@ == line_content@,
            out@.len() <= self.max_width() || out@.len() <= 6,
    {
        proof {
            if line_content@.len() <= self.max_width() {
                short_line_is_verbatim(
                    line_content@,
                    query@.len(),
                    match_indices@,
                    self.max_width(),
                    self.context_chars(),
                );
            }
            plain_rendering_is_bounded(
                line_content@,
                query@.len(),
                match_indices@,
                self.max_width(),
                self.context_chars(),
            );
        }
        self.render(line_content, query, match_indices, false)
    }

    /// The whole of `content`, with each occurrence on a red background.
    /// Without its colour codes the result is `content`, unless `content`
    /// holds a colour code itself.
    pub fn highlight_matches_safe(&self, content: &str, query: &str, match_indices: &[usize]) -> (out:
        String)
        ensures
            out@ == highlighted(content@, query@.len(), match_indices@, true),
            code_free(content@) ==> stripped(out@) == content@,
    {
        proof {
            if code_free(content@) {
                decorated_stripped_is_plain(
                    content@,
                    query@.len(),
                    match_indices@,
                    content@.len(),
                    0,
                );
                plain_highlighting_is_verbatim(content@, query@.len(), match_indices@);
            }
        }
        let chars = chars_of(content);
        highlight(&chars, query.unicode_len(), match_indices, true)
    }

    /// The whole of `content` as plain text: `content` itself, whatever the
    /// offsets.
    pub fn highlight_matches_safe_pure(
        &self,
        content: &str,
        query: &str,
        match_indices: &[usize],
    ) -> (out: String)
        ensures
            out@ == highlighted(content@, query@.len(), match_indices@, false),
            out@ == content@,
    {
        proof {
            plain_highlighting_is_verbatim(content@, query@.len(), match_indices@);
        }
        let chars = chars_of(content);
        highlight(&chars, query.unicode_len(), match_indices, false)
    }
}

} // verus!
