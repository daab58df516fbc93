//! What holds of every rendering and of every report.

use crate::format::{
    capped_sum, ellipsis, floored_diff, highlighted, highlighted_from, rebased, rendered, window,
    windowed, LineFormatter,
};
use crate::display::{number, positions, report_line, span, MatchRecord};
use crate::paint::{
    background_reset, breaks_code, code_free, colour_code, escape, foreground_reset, is_digit,
    lemma_code_free_part, lemma_stripped_code, lemma_stripped_code_free, lemma_stripped_plain,
    plain, starts_with_code, stripped,
};
use crate::report::{file_title, record_lines, report, section, title_start};
use crate::search::{views, FileMatches};
use crate::text::decimal;
use vstd::prelude::*;

verus! {

/// Stripping the colour codes from a decorated highlighting, and from what
/// follows it, gives the plain highlighting and what follows it, stripped.
pub proof fn lemma_stripped_highlighting(
    content: Seq<char>,
    width: nat,
    offsets: Seq<usize>,
    from: int,
    rest: Seq<char>,
)
    requires
        code_free(content),
        breaks_code(rest),
        0 <= from <= content.len(),
    ensures
        stripped(highlighted_from(content, width, offsets, from, true) + rest) == highlighted_from(
            content,
            width,
            offsets,
            from,
            false,
        ) + stripped(rest),
    decreases offsets.len(),
{
    let len = content.len() as int;
    if offsets.len() == 0 {
        let tail = if from < len {
            content.subrange(from, len)
        } else {
            Seq::empty()
        };
        lemma_code_free_part(content, from, len);
        assert(content.subrange(len, len) == Seq::<char>::empty());
        lemma_stripped_code_free(tail, rest);
    } else {
        let start = offsets[0] as int;
        let later = offsets.drop_first();
        let end = capped_sum(start, width as int, len);
        if start >= len || (start < from && end <= from) {
            lemma_stripped_highlighting(content, width, later, from, rest);
        } else {
            let shown = if start > from {
                start
            } else {
                from
            };
            let before = content.subrange(from, shown);
            let found = content.subrange(shown, end);
            let coloured = highlighted_from(content, width, later, end, true);
            let bare = highlighted_from(content, width, later, end, false);
            lemma_code_free_part(content, from, shown);
            lemma_code_free_part(content, shown, end);
            lemma_stripped_highlighting(content, width, later, end, rest);
            let after_close = coloured + rest;
            let after_found = background_reset() + after_close;
            let after_open = found + after_found;
            let after_before = colour_code('4', '1') + after_open;
            lemma_stripped_code('4', '9', after_close);
            lemma_stripped_code_free(found, after_found);
            lemma_stripped_code('4', '1', after_open);
            lemma_stripped_code_free(before, after_before);
            assert(highlighted_from(content, width, offsets, from, true) + rest =~= before
                + after_before);
            assert(highlighted_from(content, width, offsets, from, false) + stripped(rest)
                =~= before + (found + (bare + stripped(rest))));
        }
    }
}

/// Plain highlighting changes nothing, whatever the offsets: what is
/// emitted from `from` on is the content from `from` on.
pub proof fn lemma_plain_highlighting(
    content: Seq<char>,
    width: nat,
    offsets: Seq<usize>,
    from: int,
)
    requires
        0 <= from <= content.len(),
    ensures
        highlighted_from(content, width, offsets, from, false) == content.subrange(
            from,
            content.len() as int,
        ),
    decreases offsets.len(),
{
    let len = content.len() as int;
    if offsets.len() == 0 {
        if from >= len {
            assert(content.subrange(from, len) == Seq::<char>::empty());
        }
    } else {
        let start = offsets[0] as int;
        let later = offsets.drop_first();
        let end = capped_sum(start, width as int, len);
        if start >= len || (start < from && end <= from) {
            lemma_plain_highlighting(content, width, later, from);
        } else {
            let shown = if start > from {
                start
            } else {
                from
            };
            lemma_plain_highlighting(content, width, later, end);
            assert(content.subrange(from, shown) + content.subrange(shown, end)
                + content.subrange(end, len) =~= content.subrange(from, len));
        }
    }
}

/// The plain form of a text with its occurrences marked is the text itself,
/// whatever the offsets: in order or not, overlapping or not, inside the
/// text or not.
pub proof fn plain_highlighting_is_verbatim(content: Seq<char>, width: nat, offsets: Seq<usize>)
    ensures
        highlighted(content, width, offsets, false) == content,
{
    lemma_plain_highlighting(content, width, offsets, 0);
    assert(content.subrange(0, content.len() as int) == content);
}

/// A line that is no longer than the width is shown as it stands where it
/// is rendered as plain text, whatever the offsets.
pub proof fn short_line_is_verbatim(
    line: Seq<char>,
    width: nat,
    offsets: Seq<usize>,
    max_width: nat,
    context: nat,
)
    requires
        line.len() <= max_width,
    ensures
        rendered(line, width, offsets, max_width, context, false) == line,
{
    plain_highlighting_is_verbatim(line, width, offsets);
}

/// Plain rendering is a function of the line, the query's length, the
/// offsets and the formatter's two limits: two formatters with the same
/// limits render alike, every time.
pub proof fn plain_rendering_repeats(
    first: LineFormatter,
    second: LineFormatter,
    line: Seq<char>,
    width: nat,
    offsets: Seq<usize>,
)
    requires
        first.max_width() == second.max_width(),
        first.context_chars() == second.context_chars(),
    ensures
        rendered(line, width, offsets, first.max_width(), first.context_chars(), false) == rendered(
            line,
            width,
            offsets,
            second.max_width(),
            second.context_chars(),
            false,
        ),
{
}

/// Stripping the colour codes from a decorated rendering, and from what
/// follows it, gives the plain rendering and what follows it, stripped.
pub proof fn lemma_stripped_rendering(
    line: Seq<char>,
    width: nat,
    offsets: Seq<usize>,
    max_width: nat,
    context: nat,
    rest: Seq<char>,
)
    requires
        code_free(line),
        breaks_code(rest),
    ensures
        stripped(rendered(line, width, offsets, max_width, context, true) + rest) == rendered(
            line,
            width,
            offsets,
            max_width,
            context,
            false,
        ) + stripped(rest),
{
    let none = Seq::<char>::empty();
    assert(plain(ellipsis()));
    if line.len() <= max_width {
        lemma_stripped_highlighting(line, width, offsets, 0, rest);
    } else if offsets.len() == 0 {
        let kept = line.take(floored_diff(max_width as int, 3));
        assert(kept == line.subrange(0, floored_diff(max_width as int, 3)));
        lemma_code_free_part(line, 0, floored_diff(max_width as int, 3));
        lemma_stripped_plain(ellipsis(), rest);
        lemma_stripped_code_free(kept, ellipsis() + rest);
        assert(kept + ellipsis() + rest =~= kept + (ellipsis() + rest));
        assert(kept + ellipsis() + stripped(rest) =~= kept + (ellipsis() + stripped(rest)));
    } else {
        let (start, end) = window(
            line.len() as int,
            offsets.first() as int,
            offsets.last() as int,
            width as int,
            max_width as int,
            context as int,
        );
        let lead = if start > 0 {
            ellipsis()
        } else {
            none
        };
        let trail = if end < line.len() {
            ellipsis()
        } else {
            none
        };
        let part = line.subrange(start, end);
        let local = rebased(offsets, start, end);
        lemma_code_free_part(line, start, end);
        assert(plain(lead));
        assert(plain(trail));
        lemma_stripped_plain(trail, rest);
        assert(breaks_code(trail + rest)) by {
            if end < line.len() {
                assert((trail + rest)[0] == '.');
            } else {
                assert(trail + rest == rest);
            }
        }
        lemma_stripped_highlighting(part, width, local, 0, trail + rest);
        lemma_stripped_plain(lead, highlighted(part, width, local, true) + (trail + rest));
        assert(windowed(line, width, offsets, max_width, context, true) + rest =~= lead + (
        highlighted(part, width, local, true) + (trail + rest)));
        assert(windowed(line, width, offsets, max_width, context, false) + stripped(rest) =~= lead
            + (highlighted(part, width, local, false) + (trail + stripped(rest))));
    }
}

/// The decorated rendering of a line that holds no colour code itself, with
/// its colour codes stripped, is the plain rendering, whatever the offsets.
pub proof fn decorated_stripped_is_plain(
    line: Seq<char>,
    width: nat,
    offsets: Seq<usize>,
    max_width: nat,
    context: nat,
)
    requires
        code_free(line),
    ensures
        stripped(rendered(line, width, offsets, max_width, context, true)) == rendered(
            line,
            width,
            offsets,
            max_width,
            context,
            false,
        ),
{
    let none = Seq::<char>::empty();
    let coloured = rendered(line, width, offsets, max_width, context, true);
    let bare = rendered(line, width, offsets, max_width, context, false);
    lemma_stripped_rendering(line, width, offsets, max_width, context, none);
    assert(stripped(none) == none);
    assert(coloured + none == coloured);
    assert(bare + none == bare);
}

/// The decorated rendering of a short line that holds no colour code
/// itself, with its colour codes stripped, is the line.
pub proof fn short_line_round_trip(
    line: Seq<char>,
    width: nat,
    offsets: Seq<usize>,
    max_width: nat,
    context: nat,
)
    requires
        line.len() <= max_width,
        code_free(line),
    ensures
        stripped(rendered(line, width, offsets, max_width, context, true)) == line,
        rendered(line, width, offsets, max_width, context, false) == line,
{
    decorated_stripped_is_plain(line, width, offsets, max_width, context);
    short_line_is_verbatim(line, width, offsets, max_width, context);
}

/// Where the width decides: a line of exactly `max_width` characters is
/// highlighted whole; a line of one character more is cut, to its first
/// `max_width - 3` characters and an ellipsis where it has no occurrence, to
/// its window where it has one.
pub proof fn width_boundary(
    line: Seq<char>,
    width: nat,
    offsets: Seq<usize>,
    max_width: nat,
    context: nat,
    decorated: bool,
)
    ensures
        line.len() == max_width ==> rendered(line, width, offsets, max_width, context, decorated)
            == highlighted(line, width, offsets, decorated),
        line.len() == max_width + 1 && offsets.len() == 0 ==> rendered(
            line,
            width,
            offsets,
            max_width,
            context,
            decorated,
        ) == line.take(floored_diff(max_width as int, 3)) + ellipsis(),
        line.len() == max_width + 1 && offsets.len() > 0 ==> rendered(
            line,
            width,
            offsets,
            max_width,
            context,
            decorated,
        ) == windowed(line, width, offsets, max_width, context, decorated),
{
}

/// The window of a long line is no wider than `max_width - 6`, and lies
/// inside the line.
pub proof fn lemma_window_width(
    len: int,
    first: int,
    last: int,
    width: int,
    max_width: int,
    context: int,
)
    requires
        0 <= len,
        0 <= first,
        0 <= last,
        0 <= width,
        0 <= max_width,
        0 <= context,
    ensures
        0 <= window(len, first, last, width, max_width, context).0 <= window(
            len,
            first,
            last,
            width,
            max_width,
            context,
        ).1 <= len,
        window(len, first, last, width, max_width, context).1 - window(
            len,
            first,
            last,
            width,
            max_width,
            context,
        ).0 <= floored_diff(max_width, 6),
{
}

/// The window of a long line shows the first occurrence, where that
/// occurrence begins inside the line, the query is not empty and the width
/// leaves room for at least one character on each side of the middle.
pub proof fn window_shows_first_occurrence(
    len: int,
    first: int,
    last: int,
    width: int,
    max_width: int,
    context: int,
)
    requires
        0 <= first <= last,
        first < len,
        0 < width,
        8 <= max_width,
        0 <= context,
    ensures
        window(len, first, last, width, max_width, context).0 <= first < window(
            len,
            first,
            last,
            width,
            max_width,
            context,
        ).1,
{
}

/// A line that is rendered as plain text takes no more than `max_width`
/// characters, or six where `max_width` is less, whatever the offsets.
pub proof fn plain_rendering_is_bounded(
    line: Seq<char>,
    width: nat,
    offsets: Seq<usize>,
    max_width: nat,
    context: nat,
)
    ensures
        rendered(line, width, offsets, max_width, context, false).len() <= if max_width >= 6 {
            max_width
        } else {
            6
        },
{
    if line.len() <= max_width {
        short_line_is_verbatim(line, width, offsets, max_width, context);
    } else if offsets.len() == 0 {
    } else {
        let (start, end) = window(
            line.len() as int,
            offsets.first() as int,
            offsets.last() as int,
            width as int,
            max_width as int,
            context as int,
        );
        lemma_window_width(
            line.len() as int,
            offsets.first() as int,
            offsets.last() as int,
            width as int,
            max_width as int,
            context as int,
        );
        let part = line.subrange(start, end);
        plain_highlighting_is_verbatim(part, width, rebased(offsets, start, end));
    }
}

/// A decimal numeral holds no escape character.
pub proof fn lemma_decimal_plain(n: nat)
    ensures
        plain(decimal(n)),
    decreases n,
{
    if n >= 10 {
        lemma_decimal_plain(n / 10);
    }
}

/// Stripping a decorated number, and what follows it, gives the numeral and
/// what follows it, stripped.
pub proof fn lemma_stripped_number(n: nat, rest: Seq<char>)
    ensures
        stripped(number(n, true) + rest) == number(n, false) + stripped(rest),
{
    let digits = decimal(n);
    lemma_decimal_plain(n);
    lemma_stripped_code('3', '9', rest);
    lemma_stripped_plain(digits, foreground_reset() + rest);
    lemma_stripped_code('3', '2', digits + (foreground_reset() + rest));
    assert(number(n, true) + rest =~= colour_code('3', '2') + (digits + (foreground_reset()
        + rest)));
}

/// Stripping a decorated range, and what follows it, gives the plain range
/// and what follows it, stripped.
pub proof fn lemma_stripped_span(offset: usize, width: nat, rest: Seq<char>)
    ensures
        stripped(span(offset, width, true) + rest) == span(offset, width, false) + stripped(rest),
{
    let first = (offset + 1) as nat;
    let last = (offset + width) as nat;
    let dash = seq!['-'];
    assert(plain(dash));
    lemma_stripped_number(last, rest);
    lemma_stripped_plain(dash, number(last, true) + rest);
    lemma_stripped_number(first, dash + (number(last, true) + rest));
    assert(span(offset, width, true) + rest =~= number(first, true) + (dash + (number(last, true)
        + rest)));
    assert(span(offset, width, false) + stripped(rest) =~= number(first, false) + (dash + (number(
        last,
        false,
    ) + stripped(rest))));
}

/// Stripping a decorated list of ranges, and what follows it, gives the
/// plain list and what follows it, stripped.
pub proof fn lemma_stripped_positions(offsets: Seq<usize>, width: nat, rest: Seq<char>)
    ensures
        stripped(positions(offsets, width, true) + rest) == positions(offsets, width, false)
            + stripped(rest),
    decreases offsets.len(),
{
    if offsets.len() == 0 {
        assert(positions(offsets, width, true) + rest == rest);
        assert(positions(offsets, width, false) + stripped(rest) == stripped(rest));
    } else if offsets.len() == 1 {
        lemma_stripped_span(offsets[0], width, rest);
    } else {
        let front = offsets.drop_last();
        let comma = seq![',', ' '];
        assert(plain(comma));
        lemma_stripped_span(offsets.last(), width, rest);
        lemma_stripped_plain(comma, span(offsets.last(), width, true) + rest);
        lemma_stripped_positions(front, width, comma + (span(offsets.last(), width, true) + rest));
        assert(positions(offsets, width, true) + rest =~= positions(front, width, true) + (comma
            + (span(offsets.last(), width, true) + rest)));
        assert(positions(offsets, width, false) + stripped(rest) =~= positions(front, width, false)
            + (comma + (span(offsets.last(), width, false) + stripped(rest))));
    }
}

/// Stripping a label, a coloured text behind it and what follows gives the
/// label, the text as it is without its own colour codes, and what follows,
/// stripped.
pub proof fn lemma_stripped_block(
    label: Seq<char>,
    tens: char,
    units: char,
    inner: Seq<char>,
    bare: Seq<char>,
    rest: Seq<char>,
)
    requires
        plain(label),
        is_digit(tens),
        is_digit(units),
        stripped(inner + (foreground_reset() + rest)) == bare + stripped(foreground_reset() + rest),
    ensures
        stripped(label + (colour_code(tens, units) + inner + foreground_reset()) + rest) == label
            + bare + stripped(rest),
{
    let after_inner = foreground_reset() + rest;
    let after_code = inner + after_inner;
    lemma_stripped_code('3', '9', rest);
    lemma_stripped_code(tens, units, after_code);
    lemma_stripped_plain(label, colour_code(tens, units) + after_code);
    assert(label + (colour_code(tens, units) + inner + foreground_reset()) + rest =~= label + (
    colour_code(tens, units) + after_code));
    assert(label + bare + stripped(rest) =~= label + (bare + stripped(rest)));
}

/// The decorated report line of a record whose line holds no colour code
/// itself, with its colour codes stripped, is the plain report line.
pub proof fn decorated_report_line_stripped_is_plain(
    record: MatchRecord,
    max_width: nat,
    context: nat,
)
    requires
        code_free(record.line),
    ensures
        stripped(report_line(record, max_width, context, true)) == report_line(
            record,
            max_width,
            context,
            false,
        ),
{
    let none = Seq::<char>::empty();
    let width = record.query.len();
    let head = "line number: "@;
    let middle = " position: ["@;
    let tail = "] line content: "@;
    let end = seq!['\n'];
    let reset = foreground_reset();
    let digits = decimal(record.line_index + 1);
    let ranges = positions(record.offsets, width, true);
    let bare_ranges = positions(record.offsets, width, false);
    let content = rendered(record.line, width, record.offsets, max_width, context, true);
    let bare_content = rendered(record.line, width, record.offsets, max_width, context, false);
    assert(plain(head) && plain(middle) && plain(tail)) by {
        reveal_strlit("line number: ");
        reveal_strlit(" position: [");
        reveal_strlit("] line content: ");
    }
    assert(stripped(end) == end) by {
        assert(plain(end));
        lemma_stripped_plain(end, none);
        assert(stripped(none) == none);
        assert(end + none == end);
    }
    let last = tail + (colour_code('3', '3') + content + reset) + end;
    assert(stripped(last) == tail + bare_content + end) by {
        assert((reset + end)[0] == escape());
        lemma_stripped_rendering(
            record.line,
            width,
            record.offsets,
            max_width,
            context,
            reset + end,
        );
        lemma_stripped_block(tail, '3', '3', content, bare_content, end);
    }
    let second = middle + (colour_code('3', '4') + ranges + reset) + last;
    assert(stripped(second) == middle + bare_ranges + stripped(last)) by {
        lemma_stripped_positions(record.offsets, width, reset + last);
        lemma_stripped_block(middle, '3', '4', ranges, bare_ranges, last);
    }
    let first = head + (colour_code('3', '2') + digits + reset) + second;
    assert(stripped(first) == head + digits + stripped(second)) by {
        lemma_decimal_plain(record.line_index + 1);
        lemma_stripped_plain(digits, reset + second);
        lemma_stripped_block(head, '3', '2', digits, digits, second);
    }
    assert(report_line(record, max_width, context, true) =~= first);
    assert(report_line(record, max_width, context, false) =~= head + digits + (middle
        + bare_ranges + (tail + bare_content + end)));
}

/// Whether none of the lines of the records holds a colour code.
pub open spec fn lines_without_codes(records: Seq<MatchRecord>) -> bool {
    forall|i: int| 0 <= i < records.len() ==> code_free(#[trigger] records[i].line)
}

/// Whether neither the names of the files nor the lines of their records
/// hold a colour code.
pub open spec fn files_without_codes(files: Seq<FileMatches>) -> bool {
    forall|i: int|
        0 <= i < files.len() ==> code_free((#[trigger] files[i]).name@) && lines_without_codes(
            views(files[i].matches@),
        )
}

/// Stripping what follows a decorated report line gives what follows the
/// plain one.
pub proof fn lemma_stripped_report_line(
    record: MatchRecord,
    max_width: nat,
    context: nat,
    rest: Seq<char>,
)
    requires
        code_free(record.line),
    ensures
        stripped(report_line(record, max_width, context, true) + rest) == report_line(
            record,
            max_width,
            context,
            false,
        ) + stripped(rest),
{
    let coloured = report_line(record, max_width, context, true);
    let bare = report_line(record, max_width, context, false);
    decorated_report_line_stripped_is_plain(record, max_width, context);
    lemma_stripped_concat(coloured, rest);
}

/// Where a text does not end inside a colour code, stripping it together
/// with what follows is stripping each alone. A text that ends with a line
/// feed does not end inside a colour code.
pub proof fn lemma_stripped_concat(text: Seq<char>, rest: Seq<char>)
    requires
        text.len() > 0,
        text.last() == '\n',
    ensures
        stripped(text + rest) == stripped(text) + stripped(rest),
    decreases text.len(),
{
    let whole = text + rest;
    if starts_with_code(text) {
        assert(text.len() > 5) by {
            assert(text[4] == 'm');
        }
        assert(starts_with_code(whole));
        assert(whole.skip(5) == text.skip(5) + rest);
        lemma_stripped_concat(text.skip(5), rest);
    } else {
        assert(!starts_with_code(whole)) by {
            if text.len() < 5 && starts_with_code(whole) {
                assert(whole[text.len() - 1] == '\n');
            }
        }
        assert(whole.skip(1) == text.skip(1) + rest);
        if text.len() == 1 {
            assert(text.skip(1) == Seq::<char>::empty());
            assert(text.skip(1) + rest == rest);
            assert(stripped(text.skip(1)) == Seq::<char>::empty());
            assert(stripped(text) == seq![text[0]] + Seq::<char>::empty());
        } else {
            lemma_stripped_concat(text.skip(1), rest);
            assert(seq![text[0]] + (stripped(text.skip(1)) + stripped(rest)) == (seq![text[0]]
                + stripped(text.skip(1))) + stripped(rest));
        }
    }
}

/// Stripping the decorated report lines of records gives their plain report
/// lines.
pub proof fn lemma_stripped_record_lines(
    records: Seq<MatchRecord>,
    count: nat,
    max_width: nat,
    context: nat,
    rest: Seq<char>,
)
    requires
        count <= records.len(),
        lines_without_codes(records),
    ensures
        stripped(record_lines(records, count, max_width, context, true) + rest) == record_lines(
            records,
            count,
            max_width,
            context,
            false,
        ) + stripped(rest),
    decreases count,
{
    if count == 0 {
        assert(record_lines(records, count, max_width, context, true) + rest == rest);
        assert(record_lines(records, count, max_width, context, false) + stripped(rest)
            == stripped(rest));
    } else {
        let before = (count - 1) as nat;
        let record = records[count - 1];
        let line = report_line(record, max_width, context, true);
        lemma_stripped_report_line(record, max_width, context, rest);
        lemma_stripped_record_lines(records, before, max_width, context, line + rest);
        assert(record_lines(records, count, max_width, context, true) + rest =~= record_lines(
            records,
            before,
            max_width,
            context,
            true,
        ) + (line + rest));
        assert(record_lines(records, count, max_width, context, false) + stripped(rest)
            =~= record_lines(records, before, max_width, context, false) + (report_line(
            record,
            max_width,
            context,
            false,
        ) + stripped(rest)));
    }
}

/// Stripping a file's part of a decorated report gives its part of the
/// plain report.
pub proof fn lemma_stripped_section(
    name: Seq<char>,
    records: Seq<MatchRecord>,
    max_width: nat,
    context: nat,
    rest: Seq<char>,
)
    requires
        code_free(name),
        lines_without_codes(records),
    ensures
        stripped(section(name, records, max_width, context, true) + rest) == section(
            name,
            records,
            max_width,
            context,
            false,
        ) + stripped(rest),
{
    if records.len() == 0 {
        assert(section(name, records, max_width, context, true) + rest == rest);
        assert(section(name, records, max_width, context, false) + stripped(rest) == stripped(
            rest,
        ));
    } else {
        let open = "Found the following matches in file '"@;
        let close = "': \n"@;
        reveal_strlit("Found the following matches in file '");
        reveal_strlit("': \n");
        assert(plain(open));
        assert(plain(close));
        let title = file_title(name);
        lemma_title_start(name);
        lemma_code_free_part(name, title_start(name), name.len() as int);
        let lines = record_lines(records, records.len(), max_width, context, true);
        let bare_lines = record_lines(records, records.len(), max_width, context, false);
        let t0 = lines + rest;
        lemma_stripped_record_lines(records, records.len(), max_width, context, rest);
        let t1 = close + t0;
        lemma_stripped_plain(close, t0);
        let t2 = foreground_reset() + t1;
        lemma_stripped_code('3', '9', t1);
        let t3 = title + t2;
        assert(t2[0] == escape());
        lemma_stripped_code_free(title, t2);
        let t4 = colour_code('3', '3') + t3;
        lemma_stripped_code('3', '3', t3);
        let t5 = open + t4;
        lemma_stripped_plain(open, t4);
        assert(section(name, records, max_width, context, true) + rest =~= t5);
        assert(section(name, records, max_width, context, false) + stripped(rest) =~= open + (title
            + (close + (bare_lines + stripped(rest)))));
    }
}

/// The title of a path begins inside the path.
pub proof fn lemma_title_start(path: Seq<char>)
    ensures
        0 <= title_start(path) <= path.len(),
    decreases path.len(),
{
    if path.len() > 0 && path.last() != '\\' {
        lemma_title_start(path.drop_last());
    }
}

/// The decorated report with its colour codes stripped is the plain report,
/// where neither the names of the files nor the lines of the records hold a
/// colour code themselves.
pub proof fn decorated_report_stripped_is_plain(
    files: Seq<FileMatches>,
    count: nat,
    max_width: nat,
    context: nat,
)
    requires
        count <= files.len(),
        files_without_codes(files),
    ensures
        stripped(report(files, count, max_width, context, true)) == report(
            files,
            count,
            max_width,
            context,
            false,
        ),
{
    let none = Seq::<char>::empty();
    lemma_stripped_report(files, count, max_width, context, none);
    assert(stripped(none) == none);
    assert(report(files, count, max_width, context, true) + none == report(
        files,
        count,
        max_width,
        context,
        true,
    ));
    assert(report(files, count, max_width, context, false) + none == report(
        files,
        count,
        max_width,
        context,
        false,
    ));
}

proof fn lemma_stripped_report(
    files: Seq<FileMatches>,
    count: nat,
    max_width: nat,
    context: nat,
    rest: Seq<char>,
)
    requires
        count <= files.len(),
        files_without_codes(files),
    ensures
        stripped(report(files, count, max_width, context, true) + rest) == report(
            files,
            count,
            max_width,
            context,
            false,
        ) + stripped(rest),
    decreases count,
{
    if count == 0 {
        assert(report(files, count, max_width, context, true) + rest == rest);
        assert(report(files, count, max_width, context, false) + stripped(rest) == stripped(rest));
    } else {
        let before = (count - 1) as nat;
        let file = files[count - 1];
        let part = section(file.name@, views(file.matches@), max_width, context, true);
        lemma_stripped_section(file.name@, views(file.matches@), max_width, context, rest);
        lemma_stripped_report(files, before, max_width, context, part + rest);
        assert(report(files, count, max_width, context, true) + rest =~= report(
            files,
            before,
            max_width,
            context,
            true,
        ) + (part + rest));
        assert(report(files, count, max_width, context, false) + stripped(rest) =~= report(
            files,
            before,
            max_width,
            context,
            false,
        ) + (section(file.name@, views(file.matches@), max_width, context, false) + stripped(
            rest,
        )));
    }
}

} // verus!
