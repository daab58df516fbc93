//! The report of a search: for each file with matches, a heading and one
//! line for each record.

use crate::display::{report_line, MatchRecord};
use crate::format::LineFormatter;
use crate::paint::{yellow, yellow_text};
use crate::search::{views, FileMatches};
use crate::text::{chars_of, string_of_range};
use vstd::prelude::*;

verus! {

/// Where the last component of a path begins: behind its last backslash, or
/// at the front where it has none.
pub open spec fn title_start(path: Seq<char>) -> int
    decreases path.len(),
{
    if path.len() == 0 {
        0
    } else if path.last() == '\\' {
        path.len() as int
    } else {
        title_start(path.drop_last())
    }
}

/// The last component of a path.
pub open spec fn file_title(path: Seq<char>) -> Seq<char> {
    path.subrange(title_start(path), path.len() as int)
}

/// The report lines of the first `count` records, one after another.
pub open spec fn record_lines(
    records: Seq<MatchRecord>,
    count: nat,
    max_width: nat,
    context: nat,
    decorated: bool,
) -> Seq<char>
    decreases count,
{
    if count == 0 {
        Seq::empty()
    } else {
        record_lines(records, (count - 1) as nat, max_width, context, decorated) + report_line(
            records[count - 1],
            max_width,
            context,
            decorated,
        )
    }
}

/// The heading of a file's part of the report; the file's title is yellow
/// where the report is decorated.
pub open spec fn heading(name: Seq<char>, decorated: bool) -> Seq<char> {
    "Found the following matches in file '"@ + (if decorated {
        yellow_text(file_title(name))
    } else {
        file_title(name)
    }) + "': \n"@
}

/// A file's part of the report: nothing for a file without records, else
/// the heading and the report lines.
pub open spec fn section(
    name: Seq<char>,
    records: Seq<MatchRecord>,
    max_width: nat,
    context: nat,
    decorated: bool,
) -> Seq<char> {
    if records.len() == 0 {
        Seq::empty()
    } else {
        heading(name, decorated) + record_lines(
            records,
            records.len(),
            max_width,
            context,
            decorated,
        )
    }
}

/// The parts of the first `count` files, one after another.
pub open spec fn report(
    files: Seq<FileMatches>,
    count: nat,
    max_width: nat,
    context: nat,
    decorated: bool,
) -> Seq<char>
    decreases count,
{
    if count == 0 {
        Seq::empty()
    } else {
        report(files, (count - 1) as nat, max_width, context, decorated) + section(
            files[count - 1].name@,
            views(files[count - 1].matches@),
            max_width,
            context,
            decorated,
        )
    }
}

fn title_of(path: &str) -> (out: String)
    ensures
        out@ == file_title(path@),
{
    let chars = chars_of(path);
    let len = chars.len();
    let mut start: usize = 0;
    let mut pos: usize = 0;
    assert(chars@.take(0).len() == 0);
    while pos < len
        invariant
            start <= pos <= len == chars@.len(),
            start == title_start(chars@.take(pos as int)),
        decreases len - pos,
    {
        proof {
            let now = chars@.take(pos + 1);
            assert(now.drop_last() == chars@.take(pos as int));
            assert(now.last() == chars@[pos as int]);
        }
        if chars[pos] == '\\' {
            start = pos + 1;
        }
        pos += 1;
    }
    assert(chars@.take(len as int) == chars@);
    string_of_range(&chars, start, len)
}

fn push_section(out: &mut String, file: &FileMatches, formatter: &LineFormatter, decorated: bool)
    ensures
        final(out)@ == old(out)@ + section(
            file.name@,
            views(file.matches@),
            formatter.max_width(),
            formatter.context_chars(),
            decorated,
        ),
{
    let count = file.matches.len();
    if count == 0 {
        assert(out@ + Seq::<char>::empty() == out@);
        return ;
    }
    let ghost records = views(file.matches@);
    let ghost start = out@;
    let title = title_of(file.name.as_str());
    out.append("Found the following matches in file '");
    if decorated {
        let shown = yellow(title.as_str());
        out.append(shown.as_str());
    } else {
        out.append(title.as_str());
    }
    out.append("': \n");
    assert(out@ == start + heading(file.name@, decorated));
    let mut i: usize = 0;
    while i < count
        invariant
            i <= count == file.matches@.len(),
            records == views(file.matches@),
            out@ == start + heading(file.name@, decorated) + record_lines(
                records,
                i as nat,
                formatter.max_width(),
                formatter.context_chars(),
                decorated,
            ),
        decreases count - i,
    {
        let ghost before = out@;
        let line = if decorated {
            file.matches[i].display_with(formatter)
        } else {
            file.matches[i].pure_display_with(formatter)
        };
        assert(records[i as int] == file.matches@[i as int]@);
        out.append(line.as_str());
        assert(out@ == start + heading(file.name@, decorated) + (record_lines(
            records,
            i as nat,
            formatter.max_width(),
            formatter.context_chars(),
            decorated,
        ) + line@));
        i += 1;
    }
    assert(out@ == start + (heading(file.name@, decorated) + record_lines(
        records,
        count as nat,
        formatter.max_width(),
        formatter.context_chars(),
        decorated,
    )));
}

/// The report of the given files for the formatter's width: plain where
/// `pure_text_output` is set, in colour where it is not.
pub fn get_output_with(
    display_map: &Vec<FileMatches>,
    pure_text_output: bool,
    formatter: &LineFormatter,
) -> (out: String)
    ensures
        out@ == report(
            display_map@,
            display_map@.len(),
            formatter.max_width(),
            formatter.context_chars(),
            !pure_text_output,
        ),
{
    let mut out = String::new();
    let mut i: usize = 0;
    while i < display_map.len()
        invariant
            i <= display_map@.len(),
            out@ == report(
                display_map@,
                i as nat,
                formatter.max_width(),
                formatter.context_chars(),
                !pure_text_output,
            ),
        decreases display_map@.len() - i,
    {
        push_section(&mut out, &display_map[i], formatter, !pure_text_output);
        i += 1;
    }
    out
}

/// The report of the given files for 80 columns: plain where
/// `pure_text_output` is set, in colour where it is not.
pub fn get_output(display_map: &Vec<FileMatches>, pure_text_output: bool) -> (out: String)
    ensures
        out@ == report(display_map@, display_map@.len(), 80, 20, !pure_text_output),
{
    get_output_with(display_map, pure_text_output, &LineFormatter::new())
}

} // verus!
