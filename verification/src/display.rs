//! The record of one matched line, and the report line that shows it.

use crate::format::{rendered, LineFormatter};
use crate::paint::{blue, blue_text, green, green_text, yellow, yellow_text};
use crate::text::{decimal, push_decimal};
use vstd::prelude::*;

verus! {

/// What a record of a matched line holds.
pub ghost struct MatchRecord {
    /// The query as it was given.
    pub query: Seq<char>,
    /// The name of the file that holds the line.
    pub file_name: Seq<char>,
    /// The index of the line in its file, from zero.
    pub line_index: nat,
    /// The character offsets at which the query was found.
    pub offsets: Seq<usize>,
    /// The line as it stands in the file.
    pub line: Seq<char>,
    /// The text of the last occurrence.
    pub matched: Seq<char>,
}

/// A number as a report shows it: its decimal numeral, in green where the
/// report is decorated.
pub open spec fn number(n: nat, decorated: bool) -> Seq<char> {
    if decorated {
        green_text(decimal(n))
    } else {
        decimal(n)
    }
}

/// The range of an occurrence of `width` characters at `offset`, counted from
/// one, both ends included.
pub open spec fn span(offset: usize, width: nat, decorated: bool) -> Seq<char> {
    number((offset + 1) as nat, decorated) + seq!['-'] + number((offset + width) as nat, decorated)
}

/// The ranges of all occurrences, separated by a comma and a space.
pub open spec fn positions(offsets: Seq<usize>, width: nat, decorated: bool) -> Seq<char>
    decreases offsets.len(),
{
    if offsets.len() == 0 {
        Seq::empty()
    } else if offsets.len() == 1 {
        span(offsets[0], width, decorated)
    } else {
        positions(offsets.drop_last(), width, decorated) + seq![',', ' '] + span(
            offsets.last(),
            width,
            decorated,
        )
    }
}

/// The report line of a record: the number of the line, counted from one,
/// the ranges of the occurrences, and the line as it is rendered for
/// `max_width` columns. Where the report is decorated, numbers are green,
/// the list of ranges is blue and the rendered line is yellow.
pub open spec fn report_line(record: MatchRecord, max_width: nat, context: nat, decorated: bool) -> Seq<
    char,
> {
    let width = record.query.len();
    let ranges = positions(record.offsets, width, decorated);
    let content = rendered(record.line, width, record.offsets, max_width, context, decorated);
    "line number: "@ + number(record.line_index + 1, decorated) + " position: ["@ + (if decorated {
        blue_text(ranges)
    } else {
        ranges
    }) + "] line content: "@ + (if decorated {
        yellow_text(content)
    } else {
        content
    }) + seq!['\n']
}

/// One matched line: where it stands, where the query was found in it, and
/// its text.
pub struct DisPlay {
    query: String,
    file_name: String,
    line_index: usize,
    start_indexs: Vec<usize>,
    line_content: String,
    str: String,
}

impl View for DisPlay {
    type V = MatchRecord;

    closed spec fn view(&self) -> MatchRecord {
        MatchRecord {
            query: self.query@,
            file_name: self.file_name@,
            line_index: self.line_index as nat,
            offsets: self.start_indexs@,
            line: self.line_content@,
            matched: self.str@,
        }
    }
}

impl Clone for DisPlay {
    fn clone(&self) -> (out: Self)
        ensures
            out@ == self@,
    {
        DisPlay {
            query: self.query.clone(),
            file_name: self.file_name.clone(),
            line_index: self.line_index,
            start_indexs: self.start_indexs.clone(),
            line_content: self.line_content.clone(),
            str: self.str.clone(),
        }
    }
}

fn push_number(out: &mut String, n: u128, decorated: bool)
    ensures
        final(out)@ == old(out)@ + number(n as nat, decorated),
{
    if decorated {
        let mut plain = String::new();
        push_decimal(&mut plain, n);
        assert(plain@ == decimal(n as nat));
        let shown = green(plain.as_str());
        out.append(shown.as_str());
    } else {
        push_decimal(out, n);
    }
}

fn push_span(out: &mut String, offset: usize, width: usize, decorated: bool)
    ensures
        final(out)@ == old(out)@ + span(offset, width as nat, decorated),
{
    let first: u128 = offset as u128 + 1;
    let last: u128 = offset as u128 + width as u128;
    push_number(out, first, decorated);
    out.push('-');
    push_number(out, last, decorated);
    assert(out@ == old(out)@ + (number(first as nat, decorated) + seq!['-'] + number(
        last as nat,
        decorated,
    )));
}

fn position_list(offsets: &Vec<usize>, width: usize, decorated: bool) -> (out: String)
    ensures
        out@ == positions(offsets@, width as nat, decorated),
{
    let mut out = String::new();
    let mut i: usize = 0;
    while i < offsets.len()
        invariant
            i <= offsets@.len(),
            out@ == positions(offsets@.take(i as int), width as nat, decorated),
        decreases offsets@.len() - i,
    {
        let ghost before = out@;
        if i > 0 {
            out.push(',');
            out.push(' ');
        }
        push_span(&mut out, offsets[i], width, decorated);
        proof {
            let now = offsets@.take(i as int + 1);
            assert(now.drop_last() == offsets@.take(i as int));
            assert(now.last() == offsets@[i as int]);
            if i > 0 {
                assert(before.push(',').push(' ') == before + seq![',', ' ']);
            } else {
                assert(now[0] == offsets@[0]);
                assert(before + span(offsets@[0], width as nat, decorated) == span(
                    offsets@[0],
                    width as nat,
                    decorated,
                ));
            }
        }
        i += 1;
    }
    proof {
        assert(offsets@.take(offsets@.len() as int) == offsets@);
    }
    out
}

impl DisPlay {
    /// A record of the given parts.
    pub fn new(
        query: String,
        file_name: String,
        line_index: usize,
        start_indexs: Vec<usize>,
        line_content: String,
        str: String,
    ) -> (out: Self)
        ensures
            out@ == (MatchRecord {
                query: query@,
                file_name: file_name@,
                line_index: line_index as nat,
                offsets: start_indexs@,
                line: line_content@,
                matched: str@,
            }),
    {
        DisPlay { query, file_name, line_index, start_indexs, line_content, str }
    }

    /// The query as it was given.
    pub fn query(&self) -> (out: &String)
        ensures
            out@ == self@.query,
    {
        &self.query
    }

    /// The name of the file that holds the line.
    pub fn file_name(&self) -> (out: &String)
        ensures
            out@ == self@.file_name,
    {
        &self.file_name
    }

    /// The index of the line in its file, from zero.
    pub fn line_index(&self) -> (out: usize)
        ensures
            out == self@.line_index,
    {
        self.line_index
    }

    /// The character offsets at which the query was found.
    pub fn offsets(&self) -> (out: &Vec<usize>)
        ensures
            out@ == self@.offsets,
    {
        &self.start_indexs
    }

    /// The line as it stands in the file.
    pub fn line_content(&self) -> (out: &String)
        ensures
            out@ == self@.line,
    {
        &self.line_content
    }

    /// The text of the last occurrence.
    pub fn matched(&self) -> (out: &String)
        ensures
            out@ == self@.matched,
    {
        &self.str
    }

    fn line(&self, formatter: &LineFormatter, decorated: bool) -> (out: String)
        ensures
            out@ == report_line(self@, formatter.max_width(), formatter.context_chars(), decorated),
    {
        let width = self.query.as_str().unicode_len();
        let content = if decorated {
            let plain = formatter.format_long_line(
                self.line_content.as_str(),
                self.query.as_str(),
                self.start_indexs.as_slice(),
            );
            yellow(plain.as_str())
        } else {
            formatter.format_long_line_pure(
                self.line_content.as_str(),
                self.query.as_str(),
                self.start_indexs.as_slice(),
            )
        };
        let plain_ranges = position_list(&self.start_indexs, width, decorated);
        let ranges = if decorated {
            blue(plain_ranges.as_str())
        } else {
            plain_ranges
        };
        let mut out = String::new();
        out.append("line number: ");
        push_number(&mut out, self.line_index as u128 + 1, decorated);
        out.append(" position: [");
        out.append(ranges.as_str());
        out.append("] line content: ");
        out.append(content.as_str());
        out.push('\n');
        assert(out@ == report_line(
            self@,
            formatter.max_width(),
            formatter.context_chars(),
            decorated,
        ));
        out
    }

    /// The report line for a terminal of the formatter's width, in colour.
    pub fn display_with(&self, formatter: &LineFormatter) -> (out: String)
        ensures
            out@ == report_line(self@, formatter.max_width(), formatter.context_chars(), true),
    {
        self.line(formatter, true)
    }

    /// The report line for the formatter's width, as plain text.
    pub fn pure_display_with(&self, formatter: &LineFormatter) -> (out: String)
        ensures
            out@ == report_line(self@, formatter.max_width(), formatter.context_chars(), false),
    {
        self.line(formatter, false)
    }

    /// The report line for a terminal of 80 columns, in colour.
    pub fn display(&self) -> (out: String)
        ensures
            out@ == report_line(self@, 80, 20, true),
    {
        self.line(&LineFormatter::new(), true)
    }

    /// The report line for 80 columns, as plain text.
    pub fn pure_display(&self) -> (out: String)
        ensures
            out@ == report_line(self@, 80, 20, false),
    {
        self.line(&LineFormatter::new(), false)
    }
}

} // verus!
