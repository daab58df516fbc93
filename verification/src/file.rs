//! One file's text as a sequence of lines that is read from front to back.

use crate::text::{chars_of, string_of_range};
use vstd::prelude::*;

verus! {

/// A line without the carriage return that may end it.
pub open spec fn without_return(line: Seq<char>) -> Seq<char> {
    if line.len() > 0 && line.last() == '\r' {
        line.drop_last()
    } else {
        line
    }
}

/// The lines of `text` that a scan finds which stands at `pos` and whose
/// current line began at `start`. A line ends at a line feed, which is not
/// part of it, nor is a carriage return directly before that line feed. The
/// text behind the last line feed is a line as it stands, unless it is empty.
pub open spec fn lines_scan(text: Seq<char>, start: int, pos: int) -> Seq<Seq<char>>
    decreases text.len() - pos,
{
    if pos >= text.len() {
        if start < text.len() {
            seq![text.subrange(start, text.len() as int)]
        } else {
            Seq::empty()
        }
    } else if text[pos] == '\n' {
        seq![without_return(text.subrange(start, pos))] + lines_scan(text, pos + 1, pos + 1)
    } else {
        lines_scan(text, start, pos + 1)
    }
}

/// The lines of `text`.
pub open spec fn lines_of(text: Seq<char>) -> Seq<Seq<char>> {
    lines_scan(text, 0, 0)
}

/// The texts of a sequence of strings.
pub open spec fn texts(lines: Seq<String>) -> Seq<Seq<char>> {
    lines.map_values(|line: String| line@)
}

/// Splits `text` into its lines.
pub fn split_lines(text: &str) -> (out: Vec<String>)
    ensures
        texts(out@) == lines_of(text@),
{
    let chars = chars_of(text);
    let len = chars.len();
    let mut out: Vec<String> = Vec::new();
    let mut start: usize = 0;
    let mut pos: usize = 0;
    assert(texts(out@) + lines_scan(chars@, 0, 0) == lines_of(text@));
    while pos < len
        invariant
            start <= pos <= len == chars@.len(),
            chars@ == text@,
            texts(out@) + lines_scan(chars@, start as int, pos as int) == lines_of(text@),
        decreases len - pos,
    {
        if chars[pos] == '\n' {
            let mut end = pos;
            if end > start && chars[end - 1] == '\r' {
                end -= 1;
            }
            let line = string_of_range(&chars, start, end);
            let ghost before = out@;
            out.push(line);
            proof {
                let whole = chars@.subrange(start as int, pos as int);
                assert(line@ == without_return(whole)) by {
                    if whole.len() > 0 && whole.last() == '\r' {
                        assert(whole.drop_last() == chars@.subrange(start as int, pos as int - 1));
                    }
                }
                assert(texts(out@) == texts(before).push(line@));
                let rest = lines_scan(chars@, pos + 1, pos + 1);
                assert(texts(out@) + rest == texts(before) + (seq![line@] + rest));
            }
            start = pos + 1;
        }
        pos += 1;
    }
    if start < len {
        let line = string_of_range(&chars, start, len);
        let ghost before = out@;
        out.push(line);
        proof {
            assert(texts(out@) == texts(before).push(line@));
            assert(texts(before).push(line@) == texts(before) + seq![line@]);
        }
    } else {
        assert(texts(out@) + Seq::<Seq<char>>::empty() == texts(out@));
    }
    out
}

/// What a file holds.
pub enum Format {
    Text,
    Binary,
}

/// A file's text, split into lines once, with the position of the next line
/// to be read.
pub struct File {
    pub name: String,
    format: Format,
    raw_content: String,
    line_count: usize,
    line_content: Vec<String>,
    line_index: usize,
    line_offset: usize,
}

impl File {
    /// The lines of the file.
    pub closed spec fn lines(&self) -> Seq<Seq<char>> {
        texts(self.line_content@)
    }

    /// The index of the next line to be read.
    pub closed spec fn cursor(&self) -> nat {
        self.line_index as nat
    }

    /// The name of the file.
    pub closed spec fn file_name(&self) -> Seq<char> {
        self.name@
    }

    /// The text that the file was made from.
    pub closed spec fn content(&self) -> Seq<char> {
        self.raw_content@
    }

    #[verifier::type_invariant]
    spec fn wf(&self) -> bool {
        &&& self.line_count == self.line_content@.len()
        &&& self.line_index <= self.line_count
        &&& texts(self.line_content@) == lines_of(self.raw_content@)
    }

    /// A file of the given name and text, with no line read yet.
    pub fn new(name: String, format: Format, raw_content: String) -> (out: Self)
        ensures
            out.file_name() == name@,
            out.content() == raw_content@,
            out.lines() == lines_of(raw_content@),
            out.cursor() == 0,
    {
        let line_content = split_lines(raw_content.as_str());
        let line_count = line_content.len();
        File {
            name,
            format,
            raw_content,
            line_count,
            line_content,
            line_index: 0,
            line_offset: 0,
        }
    }

    /// The next line, if one is left; the cursor then moves behind it.
    pub fn next_line(&mut self) -> (out: Option<&String>)
        ensures
            final(self).file_name() == old(self).file_name(),
            final(self).content() == old(self).content(),
            final(self).lines() == old(self).lines(),
            old(self).cursor() <= old(self).lines().len(),
            old(self).cursor() < old(self).lines().len() ==> out.is_some() && out.unwrap()@
                == old(self).lines()[old(self).cursor() as int] && final(self).cursor() == old(
                self,
            ).cursor() + 1,
            old(self).cursor() >= old(self).lines().len() ==> out.is_none() && final(self).cursor()
                == old(self).cursor(),
    {
        proof {
            use_type_invariant(&*self);
        }
        if self.line_index < self.line_count {
            let line = &self.line_content[self.line_index];
            self.line_index += 1;
            Some(line)
        } else {
            None
        }
    }

    /// The name of the file.
    pub fn name(&self) -> (out: &String)
        ensures
            out@ == self.file_name(),
    {
        &self.name
    }

    /// The index of the next line to be read. It never passes the end of the
    /// lines.
    pub fn line_index(&self) -> (out: usize)
        ensures
            out == self.cursor(),
            self.cursor() <= self.lines().len() <= usize::MAX,
    {
        proof {
            use_type_invariant(self);
        }
        self.line_index
    }
}

} // verus!
