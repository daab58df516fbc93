//! Searching the lines of one file, or of several files one after another.

use crate::display::{DisPlay, MatchRecord};
use crate::file::{lines_of, File, Format};
use crate::locate::{
    folded, lemma_occurrences_from, locate, occurrences, occurs_at, spaced,
};
use crate::text::{chars_of, string_of_range};
use vstd::prelude::*;

verus! {

/// Why a search was not made.
#[derive(Debug)]
pub enum SearchError {
    /// The query is empty.
    EmptyQuery,
}

/// The text of `width` characters that stands in `line` at the last of the
/// offsets, cut at the end of the line; empty where there is no offset.
pub open spec fn matched_text(line: Seq<char>, width: nat, offsets: Seq<usize>) -> Seq<char> {
    if offsets.len() == 0 {
        Seq::empty()
    } else {
        let len = line.len() as int;
        let start = if offsets.last() < len {
            offsets.last() as int
        } else {
            len
        };
        let end = if start + width < len {
            start + width
        } else {
            len
        };
        line.subrange(start, end)
    }
}

/// The record of a line: the occurrences of the query in it, and the text
/// of the last one as the line holds it.
pub open spec fn line_record(
    query: Seq<char>,
    file_name: Seq<char>,
    line_index: nat,
    line: Seq<char>,
    ignore_case: bool,
) -> MatchRecord {
    let offsets = occurrences(folded(line, ignore_case), folded(query, ignore_case));
    MatchRecord {
        query,
        file_name,
        line_index,
        offsets,
        line,
        matched: matched_text(line, query.len(), offsets),
    }
}

/// The records of the first `count` of the lines: one for each line that
/// holds the query, in the order of the lines, each with the index of its
/// line among them.
pub open spec fn records_of(
    query: Seq<char>,
    file_name: Seq<char>,
    lines: Seq<Seq<char>>,
    count: nat,
    ignore_case: bool,
) -> Seq<MatchRecord>
    decreases count,
{
    if count == 0 {
        Seq::empty()
    } else {
        let index = (count - 1) as nat;
        let before = records_of(query, file_name, lines, index, ignore_case);
        let record = line_record(query, file_name, index, lines[index as int], ignore_case);
        if record.offsets.len() > 0 {
            before.push(record)
        } else {
            before
        }
    }
}

/// What the records of a list hold.
pub open spec fn views(list: Seq<DisPlay>) -> Seq<MatchRecord> {
    list.map_values(|record: DisPlay| record@)
}

fn last_match(line: &str, width: usize, offsets: &Vec<usize>) -> (out: String)
    ensures
        out@ == matched_text(line@, width as nat, offsets@),
{
    if offsets.len() == 0 {
        return String::new();
    }
    let chars = chars_of(line);
    let len = chars.len();
    let last = offsets[offsets.len() - 1];
    let start = if last < len {
        last
    } else {
        len
    };
    let end = if width < len - start {
        start + width
    } else {
        len
    };
    string_of_range(&chars, start, end)
}

/// Searches the lines of `file` that have not been read yet. Returns one
/// record for each line that holds the query, with line indices counted from
/// the first line read. The offsets of a record never overlap: each lies at
/// least the length of the text scanned for behind the one before. An empty
/// query is refused, and the file is then left as it is.
pub fn find_content_in_file(query: &String, file: &mut File, ignore_case: bool) -> (out: Result<
    Vec<DisPlay>,
    SearchError,
>)
    ensures
        final(file).file_name() == old(file).file_name(),
        final(file).content() == old(file).content(),
        final(file).lines() == old(file).lines(),
        query@.len() == 0 ==> out is Err && final(file).cursor() == old(file).cursor(),
        query@.len() > 0 ==> out is Ok && final(file).cursor() == old(file).lines().len() && views(
            out->Ok_0@,
        ) == records_of(
            query@,
            old(file).file_name(),
            old(file).lines().skip(old(file).cursor() as int),
            (old(file).lines().len() - old(file).cursor()) as nat,
            ignore_case,
        ),
        out is Ok ==> forall|k: int|
            0 <= k < out->Ok_0@.len() ==> spaced(
                (#[trigger] out->Ok_0@[k])@.offsets,
                folded(query@, ignore_case).len(),
            ),
{
    if query.as_str().unicode_len() == 0 {
        return Err(SearchError::EmptyQuery);
    }
    let width = query.as_str().unicode_len();
    let file_name = file.name().clone();
    let mut list: Vec<DisPlay> = Vec::new();
    let mut line_index: usize = 0;
    let begin = file.line_index();
    let ghost first = begin as nat;
    let ghost lines = file.lines().skip(first as int);
    let ghost name = file.file_name();
    loop
        invariant
            file.file_name() == old(file).file_name(),
            file.content() == old(file).content(),
            file.lines() == old(file).lines(),
            first == old(file).cursor(),
            lines == old(file).lines().skip(first as int),
            name == old(file).file_name(),
            file_name@ == name,
            width == query@.len(),
            first + line_index == file.cursor(),
            file.cursor() <= file.lines().len() <= usize::MAX,
            views(list@) == records_of(query@, name, lines, line_index as nat, ignore_case),
            forall|k: int|
                0 <= k < list@.len() ==> spaced(
                    (#[trigger] list@[k])@.offsets,
                    folded(query@, ignore_case).len(),
                ),
        ensures
            file.cursor() == file.lines().len(),
        decreases file.lines().len() - file.cursor(),
    {
        match file.next_line() {
            None => {
                break ;
            },
            Some(line) => {
                assert(line@ == lines[line_index as int]);
                let offsets = locate(line.as_str(), query.as_str(), ignore_case);
                if offsets.len() > 0 {
                    let matched = last_match(line.as_str(), width, &offsets);
                    let ghost before = list@;
                    let record = DisPlay::new(
                        query.clone(),
                        file_name.clone(),
                        line_index,
                        offsets,
                        line.clone(),
                        matched,
                    );
                    list.push(record);
                    assert(views(list@) == views(before).push(record@));
                }
                line_index += 1;
            },
        }
    }
    Ok(list)
}

/// A file as it is handed to a search: its name, and its text where the
/// file could be read.
pub struct FileInput {
    pub name: String,
    pub text: Option<String>,
}

/// The records that a search found in one file.
pub struct FileMatches {
    pub name: String,
    pub matches: Vec<DisPlay>,
}

/// The records of a whole file of the given text.
pub open spec fn file_records(
    query: Seq<char>,
    name: Seq<char>,
    text: Seq<char>,
    ignore_case: bool,
) -> Seq<MatchRecord> {
    records_of(query, name, lines_of(text), lines_of(text).len(), ignore_case)
}

/// A result as contracts speak of it: a file's name and its records.
pub type Entry = (Seq<char>, Seq<MatchRecord>);

/// What a list of results holds.
pub open spec fn entries(list: Seq<FileMatches>) -> Seq<Entry> {
    list.map_values(|file: FileMatches| (file.name@, views(file.matches@)))
}

/// The index of the first of the first `count` entries that has this name,
/// or `count` where none has.
pub open spec fn position(list: Seq<Entry>, count: nat, name: Seq<char>) -> nat
    decreases count,
{
    if count == 0 {
        0
    } else {
        let before = position(list, (count - 1) as nat, name);
        if before < count - 1 {
            before
        } else if list[count - 1].0 == name {
            (count - 1) as nat
        } else {
            count
        }
    }
}

/// The list with `records` under `name`: in the place of the entry of that
/// name where there is one, at the end where there is none.
pub open spec fn put(list: Seq<Entry>, name: Seq<char>, records: Seq<MatchRecord>) -> Seq<Entry> {
    let at = position(list, list.len(), name);
    if at < list.len() {
        list.update(at as int, (name, records))
    } else {
        list.push((name, records))
    }
}

/// The results of searching the first `count` files one after another:
/// every file that could be read has an entry, also where it holds the
/// query nowhere; a file that could not be read has none.
pub open spec fn listed_results(
    query: Seq<char>,
    files: Seq<FileInput>,
    count: nat,
    ignore_case: bool,
) -> Seq<Entry>
    decreases count,
{
    if count == 0 {
        Seq::empty()
    } else {
        let before = listed_results(query, files, (count - 1) as nat, ignore_case);
        let file = files[count - 1];
        match file.text {
            None => before,
            Some(text) => put(before, file.name@, file_records(query, file.name@, text@, ignore_case)),
        }
    }
}

fn find_entry(list: &Vec<FileMatches>, name: &String) -> (out: usize)
    ensures
        out == position(entries(list@), list@.len(), name@),
        out <= list@.len(),
{
    let mut i: usize = 0;
    while i < list.len()
        invariant
            i <= list@.len(),
            position(entries(list@), i as nat, name@) == i,
        decreases list@.len() - i,
    {
        assert(entries(list@)[i as int].0 == list@[i as int].name@);
        if list[i].name == *name {
            proof {
                lemma_position_stays(entries(list@), i as nat + 1, list@.len(), name@);
            }
            return i;
        }
        i += 1;
    }
    i
}

/// Once an entry of the name is found among the first entries, it is the
/// one found among more of them.
proof fn lemma_position_stays(list: Seq<Entry>, count: nat, more: nat, name: Seq<char>)
    requires
        count <= more,
        position(list, count, name) < count,
    ensures
        position(list, more, name) == position(list, count, name),
    decreases more - count,
{
    if count < more {
        lemma_position_stays(list, count, (more - 1) as nat, name);
    }
}

/// Searches the whole text of one file.
pub fn search_text(query: &String, name: &String, text: &String, ignore_case: bool) -> (out:
    Result<Vec<DisPlay>, SearchError>)
    ensures
        query@.len() == 0 ==> out is Err,
        query@.len() > 0 ==> out is Ok && views(out->Ok_0@) == file_records(
            query@,
            name@,
            text@,
            ignore_case,
        ),
{
    let mut file = File::new(name.clone(), Format::Text, text.clone());
    assert(file.lines().skip(0) == file.lines());
    find_content_in_file(query, &mut file, ignore_case)
}

/// Searches the files one after another. Every file that could be read has
/// an entry in the result, also where it holds the query nowhere; a file
/// that could not be read is passed over. An empty query is refused.
pub fn scan_files(query: &String, files: &Vec<FileInput>, ignore_case: bool) -> (out: Result<
    Vec<FileMatches>,
    SearchError,
>)
    ensures
        query@.len() == 0 ==> out is Err,
        query@.len() > 0 ==> out is Ok && entries(out->Ok_0@) == listed_results(
            query@,
            files@,
            files@.len(),
            ignore_case,
        ),
{
    if query.as_str().unicode_len() == 0 {
        return Err(SearchError::EmptyQuery);
    }
    let mut list: Vec<FileMatches> = Vec::new();
    let mut i: usize = 0;
    assert(entries(list@) == Seq::<Entry>::empty());
    while i < files.len()
        invariant
            i <= files@.len(),
            query@.len() > 0,
            entries(list@) == listed_results(query@, files@, i as nat, ignore_case),
        decreases files@.len() - i,
    {
        let file = &files[i];
        match &file.text {
            None => {},
            Some(text) => {
                match search_text(query, &file.name, text, ignore_case) {
                    Ok(matches) => {
                        let ghost before = list@;
                        let at = find_entry(&list, &file.name);
                        let entry = FileMatches { name: file.name.clone(), matches };
                        if at < list.len() {
                            list.set(at, entry);
                            assert(entries(list@) == entries(before).update(
                                at as int,
                                (entry.name@, views(entry.matches@)),
                            ));
                        } else {
                            list.push(entry);
                            assert(entries(list@) == entries(before).push(
                                (entry.name@, views(entry.matches@)),
                            ));
                        }
                    },
                    Err(_) => {},
                }
            },
        }
        i += 1;
    }
    Ok(list)
}

/// Whether no two of the first `count` files have the same name.
pub open spec fn distinct_names(files: Seq<FileInput>, count: nat) -> bool {
    forall|i: int, j: int| 0 <= i < j < count ==> files[i].name@ != files[j].name@
}

/// Whether no two entries have the same name.
pub open spec fn distinct_entries(list: Seq<Entry>) -> bool {
    forall|i: int, j: int| 0 <= i < j < list.len() ==> list[i].0 != list[j].0
}

/// What `position` finds: an entry of the name, with none of that name
/// before it; or, where it finds nothing, that none of the entries has the
/// name.
pub proof fn lemma_position(list: Seq<Entry>, count: nat, name: Seq<char>)
    requires
        count <= list.len(),
    ensures
        position(list, count, name) <= count,
        position(list, count, name) < count ==> list[position(list, count, name) as int].0 == name,
        forall|k: int| 0 <= k < position(list, count, name) ==> list[k].0 != name,
    decreases count,
{
    if count > 0 {
        lemma_position(list, (count - 1) as nat, name);
    }
}

/// Every file has at most one entry in the results of a search of files.
pub proof fn listed_names_are_distinct(
    query: Seq<char>,
    files: Seq<FileInput>,
    count: nat,
    ignore_case: bool,
)
    ensures
        distinct_entries(listed_results(query, files, count, ignore_case)),
    decreases count,
{
    if count > 0 {
        let before = listed_results(query, files, (count - 1) as nat, ignore_case);
        listed_names_are_distinct(query, files, (count - 1) as nat, ignore_case);
        lemma_position(before, before.len(), files[count - 1].name@);
    }
}

/// The names in the results of a search of files are names of files that
/// could be read.
pub proof fn listed_names_are_files(
    query: Seq<char>,
    files: Seq<FileInput>,
    count: nat,
    ignore_case: bool,
    k: int,
)
    requires
        count <= files.len(),
        0 <= k < listed_results(query, files, count, ignore_case).len(),
    ensures
        exists|i: int|
            0 <= i < count && (#[trigger] files[i]).text is Some && files[i].name@
                == listed_results(query, files, count, ignore_case)[k].0,
    decreases count,
{
    if count > 0 {
        let before = listed_results(query, files, (count - 1) as nat, ignore_case);
        let last = files[count - 1];
        lemma_position(before, before.len(), last.name@);
        let now = listed_results(query, files, count, ignore_case);
        if last.text is Some && now[k].0 == last.name@ {
        } else {
            assert(k < before.len() && before[k] == now[k]);
            listed_names_are_files(query, files, (count - 1) as nat, ignore_case, k);
        }
    }
}

/// Where the files have distinct names, each file that could be read has an
/// entry with just its own records, whether it holds the query or not.
pub proof fn listing_holds_each_file(
    query: Seq<char>,
    files: Seq<FileInput>,
    count: nat,
    ignore_case: bool,
    i: int,
)
    requires
        count <= files.len(),
        distinct_names(files, count),
        0 <= i < count,
        files[i].text is Some,
    ensures
        listed_results(query, files, count, ignore_case).contains(
            (
                files[i].name@,
                file_records(query, files[i].name@, files[i].text->Some_0@, ignore_case),
            ),
        ),
    decreases count,
{
    let before = listed_results(query, files, (count - 1) as nat, ignore_case);
    let now = listed_results(query, files, count, ignore_case);
    let last = files[count - 1];
    let wanted = (
        files[i].name@,
        file_records(query, files[i].name@, files[i].text->Some_0@, ignore_case),
    );
    lemma_position(before, before.len(), last.name@);
    let at = position(before, before.len(), last.name@);
    if i < count - 1 {
        listing_holds_each_file(query, files, (count - 1) as nat, ignore_case, i);
        let k = choose|k: int| 0 <= k < before.len() && before[k] == wanted;
        if last.text is Some {
            assert(last.name@ != files[i].name@);
            assert(k != at);
            assert(now[k] == wanted);
        } else {
            assert(now[k] == wanted);
        }
    } else {
        if at < before.len() {
            assert(now[at as int] == wanted);
        } else {
            assert(now[now.len() - 1] == wanted);
        }
    }
}

/// What holds of each record of a search: it names the query and the file,
/// its line is the line of its index, its offsets are the occurrences of
/// the query in that line, and there is at least one.
pub proof fn records_are_sound(
    query: Seq<char>,
    file_name: Seq<char>,
    lines: Seq<Seq<char>>,
    count: nat,
    ignore_case: bool,
    k: int,
)
    requires
        0 <= k < records_of(query, file_name, lines, count, ignore_case).len(),
    ensures
        ({
            let record = records_of(query, file_name, lines, count, ignore_case)[k];
            &&& record.line_index < count
            &&& record == line_record(
                query,
                file_name,
                record.line_index,
                lines[record.line_index as int],
                ignore_case,
            )
            &&& record.offsets.len() > 0
        }),
    decreases count,
{
    if count > 0 {
        let before = records_of(query, file_name, lines, (count - 1) as nat, ignore_case);
        if k < before.len() {
            records_are_sound(query, file_name, lines, (count - 1) as nat, ignore_case, k);
        }
    }
}

/// The records of a search stand in the order of their lines: a later
/// record is of a later line.
pub proof fn records_follow_the_lines(
    query: Seq<char>,
    file_name: Seq<char>,
    lines: Seq<Seq<char>>,
    count: nat,
    ignore_case: bool,
    j: int,
    k: int,
)
    requires
        0 <= j < k < records_of(query, file_name, lines, count, ignore_case).len(),
    ensures
        records_of(query, file_name, lines, count, ignore_case)[j].line_index < records_of(
            query,
            file_name,
            lines,
            count,
            ignore_case,
        )[k].line_index,
    decreases count,
{
    if count > 0 {
        let before = records_of(query, file_name, lines, (count - 1) as nat, ignore_case);
        if k < before.len() {
            records_follow_the_lines(
                query,
                file_name,
                lines,
                (count - 1) as nat,
                ignore_case,
                j,
                k,
            );
        } else {
            records_are_sound(query, file_name, lines, (count - 1) as nat, ignore_case, j);
        }
    }
}

/// Where case matters, every offset of a record leaves room for the query
/// before the end of the line, the text there is the query, and the text
/// recorded as matched is the query too.
pub proof fn offsets_lie_in_the_line(
    query: Seq<char>,
    file_name: Seq<char>,
    line_index: nat,
    line: Seq<char>,
)
    requires
        line.len() <= usize::MAX,
    ensures
        ({
            let record = line_record(query, file_name, line_index, line, false);
            &&& spaced(record.offsets, query.len())
            &&& forall|i: int|
                0 <= i < record.offsets.len() ==> occurs_at(
                    line,
                    query,
                    #[trigger] record.offsets[i] as int,
                )
            &&& record.offsets.len() > 0 ==> record.matched == query
        }),
{
    lemma_occurrences_from(line, query, 0);
    let record = line_record(query, file_name, line_index, line, false);
    if record.offsets.len() > 0 {
        let last = record.offsets[record.offsets.len() - 1];
        assert(occurs_at(line, query, last as int));
    }
}

/// The offsets of a record never overlap: each lies at least the length of
/// the query behind the one before, whether case is ignored or not, as long
/// as the text that is scanned for is no shorter than the query. Where case
/// is kept it is the query itself.
pub proof fn record_offsets_do_not_overlap(
    query: Seq<char>,
    file_name: Seq<char>,
    line_index: nat,
    line: Seq<char>,
    ignore_case: bool,
)
    requires
        folded(line, ignore_case).len() <= usize::MAX,
        query.len() <= folded(query, ignore_case).len(),
    ensures
        spaced(line_record(query, file_name, line_index, line, ignore_case).offsets, query.len()),
{
    lemma_occurrences_from(folded(line, ignore_case), folded(query, ignore_case), 0);
    let offsets = line_record(query, file_name, line_index, line, ignore_case).offsets;
    assert forall|i: int| 0 <= i < offsets.len() - 1 implies offsets[i] + query.len()
        <= #[trigger] offsets[i + 1] by {
        assert(offsets[i] + folded(query, ignore_case).len() <= offsets[i + 1]);
    }
}

} // verus!
