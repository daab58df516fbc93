//! Searching every file of a directory, and gathering the results in one
//! map from file name to records.

use crate::display::{DisPlay, MatchRecord};
use crate::file::File;
use crate::search::{
    distinct_names, file_records, find_content_in_file, records_of, search_text, views, Entry,
    FileInput, FileMatches, SearchError,
};
use dashmap::DashMap;
use vstd::prelude::*;
use vstd::std_specs::iter::IteratorSpec;

verus! {

/// The concurrent map of the `dashmap` crate. Nothing inside it is visible
/// here; what it holds is named by `entries_of`.
#[verifier::external_type_specification]
#[verifier::external_body]
#[verifier::reject_recursive_types(K)]
#[verifier::reject_recursive_types(V)]
#[verifier::reject_recursive_types(S)]
pub struct ExDashMap<K, V, S>(DashMap<K, V, S>);

/// What a map of results holds: for each file name in it, the records of
/// that file.
pub uninterp spec fn entries_of(results: DashMap<String, Vec<DisPlay>>) -> Map<
    Seq<char>,
    Seq<MatchRecord>,
>;

/// Results that hold no file.
pub open spec fn no_results() -> Map<Seq<char>, Seq<MatchRecord>> {
    Map::empty()
}

/// `DashMap::new`: a map that holds nothing. Not proved.
#[verifier::external_body]
fn empty_results() -> (out: DashMap<String, Vec<DisPlay>>)
    ensures
        entries_of(out) == no_results(),
{
    DashMap::new()
}

/// `DashMap::insert`: afterwards the map holds `list` under `name`, in place
/// of what it held under that name before, and everything else as before.
/// Not proved.
#[verifier::external_body]
fn insert_result(results: &mut DashMap<String, Vec<DisPlay>>, name: String, list: Vec<DisPlay>)
    ensures
        entries_of(*final(results)) == entries_of(*old(results)).insert(name@, views(list@)),
{
    results.insert(name, list);
}

/// What a file contributes to the results of a directory: its records,
/// unless it could not be read or holds the query nowhere. An empty query
/// is held nowhere.
pub open spec fn contribution(query: Seq<char>, file: FileInput, ignore_case: bool) -> Option<
    Seq<MatchRecord>,
> {
    match file.text {
        None => None,
        Some(text) => {
            let records = file_records(query, file.name@, text@, ignore_case);
            if query.len() > 0 && records.len() > 0 {
                Some(records)
            } else {
                None
            }
        },
    }
}

/// The results of the first `count` files: each file that contributes has
/// its records under its name; a later file of the same name takes the place
/// of an earlier one.
pub open spec fn directory_results(
    query: Seq<char>,
    files: Seq<FileInput>,
    count: nat,
    ignore_case: bool,
) -> Map<Seq<char>, Seq<MatchRecord>>
    decreases count,
{
    if count == 0 {
        Map::empty()
    } else {
        let before = directory_results(query, files, (count - 1) as nat, ignore_case);
        let file = files[count - 1];
        match contribution(query, file, ignore_case) {
            None => before,
            Some(records) => before.insert(file.name@, records),
        }
    }
}

/// What a list of outcomes holds: for each file that contributed, its name
/// and records.
pub open spec fn outcome_views(outcomes: Seq<Option<FileMatches>>) -> Seq<Option<Entry>> {
    outcomes.map_values(
        |outcome: Option<FileMatches>|
            match outcome {
                None => None,
                Some(file) => Some((file.name@, views(file.matches@))),
            },
    )
}

/// The outcome of one file: its name and records where it contributes.
pub open spec fn outcome_of(query: Seq<char>, file: FileInput, ignore_case: bool) -> Option<Entry> {
    match contribution(query, file, ignore_case) {
        None => None,
        Some(records) => Some((file.name@, records)),
    }
}

/// The outcomes of files, each searched by itself.
pub open spec fn outcomes_of(query: Seq<char>, files: Seq<FileInput>, ignore_case: bool) -> Seq<
    Option<Entry>,
> {
    files.map_values(|file: FileInput| outcome_of(query, file, ignore_case))
}

/// The first `count` outcomes gathered in one map: each file that
/// contributed has its records under its name; a later file of the same
/// name takes the place of an earlier one.
pub open spec fn gathered(outcomes: Seq<Option<Entry>>, count: nat) -> Map<
    Seq<char>,
    Seq<MatchRecord>,
>
    decreases count,
{
    if count == 0 {
        Map::empty()
    } else {
        let before = gathered(outcomes, (count - 1) as nat);
        match outcomes[count - 1] {
            None => before,
            Some(entry) => before.insert(entry.0, entry.1),
        }
    }
}

/// The results of a directory are the outcomes of its files, gathered.
pub proof fn results_are_gathered_outcomes(
    query: Seq<char>,
    files: Seq<FileInput>,
    count: nat,
    ignore_case: bool,
)
    requires
        count <= files.len(),
    ensures
        directory_results(query, files, count, ignore_case) == gathered(
            outcomes_of(query, files, ignore_case),
            count,
        ),
    decreases count,
{
    if count > 0 {
        results_are_gathered_outcomes(query, files, (count - 1) as nat, ignore_case);
    }
}

/// Searches the files of a directory for one query, gathers what was found
/// and counts the files that are done.
pub struct ParallelProcessor {
    query: String,
    total: usize,
    completed: usize,
}

impl ParallelProcessor {
    /// The query that is searched for.
    pub closed spec fn query(&self) -> Seq<char> {
        self.query@
    }

    /// How many files the last search was given.
    pub closed spec fn files_total(&self) -> nat {
        self.total as nat
    }

    /// How many of them are done.
    pub closed spec fn files_completed(&self) -> nat {
        self.completed as nat
    }

    /// A processor for `query`, with no file counted.
    pub fn new(query: String) -> (out: Self)
        ensures
            out.query() == query@,
            out.files_total() == 0,
            out.files_completed() == 0,
    {
        ParallelProcessor { query, total: 0, completed: 0 }
    }

    /// How many files the last search was given.
    pub fn total(&self) -> (out: usize)
        ensures
            out == self.files_total(),
    {
        self.total
    }

    /// How many of them are done.
    pub fn completed(&self) -> (out: usize)
        ensures
            out == self.files_completed(),
    {
        self.completed
    }

    /// Searches the lines of `file` that have not been read yet for the
    /// processor's query.
    pub fn process_single_file(&self, file: &mut File, ignore_case: bool) -> (out: Result<
        Vec<DisPlay>,
        SearchError,
    >)
        ensures
            final(file).file_name() == old(file).file_name(),
            final(file).content() == old(file).content(),
            final(file).lines() == old(file).lines(),
            self.query().len() == 0 ==> out is Err && final(file).cursor() == old(file).cursor(),
            self.query().len() > 0 ==> out is Ok && final(file).cursor() == old(file).lines().len()
                && views(out->Ok_0@) == records_of(
                self.query(),
                old(file).file_name(),
                old(file).lines().skip(old(file).cursor() as int),
                (old(file).lines().len() - old(file).cursor()) as nat,
                ignore_case,
            ),
    {
        find_content_in_file(&self.query, file, ignore_case)
    }

    /// The outcome of one file: its name and records, unless the file could
    /// not be read or holds the query nowhere. This is the work that can be
    /// done for many files at once.
    pub fn process_input(&self, input: &FileInput, ignore_case: bool) -> (out: Option<FileMatches>)
        ensures
            out is Some <==> outcome_of(self.query(), *input, ignore_case) is Some,
            out is Some ==> (out->Some_0.name@, views(out->Some_0.matches@)) == outcome_of(
                self.query(),
                *input,
                ignore_case,
            )->Some_0,
    {
        match &input.text {
            None => None,
            Some(text) => {
                match search_text(&self.query, &input.name, text, ignore_case) {
                    Ok(matches) => {
                        if matches.len() > 0 {
                            Some(FileMatches { name: input.name.clone(), matches })
                        } else {
                            None
                        }
                    },
                    Err(_) => None,
                }
            },
        }
    }

    /// Gathers the outcomes of the files of a directory in one map, and
    /// counts every file as completed, whatever became of it.
    pub fn gather(&mut self, outcomes: Vec<Option<FileMatches>>) -> (out: DashMap<
        String,
        Vec<DisPlay>,
    >)
        ensures
            final(self).query() == old(self).query(),
            final(self).files_total() == outcomes@.len(),
            final(self).files_completed() == outcomes@.len(),
            entries_of(out) == gathered(outcome_views(outcomes@), outcomes@.len()),
    {
        let mut results = empty_results();
        let ghost all = outcomes@;
        self.total = outcomes.len();
        self.completed = 0;
        for outcome in it: outcomes
            invariant
                it.seq() == all,
                all.len() <= usize::MAX,
                self.query() == old(self).query(),
                self.files_total() == all.len(),
                self.files_completed() == it.index(),
                entries_of(results) == gathered(outcome_views(all), it.index() as nat),
        {
            match outcome {
                Some(file) => {
                    insert_result(&mut results, file.name, file.matches);
                },
                None => {},
            }
            self.completed += 1;
        }
        results
    }

    /// Searches every file and gathers the records by file name. A file that
    /// could not be read, or that holds the query nowhere, has no entry.
    /// Every file counts as completed, whatever became of it. An empty query
    /// is refused, and nothing is counted then.
    pub fn process_directory(&mut self, files: &Vec<FileInput>, ignore_case: bool) -> (out: Result<
        DashMap<String, Vec<DisPlay>>,
        SearchError,
    >)
        ensures
            final(self).query() == old(self).query(),
            old(self).query().len() == 0 ==> out is Err && final(self).files_total() == old(
                self,
            ).files_total() && final(self).files_completed() == old(self).files_completed(),
            old(self).query().len() > 0 ==> out is Ok && final(self).files_total() == files@.len()
                && final(self).files_completed() == files@.len() && entries_of(out->Ok_0)
                == directory_results(old(self).query(), files@, files@.len(), ignore_case),
    {
        if self.query.as_str().unicode_len() == 0 {
            return Err(SearchError::EmptyQuery);
        }
        let mut outcomes: Vec<Option<FileMatches>> = Vec::new();
        let mut i: usize = 0;
        while i < files.len()
            invariant
                i <= files@.len(),
                self.query() == old(self).query(),
                outcomes@.len() == i,
                outcome_views(outcomes@) == outcomes_of(self.query(), files@, ignore_case).take(
                    i as int,
                ),
            decreases files@.len() - i,
        {
            let outcome = self.process_input(&files[i], ignore_case);
            outcomes.push(outcome);
            assert(outcome_views(outcomes@) =~= outcomes_of(
                self.query(),
                files@,
                ignore_case,
            ).take(i + 1));
            i += 1;
        }
        proof {
            let expected = outcomes_of(self.query(), files@, ignore_case);
            assert(expected.take(files@.len() as int) == expected);
            results_are_gathered_outcomes(self.query(), files@, files@.len(), ignore_case);
        }
        Ok(self.gather(outcomes))
    }
}

/// A name has an entry in the results only if one of the files has that
/// name and contributes.
pub proof fn results_come_from_files(
    query: Seq<char>,
    files: Seq<FileInput>,
    count: nat,
    ignore_case: bool,
    name: Seq<char>,
)
    requires
        count <= files.len(),
        directory_results(query, files, count, ignore_case).contains_key(name),
    ensures
        exists|i: int|
            0 <= i < count && (#[trigger] files[i]).name@ == name && contribution(
                query,
                files[i],
                ignore_case,
            ) is Some,
    decreases count,
{
    let last = files[count - 1];
    if last.name@ == name && contribution(query, last, ignore_case) is Some {
    } else {
        results_come_from_files(query, files, (count - 1) as nat, ignore_case, name);
    }
}

/// Where the files have distinct names, the results do not depend on the
/// order in which the files are done: each file that contributes has just
/// its own records under its name.
pub proof fn results_hold_each_file(
    query: Seq<char>,
    files: Seq<FileInput>,
    count: nat,
    ignore_case: bool,
    i: int,
)
    requires
        count <= files.len(),
        distinct_names(files, count),
        0 <= i < count,
        contribution(query, files[i], ignore_case) is Some,
    ensures
        directory_results(query, files, count, ignore_case).contains_key(files[i].name@),
        directory_results(query, files, count, ignore_case)[files[i].name@] == contribution(
            query,
            files[i],
            ignore_case,
        )->Some_0,
    decreases count,
{
    if i < count - 1 {
        results_hold_each_file(query, files, (count - 1) as nat, ignore_case, i);
    }
}

/// The results hold no more names than there are files.
pub proof fn results_are_no_more_than_files(
    query: Seq<char>,
    files: Seq<FileInput>,
    count: nat,
    ignore_case: bool,
)
    ensures
        directory_results(query, files, count, ignore_case).dom().finite(),
        directory_results(query, files, count, ignore_case).dom().len() <= count,
    decreases count,
{
    if count > 0 {
        results_are_no_more_than_files(query, files, (count - 1) as nat, ignore_case);
        let before = directory_results(query, files, (count - 1) as nat, ignore_case);
        let name = files[count - 1].name@;
        assert(before.insert(name, Seq::empty()).dom() == before.dom().insert(name));
        if contribution(query, files[count - 1], ignore_case) is Some {
            assert(directory_results(query, files, count, ignore_case).dom() == before.dom().insert(
                name,
            ));
        }
    }
}

} // verus!
