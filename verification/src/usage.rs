//! What is decided before a search begins: whether the request is in order,
//! and which of the paths that were given are searched.

use crate::file::texts;
use vstd::prelude::*;

verus! {

/// What was found out about a path that was given.
#[derive(Debug, PartialEq, Eq)]
pub enum PathProbe {
    /// Nothing exists at the path.
    Missing,
    /// Something exists there, but not of the kind that is asked for.
    WrongKind,
    /// The path could not be resolved; the text says why.
    Unresolvable(String),
    /// The path in its resolved form.
    Resolved(String),
}

/// A path as it was given, with what was found out about it.
#[derive(Debug, PartialEq, Eq)]
pub struct Candidate {
    pub given: String,
    pub probe: PathProbe,
}

/// How the files to search are named.
#[derive(Debug, Clone, Copy, PartialEq, Eq)]
pub enum SearchMode {
    /// One by one.
    Files,
    /// By the directory that holds them.
    Directory,
}

/// Why a request is not carried out.
#[derive(Debug, PartialEq, Eq)]
pub enum UsageError {
    /// The query is empty.
    EmptyQuery,
    /// Both files and a directory were given.
    FilesAndDirectory,
    /// Neither a file nor a directory was given.
    NothingToSearch,
    /// More than one directory was given.
    SeveralDirectories,
    /// The directory for the report does not exist.
    OutputDirectoryMissing,
    /// None of the files that were given can be searched.
    NoValidFiles,
    /// The directory to search does not exist.
    DirectoryMissing(String),
    /// The path to search is not a directory.
    NotADirectory(String),
    /// The directory to search could not be resolved; the second text says
    /// why.
    DirectoryUnresolvable(String, String),
}

/// The verdict on a request. The checks are made in this order: the query,
/// then what is to be searched, then the directory for the report, then the
/// number of directories.
pub open spec fn verdict(query: Seq<char>, files: nat, directories: nat, output_missing: bool) -> Result<
    SearchMode,
    UsageError,
> {
    if query.len() == 0 {
        Err(UsageError::EmptyQuery)
    } else if files > 0 && directories > 0 {
        Err(UsageError::FilesAndDirectory)
    } else if files == 0 && directories == 0 {
        Err(UsageError::NothingToSearch)
    } else if output_missing {
        Err(UsageError::OutputDirectoryMissing)
    } else if files > 0 {
        Ok(SearchMode::Files)
    } else if directories > 1 {
        Err(UsageError::SeveralDirectories)
    } else {
        Ok(SearchMode::Directory)
    }
}

/// Decides whether a request is carried out, and how: `files` and
/// `directories` count the paths given of each kind, and `output_missing`
/// says that a directory for the report was named and does not exist.
pub fn check_request(query: &str, files: usize, directories: usize, output_missing: bool) -> (out:
    Result<SearchMode, UsageError>)
    ensures
        out == verdict(query@, files as nat, directories as nat, output_missing),
{
    if query.unicode_len() == 0 {
        Err(UsageError::EmptyQuery)
    } else if files > 0 && directories > 0 {
        Err(UsageError::FilesAndDirectory)
    } else if files == 0 && directories == 0 {
        Err(UsageError::NothingToSearch)
    } else if output_missing {
        Err(UsageError::OutputDirectoryMissing)
    } else if files > 0 {
        Ok(SearchMode::Files)
    } else if directories > 1 {
        Err(UsageError::SeveralDirectories)
    } else {
        Ok(SearchMode::Directory)
    }
}

/// The resolved paths among the first `count` candidates, each once, in the
/// order in which they first occur.
pub open spec fn valid_paths(candidates: Seq<Candidate>, count: nat) -> Seq<Seq<char>>
    decreases count,
{
    if count == 0 {
        Seq::empty()
    } else {
        let before = valid_paths(candidates, (count - 1) as nat);
        match candidates[count - 1].probe {
            PathProbe::Resolved(path) => if before.contains(path@) {
                before
            } else {
                before.push(path@)
            },
            _ => before,
        }
    }
}

/// Whether the candidate was resolved, and to this path.
pub open spec fn resolves_to(candidate: Candidate, path: Seq<char>) -> bool {
    candidate.probe matches PathProbe::Resolved(p) && p@ == path
}

/// No path stands twice among the valid paths.
pub proof fn valid_paths_are_distinct(candidates: Seq<Candidate>, count: nat)
    ensures
        valid_paths(candidates, count).no_duplicates(),
    decreases count,
{
    if count > 0 {
        valid_paths_are_distinct(candidates, (count - 1) as nat);
    }
}

/// The valid paths are the resolved paths of the candidates: each of them
/// is there, and nothing else is.
pub proof fn valid_paths_are_the_resolved(candidates: Seq<Candidate>, count: nat, path: Seq<char>)
    requires
        count <= candidates.len(),
    ensures
        valid_paths(candidates, count).contains(path) <==> exists|i: int|
            0 <= i < count && resolves_to(#[trigger] candidates[i], path),
    decreases count,
{
    if count > 0 {
        let before = valid_paths(candidates, (count - 1) as nat);
        let now = valid_paths(candidates, count);
        valid_paths_are_the_resolved(candidates, (count - 1) as nat, path);
        let last = candidates[count - 1];
        match last.probe {
            PathProbe::Resolved(p) => {
                if !before.contains(p@) {
                    assert(now == before.push(p@));
                    assert(now[now.len() - 1] == p@);
                    if before.contains(path) {
                        let k = choose|k: int| 0 <= k < before.len() && before[k] == path;
                        assert(now[k] == path);
                    }
                    if now.contains(path) && path != p@ {
                        let k = choose|k: int| 0 <= k < now.len() && now[k] == path;
                        assert(before[k] == path);
                    }
                }
            },
            _ => {},
        }
    }
}

fn holds(list: &Vec<String>, item: &String) -> (out: bool)
    ensures
        out == texts(list@).contains(item@),
{
    let mut i: usize = 0;
    while i < list.len()
        invariant
            i <= list@.len(),
            forall|k: int| 0 <= k < i ==> texts(list@)[k] != item@,
        decreases list@.len() - i,
    {
        if list[i] == *item {
            assert(texts(list@)[i as int] == item@);
            return true;
        }
        i += 1;
    }
    false
}

/// The files to search: the resolved paths among the candidates, each once,
/// in the order in which they first occur. Where there is none, the request
/// fails.
pub fn find_valid_paths(file_paths: &Vec<Candidate>) -> (out: Result<Vec<String>, UsageError>)
    ensures
        valid_paths(file_paths@, file_paths@.len()).len() == 0 ==> out == Err::<
            Vec<String>,
            UsageError,
        >(UsageError::NoValidFiles),
        valid_paths(file_paths@, file_paths@.len()).len() > 0 ==> out is Ok && texts(out->Ok_0@)
            == valid_paths(file_paths@, file_paths@.len()),
{
    let mut found: Vec<String> = Vec::new();
    let mut i: usize = 0;
    assert(texts(found@) == Seq::<Seq<char>>::empty());
    while i < file_paths.len()
        invariant
            i <= file_paths@.len(),
            texts(found@) == valid_paths(file_paths@, i as nat),
        decreases file_paths@.len() - i,
    {
        match &file_paths[i].probe {
            PathProbe::Resolved(path) => {
                if !holds(&found, path) {
                    let ghost before = found@;
                    found.push(path.clone());
                    assert(texts(found@) == texts(before).push(path@));
                }
            },
            _ => {},
        }
        i += 1;
    }
    if found.len() == 0 {
        Err(UsageError::NoValidFiles)
    } else {
        Ok(found)
    }
}

/// The verdict on the directory to search.
pub open spec fn directory_verdict(candidate: Candidate) -> Result<String, UsageError> {
    match candidate.probe {
        PathProbe::Missing => Err(UsageError::DirectoryMissing(candidate.given)),
        PathProbe::WrongKind => Err(UsageError::NotADirectory(candidate.given)),
        PathProbe::Unresolvable(reason) => Err(
            UsageError::DirectoryUnresolvable(candidate.given, reason),
        ),
        PathProbe::Resolved(path) => Ok(path),
    }
}

/// The directory to search in its resolved form, or why it cannot be
/// searched.
pub fn find_valid_dirs(dir_path: Candidate) -> (out: Result<String, UsageError>)
    ensures
        out == directory_verdict(dir_path),
{
    match dir_path.probe {
        PathProbe::Missing => Err(UsageError::DirectoryMissing(dir_path.given)),
        PathProbe::WrongKind => Err(UsageError::NotADirectory(dir_path.given)),
        PathProbe::Unresolvable(reason) => Err(
            UsageError::DirectoryUnresolvable(dir_path.given, reason),
        ),
        PathProbe::Resolved(path) => Ok(path),
    }
}

/// The three parts of a message, one after another.
pub open spec fn joined(first: Seq<char>, second: Seq<char>, third: Seq<char>) -> Seq<char> {
    first + second + third
}

/// The warning that is due for a file that is passed over.
pub open spec fn warning_text(candidate: Candidate) -> Option<Seq<char>> {
    match candidate.probe {
        PathProbe::Missing => Some(joined("Warning: '"@, candidate.given@, "' does not exist"@)),
        PathProbe::WrongKind => Some(
            joined("Warning: '"@, candidate.given@, "' is not a valid file"@),
        ),
        PathProbe::Unresolvable(reason) => Some(
            joined("Warning: Cannot canonicalize path '"@, candidate.given@, "': "@) + reason@,
        ),
        PathProbe::Resolved(_) => None,
    }
}

fn join(first: &str, second: &str, third: &str) -> (out: String)
    ensures
        out@ == joined(first@, second@, third@),
{
    let mut out = String::new();
    out.append(first);
    out.append(second);
    out.append(third);
    assert(out@ == first@ + second@ + third@);
    out
}

/// The warning that is due for a file that is passed over; none for a file
/// that is searched.
pub fn warning(candidate: &Candidate) -> (out: Option<String>)
    ensures
        out is Some <==> warning_text(*candidate) is Some,
        out is Some ==> out->Some_0@ == warning_text(*candidate)->Some_0,
{
    match &candidate.probe {
        PathProbe::Missing => Some(join("Warning: '", candidate.given.as_str(), "' does not exist")),
        PathProbe::WrongKind => Some(
            join("Warning: '", candidate.given.as_str(), "' is not a valid file"),
        ),
        PathProbe::Unresolvable(reason) => {
            let mut out = join(
                "Warning: Cannot canonicalize path '",
                candidate.given.as_str(),
                "': ",
            );
            out.append(reason.as_str());
            Some(out)
        },
        PathProbe::Resolved(_) => None,
    }
}

/// What a user is told of an error.
pub open spec fn message_text(error: UsageError) -> Seq<char> {
    match error {
        UsageError::EmptyQuery => "Query must not be empty"@,
        UsageError::FilesAndDirectory => "Can only specify one of file_path or dir, not both"@,
        UsageError::NothingToSearch => "Must specify either file_path or dir"@,
        UsageError::SeveralDirectories => "Only one directory path can be specified"@,
        UsageError::OutputDirectoryMissing => "Output directory does not exist"@,
        UsageError::NoValidFiles => "No valid files found"@,
        UsageError::DirectoryMissing(path) => joined("Directory '"@, path@, "' does not exist"@),
        UsageError::NotADirectory(path) => joined("Path '"@, path@, "' is not a valid directory"@),
        UsageError::DirectoryUnresolvable(path, reason) => joined(
            "Warning: Cannot canonicalize path '"@,
            path@,
            "': "@,
        ) + reason@,
    }
}

impl UsageError {
    /// What a user is told of this error.
    pub fn message(&self) -> (out: String)
        ensures
            out@ == message_text(*self),
    {
        match self {
            UsageError::EmptyQuery => "Query must not be empty".to_owned(),
            UsageError::FilesAndDirectory => "Can only specify one of file_path or dir, not both".to_owned(),
            UsageError::NothingToSearch => "Must specify either file_path or dir".to_owned(),
            UsageError::SeveralDirectories => "Only one directory path can be specified".to_owned(),
            UsageError::OutputDirectoryMissing => "Output directory does not exist".to_owned(),
            UsageError::NoValidFiles => "No valid files found".to_owned(),
            UsageError::DirectoryMissing(path) => join(
                "Directory '",
                path.as_str(),
                "' does not exist",
            ),
            UsageError::NotADirectory(path) => join(
                "Path '",
                path.as_str(),
                "' is not a valid directory",
            ),
            UsageError::DirectoryUnresolvable(path, reason) => {
                let mut out = join("Warning: Cannot canonicalize path '", path.as_str(), "': ");
                out.append(reason.as_str());
                out
            },
        }
    }
}

} // verus!
