//! Locating the occurrences of a query in a line.

use crate::text::chars_of;
use vstd::prelude::*;

verus! {

/// Whether `query` stands in `line` at character position `at`.
pub open spec fn occurs_at(line: Seq<char>, query: Seq<char>, at: int) -> bool {
    &&& 0 <= at
    &&& at + query.len() <= line.len()
    &&& line.subrange(at, at + query.len()) == query
}

/// The occurrences of `query` in `line` that a scan from left to right finds
/// when it starts at `from` and, after each occurrence, goes on behind it.
/// An empty query occurs nowhere.
pub open spec fn occurrences_from(line: Seq<char>, query: Seq<char>, from: int) -> Seq<usize>
    decreases line.len() - from,
{
    if query.len() == 0 || from < 0 || from + query.len() > line.len() {
        Seq::empty()
    } else if occurs_at(line, query, from) {
        seq![from as usize] + occurrences_from(line, query, from + query.len())
    } else {
        occurrences_from(line, query, from + 1)
    }
}

/// The start positions of the occurrences of `query` in `line`, from left to
/// right, none overlapping another.
pub open spec fn occurrences(line: Seq<char>, query: Seq<char>) -> Seq<usize> {
    occurrences_from(line, query, 0)
}

/// The lower-case form of a text, as `str::to_lowercase` gives it. It may
/// have another length than the text itself.
pub uninterp spec fn lowercase(text: Seq<char>) -> Seq<char>;

/// The text that is scanned: its lower-case form where case is ignored, the
/// text itself where it is not.
pub open spec fn folded(text: Seq<char>, ignore_case: bool) -> Seq<char> {
    if ignore_case {
        lowercase(text)
    } else {
        text
    }
}

/// Whether the offsets go upwards and leave room for `width` characters
/// between each and the next.
pub open spec fn spaced(offsets: Seq<usize>, width: nat) -> bool {
    forall|i: int| 0 <= i < offsets.len() - 1 ==> offsets[i] + width <= #[trigger] offsets[i + 1]
}

/// What a scan from `from` on finds: every offset is at or behind `from` and
/// is a place where the query stands, and each lies behind the end of the one
/// before.
pub proof fn lemma_occurrences_from(line: Seq<char>, query: Seq<char>, from: int)
    requires
        line.len() <= usize::MAX,
    ensures
        forall|i: int|
            0 <= i < occurrences_from(line, query, from).len() ==> {
                &&& from <= #[trigger] occurrences_from(line, query, from)[i]
                &&& occurs_at(line, query, occurrences_from(line, query, from)[i] as int)
            },
        spaced(occurrences_from(line, query, from), query.len()),
    decreases line.len() - from,
{
    if query.len() == 0 || from < 0 || from + query.len() > line.len() {
    } else if occurs_at(line, query, from) {
        let next = from + query.len();
        let rest = occurrences_from(line, query, next);
        let all = occurrences_from(line, query, from);
        lemma_occurrences_from(line, query, next);
        assert(all == seq![from as usize] + rest);
        assert forall|i: int| 0 <= i < all.len() implies from <= #[trigger] all[i] && occurs_at(
            line,
            query,
            all[i] as int,
        ) by {
            if i > 0 {
                assert(all[i] == rest[i - 1]);
            }
        }
        assert forall|i: int| 0 <= i < all.len() - 1 implies all[i] + query.len()
            <= #[trigger] all[i + 1] by {
            assert(all[i + 1] == rest[i]);
            if i > 0 {
                assert(all[i] == rest[i - 1]);
                assert(rest[i - 1] + query.len() <= rest[i - 1 + 1]);
            } else {
                assert(next <= rest[0]);
            }
        }
    } else {
        lemma_occurrences_from(line, query, from + 1);
    }
}

/// Every offset found is a place where the query stands in the line, and the
/// offsets are strictly increasing.
pub proof fn occurrences_are_matches(line: Seq<char>, query: Seq<char>)
    requires
        line.len() <= usize::MAX,
    ensures
        forall|i: int|
            0 <= i < occurrences(line, query).len() ==> occurs_at(
                line,
                query,
                #[trigger] occurrences(line, query)[i] as int,
            ),
        forall|i: int, j: int|
            0 <= i < j < occurrences(line, query).len() ==> occurrences(line, query)[i]
                < occurrences(line, query)[j],
{
    lemma_occurrences_from(line, query, 0);
    let found = occurrences(line, query);
    assert forall|i: int, j: int| 0 <= i < j < found.len() implies found[i] < found[j] by {
        lemma_spaced_increasing(found, query.len(), i, j);
    }
}

/// No two occurrences overlap: each offset is at least the length of the
/// query behind the one before.
pub proof fn occurrences_do_not_overlap(line: Seq<char>, query: Seq<char>)
    requires
        line.len() <= usize::MAX,
    ensures
        forall|i: int|
            0 <= i < occurrences(line, query).len() - 1 ==> occurrences(line, query)[i]
                + query.len() <= #[trigger] occurrences(line, query)[i + 1],
{
    lemma_occurrences_from(line, query, 0);
}

/// Where a non-empty query stands somewhere in the line, at least one
/// occurrence is found, and the first one found is the leftmost.
pub proof fn occurrences_find_leftmost(line: Seq<char>, query: Seq<char>, at: int)
    requires
        line.len() <= usize::MAX,
        query.len() > 0,
        occurs_at(line, query, at),
    ensures
        occurrences(line, query).len() > 0,
        occurrences(line, query)[0] <= at,
{
    lemma_first_from(line, query, 0, at);
}

proof fn lemma_first_from(line: Seq<char>, query: Seq<char>, from: int, at: int)
    requires
        line.len() <= usize::MAX,
        query.len() > 0,
        0 <= from <= at,
        occurs_at(line, query, at),
    ensures
        occurrences_from(line, query, from).len() > 0,
        from <= occurrences_from(line, query, from)[0] <= at,
    decreases at - from,
{
    if !occurs_at(line, query, from) {
        lemma_first_from(line, query, from + 1, at);
    }
}

/// In spaced offsets of a non-empty width, an earlier one is smaller than a
/// later one.
pub proof fn lemma_spaced_increasing(offsets: Seq<usize>, width: nat, i: int, j: int)
    requires
        spaced(offsets, width),
        0 <= i <= j < offsets.len(),
    ensures
        offsets[i] + (j - i) * width <= offsets[j],
        width > 0 && i < j ==> offsets[i] < offsets[j],
    decreases j - i,
{
    if i < j {
        lemma_spaced_increasing(offsets, width, i, j - 1);
        assert(offsets[j - 1] + width <= offsets[j - 1 + 1]);
        assert((j - i) * width == (j - 1 - i) * width + width) by (nonlinear_arith);
        if width > 0 {
            assert((j - 1 - i) * width >= 0) by (nonlinear_arith)
                requires
                    j - 1 - i >= 0,
                    width > 0,
            ;
        }
    } else {
        assert((j - i) * width == 0) by (nonlinear_arith)
            requires
                j - i == 0,
        ;
    }
}

/// `str::to_lowercase`: the lower-case form of the text. Not proved; the
/// result is only named, nothing is said of its length or its characters.
#[verifier::external_body]
fn to_lowercase(text: &str) -> (out: String)
    ensures
        out@ == lowercase(text@),
{
    text.to_lowercase()
}

fn matches_at(line: &Vec<char>, query: &Vec<char>, at: usize) -> (out: bool)
    requires
        at + query@.len() <= line@.len(),
    ensures
        out == occurs_at(line@, query@, at as int),
{
    let len = line.len();
    let mut k: usize = 0;
    while k < query.len()
        invariant
            len == line@.len(),
            k <= query@.len(),
            at + query@.len() <= line@.len(),
            forall|j: int| 0 <= j < k ==> line@[at + j] == query@[j],
        decreases query@.len() - k,
    {
        if line[at + k] != query[k] {
            proof {
                let part = line@.subrange(at as int, at + query@.len());
                assert(part[k as int] == line@[at + k]);
            }
            return false;
        }
        k += 1;
    }
    assert(line@.subrange(at as int, at + query@.len()) =~= query@);
    true
}

/// The occurrences of `query` in `line`, both taken as they are.
pub fn find_occurrences(line: &str, query: &str) -> (out: Vec<usize>)
    ensures
        out@ == occurrences(line@, query@),
        spaced(out@, query@.len()),
        forall|i: int| 0 <= i < out@.len() ==> occurs_at(line@, query@, #[trigger] out@[i] as int),
{
    let l = chars_of(line);
    let q = chars_of(query);
    let mut out: Vec<usize> = Vec::new();
    let len = l.len();
    proof {
        lemma_occurrences_from(line@, query@, 0);
    }
    if q.len() == 0 || q.len() > len {
        return out;
    }
    let last = len - q.len();
    let mut pos: usize = 0;
    assert(out@ + occurrences_from(l@, q@, 0) == occurrences(l@, q@));
    while pos <= last
        invariant
            q@.len() > 0,
            l@.len() <= usize::MAX,
            last + q@.len() == l@.len(),
            pos <= l@.len(),
            out@ + occurrences_from(l@, q@, pos as int) == occurrences(l@, q@),
        decreases l@.len() - pos,
    {
        let ghost before = out@;
        if matches_at(&l, &q, pos) {
            out.push(pos);
            proof {
                let rest = occurrences_from(l@, q@, pos + q@.len());
                assert(out@ + rest == before + (seq![pos] + rest));
            }
            pos += q.len();
        } else {
            pos += 1;
        }
    }
    assert(out@ + Seq::<usize>::empty() == out@);
    out
}

/// The occurrences of `query` in `line`. Where case is ignored, both are
/// brought to lower case first, and the offsets count characters of the
/// lower-case line.
pub fn locate(line: &str, query: &str, ignore_case: bool) -> (out: Vec<usize>)
    ensures
        out@ == occurrences(folded(line@, ignore_case), folded(query@, ignore_case)),
        spaced(out@, folded(query@, ignore_case).len()),
        forall|i: int|
            0 <= i < out@.len() ==> occurs_at(
                folded(line@, ignore_case),
                folded(query@, ignore_case),
                #[trigger] out@[i] as int,
            ),
{
    if ignore_case {
        let low_line = to_lowercase(line);
        let low_query = to_lowercase(query);
        find_occurrences(low_line.as_str(), low_query.as_str())
    } else {
        find_occurrences(line, query)
    }
}

} // verus!
