//! The fuzzy matcher behind the search view: the skim matcher of the
//! `fuzzy-matcher` crate, reached through two trusted calls.
//!
//! The matcher fills a table of 32-bit scores. A score is a sum that grows
//! by at most 32 with each character of the query and never falls below
//! -32776, however long the text is. The table holds one cell for each
//! character of the text, and one more, in each of its rows. It must fit in
//! `isize::MAX` bytes. These are the only limits of the matcher, and the
//! only inputs that the library keeps from it.

use fuzzy_matcher::skim::SkimMatcherV2;
use fuzzy_matcher::FuzzyMatcher;
use vstd::prelude::*;

verus! {

/// The longest query, in characters, whose scores stay within 32 bits: 32
/// for each of its characters, up to 2^31.
pub const MAX_QUERY_CHARS: usize = 0x400_0000;

/// The most bytes that one cell of the matcher's score table takes.
pub const CELL_BYTES: usize = 24;

/// What `SkimMatcherV2::fuzzy_match` returns for a text and a pattern: the
/// score of the best alignment it finds, higher for a better match, or
/// `None` where it finds no match.
pub uninterp spec fn skim_score(choice: Seq<char>, pattern: Seq<char>) -> Option<i64>;

/// What `SkimMatcherV2::fuzzy_indices` returns for a text and a pattern: a
/// score and the character positions of the text that it pairs with the
/// pattern, or `None` where it finds no match.
pub uninterp spec fn skim_indices(choice: Seq<char>, pattern: Seq<char>) -> Option<
    (i64, Seq<usize>),
>;

/// The matcher can score `text` for `query`: the query's scores stay within
/// 32 bits, and the table of two rows that scoring takes fits in memory.
pub open spec fn scorable(text: Seq<char>, query: Seq<char>) -> bool {
    &&& query.len() <= MAX_QUERY_CHARS
    &&& CELL_BYTES * (2 * (text.len() + 1)) <= isize::MAX
}

/// The matcher can say where `query` matches in `text`: the query's scores
/// stay within 32 bits, and the table that this takes, with one row for each
/// character of the query, and one more, fits in memory.
pub open spec fn locatable(text: Seq<char>, query: Seq<char>) -> bool {
    &&& query.len() <= MAX_QUERY_CHARS
    &&& CELL_BYTES * ((query.len() + 1) * (text.len() + 1)) <= isize::MAX
}

/// Every position lies inside a text of `len` characters.
pub open spec fn positions_in(positions: Seq<usize>, len: nat) -> bool {
    forall|k: int| 0 <= k < positions.len() ==> #[trigger] positions[k] < len
}

/// The score of `text` for `query`: the matcher's, for every text and query
/// that the matcher can take.
pub open spec fn match_score(text: Seq<char>, query: Seq<char>) -> Option<i64> {
    if scorable(text, query) {
        skim_score(text, query)
    } else {
        None
    }
}

/// The positions of `text` that match `query`: the matcher's, for every
/// text and query that the matcher can take, and none where it finds no
/// match.
pub open spec fn match_positions(text: Seq<char>, query: Seq<char>) -> Seq<usize> {
    if locatable(text, query) {
        positions_of(skim_indices(text, query))
    } else {
        Seq::empty()
    }
}

/// The positions of a match, none for no match.
pub open spec fn positions_of(found: Option<(i64, Seq<usize>)>) -> Seq<usize> {
    match found {
        Some((_, positions)) => positions,
        None => Seq::empty(),
    }
}

/// Calls `fuzzy_match` of a fresh `SkimMatcherV2` with its default settings
/// (smart case, no size limit). A fresh matcher starts from an empty score
/// table, so the result depends on the two strings alone. What is required
/// keeps its 32-bit sums and the size of its table from overflowing.
#[verifier::external_body]
fn skim_match(choice: &str, pattern: &str) -> (score: Option<i64>)
    requires
        scorable(choice@, pattern@),
    ensures
        score == skim_score(choice@, pattern@),
{
    SkimMatcherV2::default().fuzzy_match(choice, pattern)
}

/// Calls `fuzzy_indices` of a fresh `SkimMatcherV2` with its default
/// settings. As for `fuzzy_match`, the result depends on the two strings
/// alone. The positions it returns are those of characters of `choice`: the
/// matcher takes them from the columns of its table, one for each
/// character.
#[verifier::external_body]
fn skim_match_indices(choice: &str, pattern: &str) -> (found: Option<(i64, Vec<usize>)>)
    requires
        locatable(choice@, pattern@),
    ensures
        match found {
            Some((score, positions)) => skim_indices(choice@, pattern@) == Some(
                (score, positions@),
            ) && positions_in(positions@, choice@.len()),
            None => skim_indices(choice@, pattern@).is_none(),
        },
{
    SkimMatcherV2::default().fuzzy_indices(choice, pattern)
}

/// The most cells that a score table can have.
fn max_cells() -> (cells: usize)
    ensures
        cells == (isize::MAX as int) / (CELL_BYTES as int),
{
    usize::MAX / 2 / CELL_BYTES
}

/// Scores `text` against `query`.
pub fn fuzzy_score(text: &str, query: &str) -> (score: Option<i64>)
    ensures
        score == match_score(text@, query@),
{
    let columns = text.unicode_len();
    let cells = max_cells();
    proof {
        lemma_cells(columns as int + 1, 2, cells as int);
    }
    if query.unicode_len() <= MAX_QUERY_CHARS && columns < cells / 2 {
        skim_match(text, query)
    } else {
        None
    }
}

/// The positions of `text` that match `query`, for highlighting.
pub fn fuzzy_positions(text: &str, query: &str) -> (positions: Vec<usize>)
    ensures
        positions@ == match_positions(text@, query@),
        positions_in(positions@, text@.len()),
{
    let columns = text.unicode_len();
    let rows = query.unicode_len();
    let cells = max_cells();
    proof {
        lemma_cells(columns as int + 1, rows as int + 1, cells as int);
    }
    if rows <= MAX_QUERY_CHARS && columns < cells / (rows + 1) {
        match skim_match_indices(text, query) {
            Some((_, positions)) => positions,
            None => Vec::new(),
        }
    } else {
        Vec::new()
    }
}

/// A table of `rows` rows and `columns` columns has at most `cells` cells
/// exactly if its columns are no more than the cells divided by the rows.
proof fn lemma_cells(columns: int, rows: int, cells: int)
    requires
        0 < rows,
        0 < columns,
        0 <= cells,
    ensures
        columns <= cells / rows <==> rows * columns <= cells,
{
    assert(columns <= cells / rows <==> rows * columns <= cells) by (nonlinear_arith)
        requires
            0 < rows,
            0 < columns,
            0 <= cells,
    ;
}

} // verus!
