//! The search engine: which issues match a query, and in what order.

use crate::beads::models::{Issue, IssueView};
use crate::beads::snapshot::{arranged, lemma_arranged, unique_ids};
use crate::fuzzy::{fuzzy_positions, fuzzy_score, match_positions, match_score, positions_in};
use crate::sorting::{
    is_sorted, lemma_stable_sort_is_sorted, lemma_stable_sort_members,
    lemma_stable_sort_permutes, sort_stable, sorted_insert, stable_sort, views, Sortable,
    StrictOrder,
};
use crate::text::{
    join, join_strings, lemma_lex_irreflexive, lemma_lex_total, lemma_lex_transitive, lex_less,
    or_empty, str_less,
};
use vstd::prelude::*;

verus! {

/// The score of every issue while nothing is searched for.
pub const NEUTRAL_SCORE: i64 = 0;

/// One issue found by a search: its identifier, how well it matched, and
/// the character positions of its title to highlight.
#[derive(Debug, Clone)]
pub struct SearchResult {
    pub issue_id: String,
    pub score: i64,
    pub title_match_indices: Vec<usize>,
}

/// The mathematical value of a [`SearchResult`].
pub struct SearchResultView {
    pub issue_id: Seq<char>,
    pub score: i64,
    pub title_match_indices: Seq<usize>,
}

impl View for SearchResult {
    type V = SearchResultView;

    open spec fn view(&self) -> SearchResultView {
        SearchResultView {
            issue_id: self.issue_id@,
            score: self.score,
            title_match_indices: self.title_match_indices@,
        }
    }
}

/// A search result together with the priority of its issue, by which ties
/// between equal scores are broken.
#[derive(Debug, Clone)]
pub struct Candidate {
    pub result: SearchResult,
    pub priority: u8,
}

/// The mathematical value of a [`Candidate`].
pub struct CandidateView {
    pub result: SearchResultView,
    pub priority: u8,
}

impl View for Candidate {
    type V = CandidateView;

    open spec fn view(&self) -> CandidateView {
        CandidateView { result: self.result@, priority: self.priority }
    }
}

/// The ranking of search results: the higher score first; between equal
/// scores the more urgent priority first; between equal priorities the
/// smaller identifier first.
impl StrictOrder for CandidateView {
    open spec fn before(self, other: Self) -> bool {
        self.result.score > other.result.score || (self.result.score == other.result.score && (
        self.priority < other.priority || (self.priority == other.priority && lex_less(
            self.result.issue_id,
            other.result.issue_id,
        ))))
    }

    proof fn lemma_strict_weak(a: Self, b: Self, c: Self) {
        lemma_lex_irreflexive(a.result.issue_id);
        if a.before(b) && b.before(c) {
            if a.result.score == c.result.score && a.priority == c.priority {
                lemma_lex_transitive(a.result.issue_id, b.result.issue_id, c.result.issue_id);
            }
        }
        if !a.before(b) && !b.before(c) && a.before(c) {
            // scores and priorities are equal, and a < c by identifier
            lemma_lex_total(a.result.issue_id, b.result.issue_id);
            if lex_less(b.result.issue_id, a.result.issue_id) {
                lemma_lex_transitive(b.result.issue_id, a.result.issue_id, c.result.issue_id);
            }
        }
    }
}

impl Sortable for Candidate {
    fn precedes(&self, other: &Self) -> (r: bool) {
        self.result.score > other.result.score || (self.result.score == other.result.score && (
        self.priority < other.priority || (self.priority == other.priority && str_less(
            self.result.issue_id.as_str(),
            other.result.issue_id.as_str(),
        ))))
    }
}

/// The text of an issue that a query is matched against: identifier, title,
/// description, assignee and labels, each separated by one space, an absent
/// description or assignee counting as empty.
pub open spec fn haystack(issue: IssueView) -> Seq<char> {
    issue.id + seq![' '] + issue.title + seq![' '] + or_empty(issue.description) + seq![' ']
        + or_empty(issue.assignee) + seq![' '] + join(issue.labels, seq![' '])
}

/// The result that stands for `issue` while nothing is searched for.
pub open spec fn neutral(issue: IssueView) -> SearchResultView {
    SearchResultView {
        issue_id: issue.id,
        score: NEUTRAL_SCORE,
        title_match_indices: Seq::empty(),
    }
}

/// The candidate that stands for `issue` when its text scored `score` and
/// `positions` of its title matched.
pub open spec fn candidate(issue: IssueView, score: i64, positions: Seq<usize>) -> CandidateView {
    CandidateView {
        result: SearchResultView { issue_id: issue.id, score, title_match_indices: positions },
        priority: issue.priority,
    }
}

/// What a non-empty `query` finds in `issue`: nothing where its text does
/// not match, else a candidate with the score of the text and the matching
/// positions of the title alone.
pub open spec fn found_in(issue: IssueView, query: Seq<char>) -> Option<CandidateView> {
    match match_score(haystack(issue), query) {
        Some(score) => Some(candidate(issue, score, match_positions(issue.title, query))),
        None => None,
    }
}

/// The candidates that a non-empty `query` finds, in the order of `issues`.
pub open spec fn candidates(issues: Seq<IssueView>, query: Seq<char>) -> Seq<CandidateView>
    decreases issues.len(),
{
    if issues.len() == 0 {
        Seq::empty()
    } else {
        match found_in(issues.last(), query) {
            Some(c) => candidates(issues.drop_last(), query).push(c),
            None => candidates(issues.drop_last(), query),
        }
    }
}

/// The results that candidates carry.
pub open spec fn results_of(found: Seq<CandidateView>) -> Seq<SearchResultView> {
    found.map_values(|c: CandidateView| c.result)
}

/// The outcome of a search. An empty query lists every issue once, in the
/// order of `issues`, with the neutral score and nothing to highlight. Any
/// other query lists the issues it matches, ranked.
pub open spec fn ranked(issues: Seq<IssueView>, query: Seq<char>) -> Seq<SearchResultView> {
    if query.len() == 0 {
        issues.map_values(|issue: IssueView| neutral(issue))
    } else {
        results_of(stable_sort(candidates(issues, query)))
    }
}

/// The highlights of `result` fit an issue that it names: one of `issues`
/// has its identifier, and every position to highlight lies inside that
/// issue's title.
pub open spec fn highlights_fit(result: SearchResultView, issues: Seq<IssueView>) -> bool {
    exists|i: int|
        0 <= i < issues.len() && (#[trigger] issues[i]).id == result.issue_id && positions_in(
            result.title_match_indices,
            issues[i].title.len(),
        )
}

/// The highlights of every result fit an issue that it names.
pub open spec fn all_highlights_fit(
    results: Seq<SearchResultView>,
    issues: Seq<IssueView>,
) -> bool {
    forall|k: int| 0 <= k < results.len() ==> highlights_fit(#[trigger] results[k], issues)
}

/// Builds the text of `issue` that queries are matched against.
pub fn haystack_of(issue: &Issue) -> (text: String)
    ensures
        text@ == haystack(issue@),
{
    let mut text = issue.id.clone();
    text.push(' ');
    text.append(issue.title.as_str());
    text.push(' ');
    match &issue.description {
        Some(description) => text.append(description.as_str()),
        None => {},
    }
    text.push(' ');
    match &issue.assignee {
        Some(assignee) => text.append(assignee.as_str()),
        None => {},
    }
    text.push(' ');
    let labels = join_strings(&issue.labels, " ");
    text.append(labels.as_str());
    proof {
        reveal_strlit(" ");
        assert(" "@ =~= seq![' ']);
        assert(text@ =~= haystack(issue@));
    }
    text
}

impl Candidate {
    /// The candidate for `issue`, given the score of its text and the
    /// matching positions of its title.
    pub fn new(issue: &Issue, score: i64, positions: Vec<usize>) -> (c: Candidate)
        ensures
            c@ == candidate(issue@, score, positions@),
    {
        Candidate {
            result: SearchResult {
                issue_id: issue.id.clone(),
                score,
                title_match_indices: positions,
            },
            priority: issue.priority.0,
        }
    }
}

/// Matches one issue against a non-empty query.
pub fn find_in(issue: &Issue, query: &str) -> (found: Option<Candidate>)
    ensures
        match found {
            Some(c) => found_in(issue@, query@) == Some(c@) && c@.result.issue_id == issue@.id
                && positions_in(c@.result.title_match_indices, issue@.title.len()),
            None => found_in(issue@, query@).is_none(),
        },
{
    let text = haystack_of(issue);
    match fuzzy_score(text.as_str(), query) {
        Some(score) => {
            let positions = fuzzy_positions(issue.title.as_str(), query);
            Some(Candidate::new(issue, score, positions))
        },
        None => None,
    }
}

/// Ranks candidates and hands out their results, best first.
pub fn rank_candidates(found: Vec<Candidate>) -> (results: Vec<SearchResult>)
    ensures
        views(results@) == results_of(stable_sort(views(found@))),
        forall|k: int|
            0 <= k < results@.len() ==> exists|j: int|
                0 <= j < found@.len() && #[trigger] views(results@)[k] == (#[trigger] views(
                    found@,
                )[j]).result,
{
    proof {
        lemma_stable_sort_members(views(found@));
    }
    let sorted = sort_stable(found);
    let ghost ordered = sorted@;
    let mut results: Vec<SearchResult> = Vec::new();
    for c in it: sorted
        invariant
            it.seq() == ordered,
            results@.len() == it.index(),
            views(results@) == results_of(views(ordered).subrange(0, it.index())),
    {
        results.push(c.result);
        proof {
            let k = it.index() as int;
            let done = results_of(views(ordered).subrange(0, k + 1));
            assert forall|j: int| 0 <= j < k + 1 implies views(results@)[j] == done[j] by {
                if j < k {
                    assert(views(results@)[j] == results_of(views(ordered).subrange(0, k))[j]);
                }
            }
        }
    }
    results
}

/// Searches `issues` for `query`.
pub fn rank(issues: &Vec<Issue>, query: &str) -> (results: Vec<SearchResult>)
    ensures
        views(results@) == ranked(views(issues@), query@),
        all_highlights_fit(views(results@), views(issues@)),
{
    let mut i: usize = 0;
    if query.is_empty() {
        let mut results: Vec<SearchResult> = Vec::new();
        while i < issues.len()
            invariant
                i <= issues.len(),
                query@.len() == 0,
                results@.len() == i,
                views(results@) == ranked(views(issues@).subrange(0, i as int), query@),
            decreases issues.len() - i,
        {
            results.push(
                SearchResult {
                    issue_id: issues[i].id.clone(),
                    score: NEUTRAL_SCORE,
                    title_match_indices: Vec::new(),
                },
            );
            i += 1;
            proof {
                let done = views(issues@).subrange(0, i as int);
                assert forall|j: int| 0 <= j < i implies views(results@)[j] == ranked(
                    done,
                    query@,
                )[j] by {
                    if j < i - 1 {
                        assert(views(results@)[j] == ranked(
                            views(issues@).subrange(0, i - 1),
                            query@,
                        )[j]);
                    }
                }
            }
        }
        results
    } else {
        let mut found: Vec<Candidate> = Vec::new();
        while i < issues.len()
            invariant
                i <= issues.len(),
                views(found@) == candidates(views(issues@).subrange(0, i as int), query@),
                forall|k: int|
                    0 <= k < found@.len() ==> highlights_fit(
                        (#[trigger] views(found@)[k]).result,
                        views(issues@),
                    ),
            decreases issues.len() - i,
        {
            proof {
                let done = views(issues@).subrange(0, i + 1);
                assert(done.drop_last() =~= views(issues@).subrange(0, i as int));
            }
            if let Some(c) = find_in(&issues[i], query) {
                let ghost before = found@;
                found.push(c);
                assert forall|k: int| 0 <= k < found@.len() implies highlights_fit(
                    (#[trigger] views(found@)[k]).result,
                    views(issues@),
                ) by {
                    if k < before.len() {
                        assert(views(found@)[k] == views(before)[k]);
                    } else {
                        assert(views(issues@)[i as int] == issues@[i as int]@);
                    }
                }
            }
            i += 1;
        }
        proof {
            assert(views(issues@).subrange(0, i as int) =~= views(issues@));
        }
        rank_candidates(found)
    }
}

/// An empty query finds every issue once, in the order of the issues, with
/// the neutral score and nothing to highlight.
pub proof fn lemma_empty_query_lists_all(issues: Seq<IssueView>)
    ensures
        ranked(issues, Seq::empty()).len() == issues.len(),
        forall|i: int|
            0 <= i < issues.len() ==> #[trigger] ranked(issues, Seq::empty())[i] == neutral(
                issues[i],
            ),
{
}

/// Issues that stand in load order are found by an empty query in that
/// order: the result at each position is that of the issue there, and no
/// later issue is more urgent, or as urgent and more recently updated.
pub proof fn lemma_empty_query_keeps_load_order(issues: Seq<IssueView>)
    requires
        is_sorted(issues),
    ensures
        forall|i: int, j: int|
            0 <= i < j < issues.len() ==> {
                &&& (#[trigger] ranked(issues, Seq::empty())[i]).issue_id == issues[i].id
                &&& (#[trigger] ranked(issues, Seq::empty())[j]).issue_id == issues[j].id
                &&& issues[i].priority <= issues[j].priority
                &&& issues[i].priority == issues[j].priority ==> !lex_less(
                    issues[i].updated_at,
                    issues[j].updated_at,
                )
            },
{
}

/// Whatever a load hands to the board is found by an empty query in load
/// order: by priority, and within one priority by recency.
pub proof fn lemma_empty_query_after_load(issues: Seq<IssueView>, label: Option<Seq<char>>)
    ensures
        ranked(arranged(issues, label), Seq::empty()).len() == arranged(issues, label).len(),
        forall|i: int, j: int|
            0 <= i < j < arranged(issues, label).len() ==> {
                &&& (#[trigger] ranked(arranged(issues, label), Seq::empty())[i]).issue_id
                    == arranged(issues, label)[i].id
                &&& (#[trigger] ranked(arranged(issues, label), Seq::empty())[j]).issue_id
                    == arranged(issues, label)[j].id
                &&& arranged(issues, label)[i].priority <= arranged(issues, label)[j].priority
                &&& arranged(issues, label)[i].priority == arranged(issues, label)[j].priority
                    ==> !lex_less(
                    arranged(issues, label)[i].updated_at,
                    arranged(issues, label)[j].updated_at,
                )
            },
{
    lemma_arranged(issues, label);
    lemma_empty_query_keeps_load_order(arranged(issues, label));
}

/// Every candidate was found in one of the issues, and there are no more
/// candidates than issues.
pub proof fn lemma_candidates_are_found(issues: Seq<IssueView>, query: Seq<char>)
    ensures
        candidates(issues, query).len() <= issues.len(),
        forall|k: int|
            0 <= k < candidates(issues, query).len() ==> exists|i: int|
                0 <= i < issues.len() && found_in(issues[i], query) == Some(
                    #[trigger] candidates(issues, query)[k],
                ),
    decreases issues.len(),
{
    if issues.len() > 0 {
        let init = issues.drop_last();
        lemma_candidates_are_found(init, query);
    }
}

/// A query that matches no issue finds nothing.
pub proof fn lemma_no_match_no_results(issues: Seq<IssueView>, query: Seq<char>)
    requires
        query.len() > 0,
        forall|i: int| 0 <= i < issues.len() ==> found_in(#[trigger] issues[i], query).is_none(),
    ensures
        ranked(issues, query).len() == 0,
{
    lemma_candidates_are_found(issues, query);
    if candidates(issues, query).len() > 0 {
        let i = choose|i: int|
            0 <= i < issues.len() && found_in(issues[i], query) == Some(
                candidates(issues, query)[0],
            );
    }
    lemma_stable_sort_is_sorted(candidates(issues, query));
}

/// The results of a non-empty query are its candidates, each once, ranked:
/// of two results the earlier has the higher score, or the same score and the
/// more urgent priority, or the same score and priority and an identifier
/// that is not the greater.
pub proof fn lemma_ranked_order(issues: Seq<IssueView>, query: Seq<char>)
    requires
        query.len() > 0,
    ensures
        ranked(issues, query) == results_of(stable_sort(candidates(issues, query))),
        stable_sort(candidates(issues, query)).to_multiset() == candidates(
            issues,
            query,
        ).to_multiset(),
        ranked(issues, query).len() == candidates(issues, query).len(),
        forall|i: int, j: int|
            #![trigger stable_sort(candidates(issues, query))[i], stable_sort(candidates(issues, query))[j]]
            0 <= i < j < candidates(issues, query).len() ==> {
                let a = stable_sort(candidates(issues, query))[i];
                let b = stable_sort(candidates(issues, query))[j];
                ||| a.result.score > b.result.score
                ||| a.result.score == b.result.score && a.priority < b.priority
                ||| a.result.score == b.result.score && a.priority == b.priority && !lex_less(
                    b.result.issue_id,
                    a.result.issue_id,
                )
            },
{
    let found = candidates(issues, query);
    lemma_stable_sort_is_sorted(found);
    lemma_stable_sort_permutes(found);
}

/// No two candidates name the same issue.
pub open spec fn distinct_ids(found: Seq<CandidateView>) -> bool {
    forall|i: int, j: int|
        0 <= i < j < found.len() ==> (#[trigger] found[i]).result.issue_id != (
        #[trigger] found[j]).result.issue_id
}

/// Issues with unique identifiers give candidates that name each issue at
/// most once, and every candidate names one of the issues.
pub proof fn lemma_candidates_distinct(issues: Seq<IssueView>, query: Seq<char>)
    requires
        unique_ids(issues),
    ensures
        distinct_ids(candidates(issues, query)),
        forall|k: int|
            0 <= k < candidates(issues, query).len() ==> exists|i: int|
                0 <= i < issues.len() && (#[trigger] issues[i]).id == (#[trigger] candidates(
                    issues,
                    query,
                )[k]).result.issue_id,
    decreases issues.len(),
{
    if issues.len() > 0 {
        let init = issues.drop_last();
        let last = issues.last();
        let before = candidates(init, query);
        let found = candidates(issues, query);
        assert(unique_ids(init)) by {
            assert forall|i: int, j: int| 0 <= i < j < init.len() implies (
            #[trigger] init[i]).id != (#[trigger] init[j]).id by {
                assert(init[i] == issues[i] && init[j] == issues[j]);
            }
        }
        lemma_candidates_distinct(init, query);
        assert forall|k: int| 0 <= k < found.len() implies exists|i: int|
            0 <= i < issues.len() && (#[trigger] issues[i]).id == (
            #[trigger] found[k]).result.issue_id by {
            if k < before.len() {
                let i = choose|i: int|
                    0 <= i < init.len() && (#[trigger] init[i]).id == before[k].result.issue_id;
                assert(issues[i] == init[i]);
            } else {
                assert(issues[issues.len() - 1].id == found[k].result.issue_id);
            }
        }
        assert forall|i: int, j: int| 0 <= i < j < found.len() implies (
        #[trigger] found[i]).result.issue_id != (#[trigger] found[j]).result.issue_id by {
            if j == before.len() {
                let m = choose|m: int|
                    0 <= m < init.len() && (#[trigger] init[m]).id == before[i].result.issue_id;
                assert(issues[m] == init[m]);
                assert(issues[m].id != issues[issues.len() - 1].id);
            } else {
                assert(found[i] == before[i] && found[j] == before[j]);
            }
        }
    }
}

/// Ranking candidates that name each issue at most once leaves them so.
pub proof fn lemma_ranking_keeps_distinct(found: Seq<CandidateView>)
    requires
        distinct_ids(found),
    ensures
        distinct_ids(stable_sort(found)),
    decreases found.len(),
{
    if found.len() > 0 {
        let init = found.drop_last();
        let x = found.last();
        let t = stable_sort(init);
        assert(distinct_ids(init)) by {
            assert forall|i: int, j: int| 0 <= i < j < init.len() implies (
            #[trigger] init[i]).result.issue_id != (#[trigger] init[j]).result.issue_id by {
                assert(init[i] == found[i] && init[j] == found[j]);
            }
        }
        lemma_ranking_keeps_distinct(init);
        lemma_stable_sort_members(init);
        crate::sorting::lemma_insert_index(t, x);
        let p = crate::sorting::insert_index(t, x);
        let s = sorted_insert(t, x);
        assert forall|k: int| 0 <= k < t.len() implies (#[trigger] t[k]).result.issue_id
            != x.result.issue_id by {
            let m = choose|m: int| 0 <= m < init.len() && init[m] == t[k];
            assert(found[m] == init[m]);
            assert(found[m].result.issue_id != found[found.len() - 1].result.issue_id);
        }
        assert forall|i: int, j: int| 0 <= i < j < s.len() implies (
        #[trigger] s[i]).result.issue_id != (#[trigger] s[j]).result.issue_id by {
            let ti = if i < p { i } else { i - 1 };
            let tj = if j < p { j } else { j - 1 };
            if i == p {
                assert(s[j] == t[tj]);
            } else if j == p {
                assert(s[i] == t[ti]);
            } else {
                assert(s[i] == t[ti] && s[j] == t[tj]);
            }
        }
    }
}

/// Among issues with unique identifiers the ranking is strict: of two
/// results the earlier has the higher score, or the same score and the more
/// urgent priority, or the same score and priority and the smaller
/// identifier.
pub proof fn lemma_ranked_order_strict(issues: Seq<IssueView>, query: Seq<char>)
    requires
        query.len() > 0,
        unique_ids(issues),
    ensures
        ranked(issues, query) == results_of(stable_sort(candidates(issues, query))),
        distinct_ids(stable_sort(candidates(issues, query))),
        forall|i: int, j: int|
            #![trigger stable_sort(candidates(issues, query))[i], stable_sort(candidates(issues, query))[j]]
            0 <= i < j < candidates(issues, query).len() ==> {
                let a = stable_sort(candidates(issues, query))[i];
                let b = stable_sort(candidates(issues, query))[j];
                ||| a.result.score > b.result.score
                ||| a.result.score == b.result.score && a.priority < b.priority
                ||| a.result.score == b.result.score && a.priority == b.priority && lex_less(
                    a.result.issue_id,
                    b.result.issue_id,
                )
            },
{
    let found = candidates(issues, query);
    lemma_candidates_distinct(issues, query);
    lemma_ranking_keeps_distinct(found);
    lemma_stable_sort_is_sorted(found);
    assert forall|i: int, j: int|
        #![trigger stable_sort(found)[i], stable_sort(found)[j]]
        0 <= i < j < found.len() implies {
        let a = stable_sort(found)[i];
        let b = stable_sort(found)[j];
        ||| a.result.score > b.result.score
        ||| a.result.score == b.result.score && a.priority < b.priority
        ||| a.result.score == b.result.score && a.priority == b.priority && lex_less(
            a.result.issue_id,
            b.result.issue_id,
        )
    } by {
        let a = stable_sort(found)[i];
        let b = stable_sort(found)[j];
        assert(!b.before(a));
        assert(a.result.issue_id != b.result.issue_id);
        lemma_lex_total(a.result.issue_id, b.result.issue_id);
    }
}

/// Searching is deterministic: the same issues and the same query give the
/// same results in the same order.
pub proof fn lemma_ranking_deterministic(
    issues: Seq<IssueView>,
    query: Seq<char>,
    again_issues: Seq<IssueView>,
    again_query: Seq<char>,
)
    requires
        issues == again_issues,
        query == again_query,
    ensures
        ranked(issues, query) == ranked(again_issues, again_query),
{
}

/// A stretch of a title that is shown in one style: highlighted as matched,
/// or plain.
#[derive(Debug, Clone)]
pub struct Segment {
    pub text: String,
    pub matched: bool,
}

/// The mathematical value of a [`Segment`].
pub struct SegmentView {
    pub text: Seq<char>,
    pub matched: bool,
}

impl View for Segment {
    type V = SegmentView;

    open spec fn view(&self) -> SegmentView {
        SegmentView { text: self.text@, matched: self.matched }
    }
}

/// Whether the character at `position` of a title is one that matched.
pub open spec fn is_highlighted(positions: Seq<usize>, position: int) -> bool {
    exists|k: int| 0 <= k < positions.len() && #[trigger] positions[k] == position
}

/// The title cut into segments: each run of neighbouring characters that
/// are all matched, or all not, is one segment.
pub open spec fn segments(title: Seq<char>, positions: Seq<usize>) -> Seq<SegmentView>
    decreases title.len(),
{
    if title.len() == 0 {
        Seq::empty()
    } else {
        let before = segments(title.drop_last(), positions);
        let matched = is_highlighted(positions, title.len() - 1);
        if before.len() > 0 && before.last().matched == matched {
            before.drop_last().push(
                SegmentView { text: before.last().text.push(title.last()), matched },
            )
        } else {
            before.push(SegmentView { text: seq![title.last()], matched })
        }
    }
}

/// The texts of segments written one after the other.
pub open spec fn segments_text(parts: Seq<SegmentView>) -> Seq<char>
    decreases parts.len(),
{
    if parts.len() == 0 {
        Seq::empty()
    } else {
        segments_text(parts.drop_last()) + parts.last().text
    }
}

/// For each character of segments, in order, whether its segment is
/// matched.
pub open spec fn segments_flags(parts: Seq<SegmentView>) -> Seq<bool>
    decreases parts.len(),
{
    if parts.len() == 0 {
        Seq::empty()
    } else {
        segments_flags(parts.drop_last()) + Seq::new(
            parts.last().text.len(),
            |i: int| parts.last().matched,
        )
    }
}

/// The segments of a title make up the title: their texts, in order, are
/// the title; each character stands in a matched segment exactly if it is
/// highlighted; no segment is empty; and neighbours differ in whether they
/// are matched.
pub proof fn lemma_segments(title: Seq<char>, positions: Seq<usize>)
    ensures
        segments_text(segments(title, positions)) == title,
        segments_flags(segments(title, positions)) == Seq::new(
            title.len(),
            |i: int| is_highlighted(positions, i),
        ),
        forall|k: int|
            0 <= k < segments(title, positions).len() ==> (#[trigger] segments(
                title,
                positions,
            )[k]).text.len() > 0,
        forall|k: int|
            0 <= k < segments(title, positions).len() - 1 ==> (#[trigger] segments(
                title,
                positions,
            )[k]).matched != segments(title, positions)[k + 1].matched,
    decreases title.len(),
{
    let parts = segments(title, positions);
    if title.len() > 0 {
        let init = title.drop_last();
        let before = segments(init, positions);
        let matched = is_highlighted(positions, title.len() - 1);
        lemma_segments(init, positions);
        if before.len() > 0 && before.last().matched == matched {
            assert(parts.drop_last() =~= before.drop_last());
            assert(segments_text(parts) =~= segments_text(before).push(title.last()));
            assert(segments_flags(parts) =~= segments_flags(before).push(matched));
        } else {
            assert(parts.drop_last() =~= before);
        }
    }
}

/// Whether `position` is among `positions`.
pub fn is_highlighted_at(positions: &Vec<usize>, position: usize) -> (found: bool)
    ensures
        found == is_highlighted(positions@, position as int),
{
    let mut k: usize = 0;
    while k < positions.len()
        invariant
            k <= positions.len(),
            forall|j: int| 0 <= j < k ==> positions@[j] != position,
        decreases positions.len() - k,
    {
        if positions[k] == position {
            return true;
        }
        k += 1;
    }
    false
}

/// Cuts `title` into the segments to show, given the positions that
/// matched.
pub fn highlight(title: &str, positions: &Vec<usize>) -> (parts: Vec<Segment>)
    ensures
        views(parts@) == segments(title@, positions@),
{
    let mut parts: Vec<Segment> = Vec::new();
    let n = title.unicode_len();
    let mut i: usize = 0;
    while i < n
        invariant
            i <= n,
            n == title@.len(),
            views(parts@) == segments(title@.subrange(0, i as int), positions@),
        decreases n - i,
    {
        let c = title.get_char(i);
        let matched = is_highlighted_at(positions, i);
        proof {
            let done = title@.subrange(0, i + 1);
            assert(done.drop_last() =~= title@.subrange(0, i as int));
        }
        let grows = parts.len() > 0 && parts[parts.len() - 1].matched == matched;
        if grows {
            let mut last = parts.pop().unwrap();
            last.text.push(c);
            parts.push(last);
        } else {
            let mut text = String::new();
            text.push(c);
            parts.push(Segment { text, matched });
        }
        assert(views(parts@) =~= segments(title@.subrange(0, i + 1), positions@));
        i += 1;
    }
    proof {
        assert(title@.subrange(0, i as int) =~= title@);
    }
    parts
}

} // verus!
