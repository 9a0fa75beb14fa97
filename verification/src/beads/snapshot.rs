//! The snapshot: the issues as of the last load, the contract that every
//! load keeps, and the lookup of an issue by its identifier.

use crate::beads::models::{
    lemma_normalized_priority, normalized, BdIssue, Issue, IssueView, LOWEST_PRIORITY,
};
use crate::sorting::{
    is_sorted, lemma_stable_sort_is_sorted, lemma_stable_sort_of_sorted,
    lemma_stable_sort_permutes, sort_stable, stable_sort, views,
};
use crate::text::str_eq;
use vstd::prelude::*;

verus! {

/// No two issues share an identifier, as in every snapshot of the store.
pub open spec fn unique_ids(issues: Seq<IssueView>) -> bool {
    forall|i: int, j: int|
        0 <= i < j < issues.len() ==> (#[trigger] issues[i]).id != (#[trigger] issues[j]).id
}

/// Whether `issue` passes the label filter: any issue where there is none,
/// else one that carries exactly that label.
pub open spec fn passes(issue: IssueView, label: Option<Seq<char>>) -> bool {
    match label {
        Some(l) => issue.has_label(l),
        None => true,
    }
}

/// The issues that pass the label filter, in their order.
pub open spec fn filtered(issues: Seq<IssueView>, label: Option<Seq<char>>) -> Seq<IssueView>
    decreases issues.len(),
{
    if issues.len() == 0 {
        Seq::empty()
    } else if passes(issues.last(), label) {
        filtered(issues.drop_last(), label).push(issues.last())
    } else {
        filtered(issues.drop_last(), label)
    }
}

/// What a load hands to the board: the issues that pass the label filter,
/// by priority, most urgent first, and within one priority by update time,
/// most recent first.
pub open spec fn arranged(issues: Seq<IssueView>, label: Option<Seq<char>>) -> Seq<IssueView> {
    stable_sort(filtered(issues, label))
}

/// The characters of an optional label.
pub open spec fn label_view(label: Option<&str>) -> Option<Seq<char>> {
    match label {
        Some(l) => Some(l@),
        None => None,
    }
}

/// Every issue that the filter lets through passes it, and is one of the
/// issues given.
pub proof fn lemma_filtered(issues: Seq<IssueView>, label: Option<Seq<char>>)
    ensures
        forall|i: int|
            0 <= i < filtered(issues, label).len() ==> passes(
                #[trigger] filtered(issues, label)[i],
                label,
            ) && issues.contains(filtered(issues, label)[i]),
        filtered(issues, label).len() <= issues.len(),
        label.is_none() ==> filtered(issues, label) == issues,
    decreases issues.len(),
{
    if issues.len() > 0 {
        let init = issues.drop_last();
        lemma_filtered(init, label);
    }
}

/// The load contract: whatever is loaded passes the label filter, stands in
/// load order, and holds exactly the given issues that pass the filter.
pub proof fn lemma_arranged(issues: Seq<IssueView>, label: Option<Seq<char>>)
    ensures
        is_sorted(arranged(issues, label)),
        arranged(issues, label).to_multiset() == filtered(issues, label).to_multiset(),
        forall|i: int|
            0 <= i < arranged(issues, label).len() ==> passes(
                #[trigger] arranged(issues, label)[i],
                label,
            ),
{
    broadcast use vstd::seq_lib::group_to_multiset_ensures;

    let kept = filtered(issues, label);
    lemma_filtered(issues, label);
    lemma_stable_sort_is_sorted(kept);
    lemma_stable_sort_permutes(kept);
    assert forall|i: int| 0 <= i < arranged(issues, label).len() implies passes(
        #[trigger] arranged(issues, label)[i],
        label,
    ) by {
        let x = arranged(issues, label)[i];
        assert(kept.to_multiset().count(x) > 0);
    }
}

/// Every issue loaded is one of the issues given.
pub proof fn lemma_loaded_are_given(issues: Seq<IssueView>, label: Option<Seq<char>>)
    ensures
        arranged(issues, label).len() <= issues.len(),
        forall|i: int|
            0 <= i < arranged(issues, label).len() ==> issues.contains(
                #[trigger] arranged(issues, label)[i],
            ),
{
    broadcast use vstd::seq_lib::group_to_multiset_ensures;

    let kept = filtered(issues, label);
    lemma_filtered(issues, label);
    lemma_stable_sort_is_sorted(kept);
    lemma_stable_sort_permutes(kept);
    assert forall|i: int| 0 <= i < arranged(issues, label).len() implies issues.contains(
        #[trigger] arranged(issues, label)[i],
    ) by {
        let x = arranged(issues, label)[i];
        assert(kept.to_multiset().count(x) > 0);
        assert(kept.contains(x));
    }
}

/// Every issue loaded from records of the external tool has a priority
/// from 0 to 4.
pub proof fn lemma_loaded_record_priorities(records: Seq<BdIssue>, label: Option<Seq<char>>)
    ensures
        forall|i: int|
            0 <= i < arranged(normalized_records(records), label).len() ==> (#[trigger] arranged(
                normalized_records(records),
                label,
            )[i]).priority <= LOWEST_PRIORITY,
{
    let loaded = arranged(normalized_records(records), label);
    lemma_loaded_are_given(normalized_records(records), label);
    assert forall|i: int| 0 <= i < loaded.len() implies (#[trigger] loaded[i]).priority
        <= LOWEST_PRIORITY by {
        let k = choose|k: int|
            0 <= k < records.len() && normalized_records(records)[k] == loaded[i];
        lemma_normalized_priority(records[k]);
    }
}

/// Issues that all pass the filter pass it unchanged.
pub proof fn lemma_filtered_keeps_passing(issues: Seq<IssueView>, label: Option<Seq<char>>)
    requires
        forall|i: int| 0 <= i < issues.len() ==> passes(#[trigger] issues[i], label),
    ensures
        filtered(issues, label) == issues,
    decreases issues.len(),
{
    if issues.len() > 0 {
        let init = issues.drop_last();
        lemma_filtered_keeps_passing(init, label);
    }
}

/// What was arranged stays as it is when arranged again: a load that is
/// already filtered and in load order is taken over unchanged.
pub proof fn lemma_arranged_twice(issues: Seq<IssueView>, label: Option<Seq<char>>)
    ensures
        arranged(arranged(issues, label), label) == arranged(issues, label),
{
    lemma_arranged(issues, label);
    lemma_filtered_keeps_passing(arranged(issues, label), label);
    lemma_stable_sort_of_sorted(arranged(issues, label));
}

/// Whether `issue` carries the label `label`.
pub fn has_label(issue: &Issue, label: &str) -> (carried: bool)
    ensures
        carried == issue@.has_label(label@),
{
    let mut i: usize = 0;
    while i < issue.labels.len()
        invariant
            i <= issue.labels.len(),
            forall|k: int| 0 <= k < i ==> (#[trigger] issue@.labels[k]) != label@,
        decreases issue.labels.len() - i,
    {
        if str_eq(issue.labels[i].as_str(), label) {
            assert(issue@.labels[i as int] == label@);
            return true;
        }
        i += 1;
    }
    false
}

/// Arranges issues as the load contract asks: drops those that do not pass
/// the label filter and puts the rest in load order.
pub fn arrange(issues: Vec<Issue>, label_filter: Option<&str>) -> (loaded: Vec<Issue>)
    ensures
        views(loaded@) == arranged(views(issues@), label_view(label_filter)),
        is_sorted(views(loaded@)),
        forall|i: int|
            0 <= i < loaded@.len() ==> passes(
                #[trigger] views(loaded@)[i],
                label_view(label_filter),
            ),
{
    let ghost given = views(issues@);
    let ghost label = label_view(label_filter);
    let mut kept: Vec<Issue> = Vec::new();
    for issue in it: issues
        invariant
            views(it.seq()) == given,
            label == label_view(label_filter),
            views(kept@) == filtered(given.subrange(0, it.index()), label),
    {
        proof {
            let done = given.subrange(0, it.index() + 1);
            assert(done.drop_last() =~= given.subrange(0, it.index()));
        }
        let keep = match label_filter {
            Some(l) => has_label(&issue, l),
            None => true,
        };
        if keep {
            kept.push(issue);
        }
    }
    proof {
        assert(given.subrange(0, given.len() as int) =~= given);
        lemma_arranged(given, label);
    }
    sort_stable(kept)
}

/// The issues that records of the external tool stand for.
pub open spec fn normalized_records(records: Seq<BdIssue>) -> Seq<IssueView> {
    records.map_values(|record: BdIssue| normalized(record))
}

/// Makes of the records that the external tool listed what a load hands to
/// the board: each record normalized, the label filter and the load order
/// enforced.
pub fn load_records(records: Vec<BdIssue>, label_filter: Option<&str>) -> (loaded: Vec<Issue>)
    ensures
        views(loaded@) == arranged(normalized_records(records@), label_view(label_filter)),
        is_sorted(views(loaded@)),
        forall|i: int|
            0 <= i < loaded@.len() ==> passes(
                #[trigger] views(loaded@)[i],
                label_view(label_filter),
            ),
{
    let ghost given = records@;
    let mut issues: Vec<Issue> = Vec::new();
    for record in it: records
        invariant
            it.seq() == given,
            issues@.len() == it.index(),
            views(issues@) == normalized_records(given.subrange(0, it.index())),
    {
        let issue = Issue::from(record);
        issues.push(issue);
        proof {
            let k = it.index() as int;
            let done = normalized_records(given.subrange(0, k + 1));
            assert forall|j: int| 0 <= j < k + 1 implies views(issues@)[j] == done[j] by {
                if j < k {
                    assert(views(issues@)[j] == normalized_records(given.subrange(0, k))[j]);
                }
            }
        }
    }
    proof {
        assert(given.subrange(0, given.len() as int) =~= given);
    }
    arrange(issues, label_filter)
}

/// The position of the first issue with identifier `id`, if there is one.
pub open spec fn position_of_id(issues: Seq<IssueView>, id: Seq<char>) -> Option<int>
    decreases issues.len(),
{
    if issues.len() == 0 {
        None
    } else {
        match position_of_id(issues.drop_last(), id) {
            Some(p) => Some(p),
            None => if issues.last().id == id {
                Some(issues.len() - 1)
            } else {
                None
            },
        }
    }
}

/// `position_of_id` finds an issue with the identifier, none with it stands
/// before that one, and it finds nothing only where no issue has it.
pub proof fn lemma_position_of_id(issues: Seq<IssueView>, id: Seq<char>)
    ensures
        match position_of_id(issues, id) {
            Some(p) => {
                &&& 0 <= p < issues.len()
                &&& issues[p].id == id
                &&& forall|k: int| 0 <= k < p ==> (#[trigger] issues[k]).id != id
            },
            None => forall|k: int| 0 <= k < issues.len() ==> (#[trigger] issues[k]).id != id,
        },
    decreases issues.len(),
{
    if issues.len() > 0 {
        let init = issues.drop_last();
        lemma_position_of_id(init, id);
        match position_of_id(init, id) {
            Some(p) => {
                assert forall|k: int| 0 <= k < p implies (#[trigger] issues[k]).id != id by {
                    assert(issues[k] == init[k]);
                }
            },
            None => {
                assert forall|k: int| 0 <= k < issues.len() - 1 implies (
                #[trigger] issues[k]).id != id by {
                    assert(issues[k] == init[k]);
                }
            },
        }
    }
}

/// The position of the first issue with identifier `id`, if there is one.
pub fn find_by_id(issues: &Vec<Issue>, id: &str) -> (found: Option<usize>)
    ensures
        match found {
            Some(p) => position_of_id(views(issues@), id@) == Some(p as int),
            None => position_of_id(views(issues@), id@).is_none(),
        },
{
    let mut i: usize = 0;
    while i < issues.len()
        invariant
            i <= issues.len(),
            position_of_id(views(issues@).subrange(0, i as int), id@).is_none(),
        decreases issues.len() - i,
    {
        proof {
            let done = views(issues@).subrange(0, i + 1);
            assert(done.drop_last() =~= views(issues@).subrange(0, i as int));
        }
        if str_eq(issues[i].id.as_str(), id) {
            proof {
                lemma_position_prefix(views(issues@), id@, i + 1);
            }
            return Some(i);
        }
        i += 1;
    }
    proof {
        assert(views(issues@).subrange(0, i as int) =~= views(issues@));
    }
    None
}

/// A position found in the first `n` issues is the position in all of them.
pub proof fn lemma_position_prefix(issues: Seq<IssueView>, id: Seq<char>, n: int)
    requires
        0 <= n <= issues.len(),
        position_of_id(issues.subrange(0, n), id).is_some(),
    ensures
        position_of_id(issues, id) == position_of_id(issues.subrange(0, n), id),
    decreases issues.len() - n,
{
    if n < issues.len() {
        assert(issues.subrange(0, n + 1).drop_last() =~= issues.subrange(0, n));
        lemma_position_prefix(issues, id, n + 1);
    } else {
        assert(issues.subrange(0, n) =~= issues);
    }
}

} // verus!
