//! The issue store: where it lives, how it is queried, and what is made of
//! the rows read from it.

use crate::beads::models::{
    default_priority, status_of, Blocking, BlockingView, Issue, IssueType, IssueView, Priority, Status,
    LOWEST_PRIORITY,
};
use crate::beads::snapshot::{
    arrange, arranged, find_by_id, label_view, lemma_loaded_are_given, lemma_position_of_id,
    passes, position_of_id,
};
use crate::sorting::{is_sorted, views};
use crate::text::{opt_view, str_eq, strings_view};
use vstd::prelude::*;

verus! {

/// The directory that marks a project, looked for in the working directory
/// and its ancestors.
pub const MARKER_DIR: &'static str = ".beads";

/// The name of the database file inside the marker directory.
pub const DATABASE_FILE: &'static str = "beads.db";

/// The query that reads every issue that is not deleted, most urgent and
/// most recently updated first. Its columns are the fields of [`IssueRow`],
/// in their order. What the query leaves out and how it orders its rows is
/// not relied on: a load drops deleted rows and orders the rest itself.
pub const ALL_ISSUES_SQL: &'static str =
    "SELECT i.id, i.title, i.description, i.status, i.priority, \
     i.issue_type, i.assignee, i.created_at, i.updated_at, i.deleted_at, \
     COALESCE((SELECT json_group_array(l.label) FROM labels l WHERE l.issue_id = i.id), '[]') AS labels, \
     COALESCE((SELECT json_group_array(d.depends_on_id) FROM dependencies d WHERE d.issue_id = i.id), '[]') AS blocked_by, \
     COALESCE((SELECT json_group_array(d.issue_id) FROM dependencies d WHERE d.depends_on_id = i.id), '[]') AS blocks \
     FROM issues i WHERE i.deleted_at IS NULL \
     ORDER BY i.priority ASC, i.updated_at DESC";

/// The same query for the issues that carry one label, which is its only
/// parameter.
pub const LABELLED_ISSUES_SQL: &'static str =
    "SELECT i.id, i.title, i.description, i.status, i.priority, \
     i.issue_type, i.assignee, i.created_at, i.updated_at, i.deleted_at, \
     COALESCE((SELECT json_group_array(l.label) FROM labels l WHERE l.issue_id = i.id), '[]') AS labels, \
     COALESCE((SELECT json_group_array(d.depends_on_id) FROM dependencies d WHERE d.issue_id = i.id), '[]') AS blocked_by, \
     COALESCE((SELECT json_group_array(d.issue_id) FROM dependencies d WHERE d.depends_on_id = i.id), '[]') AS blocks \
     FROM issues i WHERE i.deleted_at IS NULL \
     AND EXISTS (SELECT 1 FROM labels WHERE labels.issue_id = i.id AND labels.label = ?1) \
     ORDER BY i.priority ASC, i.updated_at DESC";

/// Why a store could not be opened.
#[derive(Debug, Clone)]
pub enum StoreError {
    /// Neither the working directory nor one of its ancestors holds the
    /// marker directory.
    NotInProject,
    /// No database file at the path tried.
    DatabaseNotFound { path: String },
}

/// What to do next while looking for the marker directory.
#[derive(Debug, Clone, Copy, PartialEq, Eq, Structural)]
pub enum MarkerStep {
    /// The directory looked at holds the marker directory.
    Found,
    /// Look at the parent directory.
    Ascend,
    /// There is no directory left to look at.
    GiveUp,
}

/// Decides the next step of the search for the marker directory, which
/// starts at the working directory and ascends: given whether the directory
/// looked at holds the marker directory and whether it has a parent.
pub fn marker_step(holds_marker: bool, has_parent: bool) -> (step: MarkerStep)
    ensures
        holds_marker ==> step == MarkerStep::Found,
        !holds_marker && has_parent ==> step == MarkerStep::Ascend,
        !holds_marker && !has_parent ==> step == MarkerStep::GiveUp,
{
    if holds_marker {
        MarkerStep::Found
    } else if has_parent {
        MarkerStep::Ascend
    } else {
        MarkerStep::GiveUp
    }
}

impl StoreError {
    /// The message shown for this error.
    pub fn message(&self) -> (text: String)
        ensures
            match *self {
                StoreError::NotInProject => text@
                    == "Not in a beads project (no .beads directory found)"@,
                StoreError::DatabaseNotFound { path } => text@ == "Database not found: "@ + path@,
            },
    {
        match self {
            StoreError::NotInProject => {
                String::from_str("Not in a beads project (no .beads directory found)")
            },
            StoreError::DatabaseNotFound { path } => {
                String::from_str("Database not found: ").concat(path.as_str())
            },
        }
    }
}

/// A handle on the issue store: the path of its database file.
#[derive(Debug, Clone)]
pub struct BeadsDb {
    db_path: String,
}

impl View for BeadsDb {
    type V = Seq<char>;

    closed spec fn view(&self) -> Seq<char> {
        self.db_path@
    }
}

/// One row of the issues query, column for column. The priority is absent
/// where the store holds none, the time of deletion where the issue is not
/// deleted. The last three columns hold JSON arrays of strings.
#[derive(Debug, Clone)]
pub struct IssueRow {
    pub id: String,
    pub title: String,
    pub description: Option<String>,
    pub status: String,
    pub priority: Option<i64>,
    pub issue_type: String,
    pub assignee: Option<String>,
    pub created_at: String,
    pub updated_at: String,
    pub deleted_at: Option<String>,
    pub labels: String,
    pub blocked_by: String,
    pub blocks: String,
}

/// What `serde_json::from_str::<Vec<String>>` makes of a text: the strings
/// of the JSON array that the text holds, or `None` where the text is not a
/// JSON array of strings.
pub uninterp spec fn json_string_array(text: Seq<char>) -> Option<Seq<Seq<char>>>;

/// Calls `serde_json::from_str` for a list of strings and drops the error of
/// a failed parse. The parser reads nothing but the text and does not fail
/// otherwise than by returning its error.
#[verifier::external_body]
fn parse_string_array(text: &str) -> (parsed: Option<Vec<String>>)
    ensures
        match parsed {
            Some(list) => json_string_array(text@) == Some(strings_view(list@)),
            None => json_string_array(text@).is_none(),
        },
{
    serde_json::from_str::<Vec<String>>(text).ok()
}

/// The strings of a JSON array, none where the text holds no such array.
pub open spec fn string_list(text: Seq<char>) -> Seq<Seq<char>> {
    match json_string_array(text) {
        Some(list) => list,
        None => Seq::empty(),
    }
}

/// A stored priority clamped into the range of priorities.
pub open spec fn clamped_priority(raw: i64) -> u8 {
    if raw < 0 {
        0
    } else if raw > LOWEST_PRIORITY {
        LOWEST_PRIORITY
    } else {
        raw as u8
    }
}

/// The priority of a row: the stored one, clamped, and 2 where the store
/// holds none.
pub open spec fn stored_priority(raw: Option<i64>) -> u8 {
    match raw {
        Some(value) => clamped_priority(value),
        None => 2,
    }
}

/// The status that a stored status text stands for; a text that names no
/// status counts as open.
pub open spec fn stored_status(s: Seq<char>) -> Status {
    match status_of(s) {
        Status::Unknown => Status::Open,
        status => status,
    }
}

/// The issue type that a stored type text stands for; a text other than
/// bug, feature or epic counts as a task.
pub open spec fn stored_issue_type(s: Seq<char>) -> IssueType {
    if s == "bug"@ {
        IssueType::Bug
    } else if s == "feature"@ {
        IssueType::Feature
    } else if s == "epic"@ {
        IssueType::Epic
    } else {
        IssueType::Task
    }
}

/// The issue that a row of the store stands for.
pub open spec fn decoded(row: IssueRow) -> IssueView {
    IssueView {
        id: row.id@,
        title: row.title@,
        description: opt_view(row.description),
        status: stored_status(row.status@),
        priority: stored_priority(row.priority),
        issue_type: stored_issue_type(row.issue_type@),
        labels: string_list(row.labels@),
        assignee: opt_view(row.assignee),
        created_at: row.created_at@,
        updated_at: row.updated_at@,
        blocking: BlockingView::Lists {
            blocked_by: string_list(row.blocked_by@),
            blocks: string_list(row.blocks@),
        },
    }
}

/// Whatever priority a row holds, the issue it stands for has one from 0 to
/// 4: the stored one within that range, 0 for anything below, 4 for anything
/// above, and 2 where none is stored.
pub proof fn lemma_decoded_priority(row: IssueRow)
    ensures
        decoded(row).priority <= LOWEST_PRIORITY,
        match row.priority {
            Some(value) => {
                &&& 0 <= value <= LOWEST_PRIORITY ==> decoded(row).priority == value
                &&& value < 0 ==> decoded(row).priority == 0
                &&& value > LOWEST_PRIORITY ==> decoded(row).priority == LOWEST_PRIORITY
            },
            None => decoded(row).priority == 2,
        },
{
}

/// The issues that a sequence of rows stands for, in the order of the rows,
/// the rows of deleted issues left out.
pub open spec fn live_issues(rows: Seq<IssueRow>) -> Seq<IssueView>
    decreases rows.len(),
{
    if rows.len() == 0 {
        Seq::empty()
    } else if rows.last().deleted_at.is_none() {
        live_issues(rows.drop_last()).push(decoded(rows.last()))
    } else {
        live_issues(rows.drop_last())
    }
}

/// Every issue that rows stand for is that of a row that is not deleted.
pub proof fn lemma_live_issues(rows: Seq<IssueRow>)
    ensures
        live_issues(rows).len() <= rows.len(),
        forall|i: int|
            0 <= i < live_issues(rows).len() ==> exists|k: int|
                0 <= k < rows.len() && (#[trigger] rows[k]).deleted_at.is_none() && decoded(
                    rows[k],
                ) == #[trigger] live_issues(rows)[i],
    decreases rows.len(),
{
    if rows.len() > 0 {
        let init = rows.drop_last();
        lemma_live_issues(init);
        assert forall|i: int| 0 <= i < live_issues(rows).len() implies exists|k: int|
            0 <= k < rows.len() && (#[trigger] rows[k]).deleted_at.is_none() && decoded(rows[k])
                == #[trigger] live_issues(rows)[i] by {
            if i < live_issues(init).len() {
                let k = choose|k: int|
                    0 <= k < init.len() && (#[trigger] init[k]).deleted_at.is_none() && decoded(
                        init[k],
                    ) == live_issues(init)[i];
                assert(rows[k] == init[k]);
            } else {
                assert(decoded(rows[rows.len() - 1]) == live_issues(rows)[i]);
            }
        }
    }
}

/// Decodes one row of the store.
pub fn decode_row(row: IssueRow) -> (issue: Issue)
    ensures
        issue@ == decoded(row),
{
    let status = match Status::from_str(row.status.as_str()) {
        Status::Unknown => Status::Open,
        status => status,
    };
    let priority = match row.priority {
        Some(value) => if value < 0 {
            Priority(0)
        } else if value > 4 {
            Priority(LOWEST_PRIORITY)
        } else {
            Priority(value as u8)
        },
        None => Priority(default_priority()),
    };
    let issue_type = if str_eq(row.issue_type.as_str(), "bug") {
        IssueType::Bug
    } else if str_eq(row.issue_type.as_str(), "feature") {
        IssueType::Feature
    } else if str_eq(row.issue_type.as_str(), "epic") {
        IssueType::Epic
    } else {
        IssueType::Task
    };
    Issue {
        id: row.id,
        title: row.title,
        description: row.description,
        status,
        priority,
        issue_type,
        labels: string_list_of(row.labels.as_str()),
        assignee: row.assignee,
        created_at: row.created_at,
        updated_at: row.updated_at,
        blocking: Blocking::Lists {
            blocked_by: string_list_of(row.blocked_by.as_str()),
            blocks: string_list_of(row.blocks.as_str()),
        },
    }
}

/// Reads a JSON array of strings; a text that holds none gives no strings.
pub fn string_list_of(text: &str) -> (list: Vec<String>)
    ensures
        strings_view(list@) == string_list(text@),
{
    string_list_or_empty(parse_string_array(text))
}

/// The strings of a parsed array, none for a failed parse.
pub fn string_list_or_empty(parsed: Option<Vec<String>>) -> (list: Vec<String>)
    ensures
        match parsed {
            Some(given) => list == given,
            None => list@.len() == 0,
        },
{
    match parsed {
        Some(list) => list,
        None => Vec::new(),
    }
}

/// Every issue loaded from rows has a priority from 0 to 4, and is that of
/// a row that is not deleted.
pub proof fn lemma_loaded_from_rows(rows: Seq<IssueRow>, label: Option<Seq<char>>)
    ensures
        forall|i: int|
            0 <= i < arranged(live_issues(rows), label).len() ==> {
                &&& (#[trigger] arranged(live_issues(rows), label)[i]).priority <= LOWEST_PRIORITY
                &&& exists|k: int|
                    0 <= k < rows.len() && (#[trigger] rows[k]).deleted_at.is_none() && decoded(
                        rows[k],
                    ) == arranged(live_issues(rows), label)[i]
            },
{
    let loaded = arranged(live_issues(rows), label);
    lemma_loaded_are_given(live_issues(rows), label);
    lemma_live_issues(rows);
    assert forall|i: int| 0 <= i < loaded.len() implies {
        &&& (#[trigger] loaded[i]).priority <= LOWEST_PRIORITY
        &&& exists|k: int|
            0 <= k < rows.len() && (#[trigger] rows[k]).deleted_at.is_none() && decoded(rows[k])
                == loaded[i]
    } by {
        let m = choose|m: int| 0 <= m < live_issues(rows).len() && live_issues(rows)[m] == loaded[i];
        let k = choose|k: int|
            0 <= k < rows.len() && (#[trigger] rows[k]).deleted_at.is_none() && decoded(rows[k])
                == live_issues(rows)[m];
        lemma_decoded_priority(rows[k]);
    }
}

impl BeadsDb {
    /// The handle for the database file at `db_path`. `found` says whether
    /// that file exists; a store without its file is refused.
    pub fn new(db_path: String, found: bool) -> (opened: Result<BeadsDb, StoreError>)
        ensures
            found ==> opened.is_ok() && opened.unwrap()@ == db_path@,
            !found ==> opened == Err::<BeadsDb, StoreError>(
                StoreError::DatabaseNotFound { path: db_path },
            ),
    {
        if found {
            Ok(BeadsDb { db_path })
        } else {
            Err(StoreError::DatabaseNotFound { path: db_path })
        }
    }

    /// The path of the database file.
    pub fn db_path(&self) -> (path: &str)
        ensures
            path@ == self@,
    {
        self.db_path.as_str()
    }

    /// The query to run for a label filter, and with it one parameter, the
    /// label, where there is a filter.
    pub fn query(label_filter: Option<&str>) -> (sql: &'static str)
        ensures
            sql@ == (match label_filter {
                Some(_) => LABELLED_ISSUES_SQL@,
                None => ALL_ISSUES_SQL@,
            }),
    {
        match label_filter {
            Some(_) => LABELLED_ISSUES_SQL,
            None => ALL_ISSUES_SQL,
        }
    }

    /// Makes of the rows that the query returned what a load hands to the
    /// board: the rows of deleted issues dropped, each other row decoded, the
    /// label filter and the load order enforced.
    pub fn load_issues(&self, rows: Vec<IssueRow>, label_filter: Option<&str>) -> (loaded: Vec<
        Issue,
    >)
        ensures
            views(loaded@) == arranged(live_issues(rows@), label_view(label_filter)),
            is_sorted(views(loaded@)),
            forall|i: int|
                0 <= i < loaded@.len() ==> passes(
                    #[trigger] views(loaded@)[i],
                    label_view(label_filter),
                ),
    {
        let ghost given = rows@;
        let mut issues: Vec<Issue> = Vec::new();
        for row in it: rows
            invariant
                it.seq() == given,
                views(issues@) == live_issues(given.subrange(0, it.index())),
        {
            proof {
                let done = given.subrange(0, it.index() + 1);
                assert(done.drop_last() =~= given.subrange(0, it.index()));
                assert(done.last() == row);
            }
            if row.deleted_at.is_none() {
                issues.push(decode_row(row));
                assert(views(issues@) =~= live_issues(given.subrange(0, it.index() + 1)));
            }
        }
        proof {
            assert(given.subrange(0, given.len() as int) =~= given);
        }
        arrange(issues, label_filter)
    }

    /// Picks the issue with identifier `id` out of what a load returned: the
    /// first such issue, `None` where there is none, and the load's error
    /// where it failed.
    pub fn get_issue<E>(&self, loaded: Result<Vec<Issue>, E>, id: &str) -> (got: Result<
        Option<Issue>,
        E,
    >)
        ensures
            match loaded {
                Ok(issues) => match got {
                    Ok(Some(issue)) => match position_of_id(views(issues@), id@) {
                        Some(p) => 0 <= p < issues@.len() && issue == issues@[p],
                        None => false,
                    },
                    Ok(None) => position_of_id(views(issues@), id@).is_none(),
                    Err(_) => false,
                },
                Err(e) => got == Err::<Option<Issue>, E>(e),
            },
    {
        match loaded {
            Ok(issues) => {
                let mut issues = issues;
                proof {
                    lemma_position_of_id(views(issues@), id@);
                }
                match find_by_id(&issues, id) {
                    Some(p) => Ok(Some(issues.swap_remove(p))),
                    None => Ok(None),
                }
            },
            Err(e) => Err(e),
        }
    }
}

} // verus!
