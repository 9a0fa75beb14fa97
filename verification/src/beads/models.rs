//! Issues as the board sees them, and the raw records they are made from.

use crate::sorting::{Sortable, StrictOrder};
use crate::text::{
    lemma_lex_irreflexive, lemma_lex_total, lemma_lex_transitive, lex_less, opt_view, str_eq,
    str_less, strings_view,
};
use vstd::prelude::*;
use vstd::std_specs::convert::FromSpecImpl;

verus! {

/// The priority given to a record that names none.
pub fn default_priority() -> (p: u8)
    ensures
        p == 2,
{
    2
}

/// The workflow state of an issue.
#[derive(Debug, Clone, Copy, PartialEq, Eq, Structural)]
pub enum Status {
    Open,
    InProgress,
    Closed,
    Blocked,
    Deferred,
    Unknown,
}

/// The status that a backend's status text stands for.
pub open spec fn status_of(s: Seq<char>) -> Status {
    if s == "open"@ {
        Status::Open
    } else if s == "in_progress"@ {
        Status::InProgress
    } else if s == "closed"@ || s == "completed"@ {
        Status::Closed
    } else if s == "blocked"@ {
        Status::Blocked
    } else if s == "deferred"@ {
        Status::Deferred
    } else {
        Status::Unknown
    }
}

/// The text by which a status is written.
pub open spec fn status_name(status: Status) -> Seq<char> {
    match status {
        Status::Open => "open"@,
        Status::InProgress => "in_progress"@,
        Status::Closed => "closed"@,
        Status::Blocked => "blocked"@,
        Status::Deferred => "deferred"@,
        Status::Unknown => "unknown"@,
    }
}

impl Status {
    /// Reads a backend's status text; anything unrecognized is `Unknown`.
    pub fn from_str(s: &str) -> (status: Status)
        ensures
            status == status_of(s@),
    {
        if str_eq(s, "open") {
            Status::Open
        } else if str_eq(s, "in_progress") {
            Status::InProgress
        } else if str_eq(s, "closed") || str_eq(s, "completed") {
            Status::Closed
        } else if str_eq(s, "blocked") {
            Status::Blocked
        } else if str_eq(s, "deferred") {
            Status::Deferred
        } else {
            Status::Unknown
        }
    }

    /// The text by which this status is written.
    pub fn as_str(&self) -> (name: &'static str)
        ensures
            name@ == status_name(*self),
    {
        match self {
            Status::Open => "open",
            Status::InProgress => "in_progress",
            Status::Closed => "closed",
            Status::Blocked => "blocked",
            Status::Deferred => "deferred",
            Status::Unknown => "unknown",
        }
    }
}

/// The least urgent priority; larger reported values are clamped to it.
pub const LOWEST_PRIORITY: u8 = 4;

/// Urgency of an issue, 0 (most urgent) to 4.
#[derive(Debug, Clone, Copy, PartialEq, Eq, PartialOrd, Ord, Structural)]
pub struct Priority(pub u8);

/// The label of a priority value.
pub open spec fn priority_label(p: u8) -> Seq<char> {
    if p == 0 {
        "P0"@
    } else if p == 1 {
        "P1"@
    } else if p == 2 {
        "P2"@
    } else if p == 3 {
        "P3"@
    } else if p == 4 {
        "P4"@
    } else {
        "P?"@
    }
}

impl Priority {
    /// The priority for a reported value: the value itself up to 4, and 4
    /// for anything above.
    pub fn new(p: u8) -> (priority: Priority)
        ensures
            priority.0 == (if p > LOWEST_PRIORITY { LOWEST_PRIORITY } else { p }),
            priority.0 <= LOWEST_PRIORITY,
    {
        if p > LOWEST_PRIORITY {
            Priority(LOWEST_PRIORITY)
        } else {
            Priority(p)
        }
    }

    /// The short label shown for this priority.
    pub fn label(&self) -> (label: &'static str)
        ensures
            label@ == priority_label(self.0),
    {
        match self.0 {
            0 => "P0",
            1 => "P1",
            2 => "P2",
            3 => "P3",
            4 => "P4",
            _ => "P?",
        }
    }
}

impl Default for Priority {
    fn default() -> (priority: Priority)
        ensures
            priority.0 == 2,
    {
        Priority(2)
    }
}

/// The kind of work an issue describes.
#[derive(Debug, Clone, Copy, PartialEq, Eq, Structural)]
pub enum IssueType {
    Task,
    Bug,
    Feature,
    Epic,
    Chore,
    Other,
}

/// The issue type that a backend's type text stands for.
pub open spec fn issue_type_of(s: Seq<char>) -> IssueType {
    if s == "bug"@ {
        IssueType::Bug
    } else if s == "feature"@ {
        IssueType::Feature
    } else if s == "epic"@ {
        IssueType::Epic
    } else if s == "task"@ {
        IssueType::Task
    } else if s == "chore"@ {
        IssueType::Chore
    } else {
        IssueType::Other
    }
}

/// The text by which an issue type is written.
pub open spec fn issue_type_name(issue_type: IssueType) -> Seq<char> {
    match issue_type {
        IssueType::Task => "task"@,
        IssueType::Bug => "bug"@,
        IssueType::Feature => "feature"@,
        IssueType::Epic => "epic"@,
        IssueType::Chore => "chore"@,
        IssueType::Other => "other"@,
    }
}

impl IssueType {
    /// Reads a backend's type text; anything unrecognized is `Other`.
    pub fn from_str(s: &str) -> (issue_type: IssueType)
        ensures
            issue_type == issue_type_of(s@),
    {
        if str_eq(s, "bug") {
            IssueType::Bug
        } else if str_eq(s, "feature") {
            IssueType::Feature
        } else if str_eq(s, "epic") {
            IssueType::Epic
        } else if str_eq(s, "task") {
            IssueType::Task
        } else if str_eq(s, "chore") {
            IssueType::Chore
        } else {
            IssueType::Other
        }
    }

    /// The text by which this issue type is written.
    pub fn as_str(&self) -> (name: &'static str)
        ensures
            name@ == issue_type_name(*self),
    {
        match self {
            IssueType::Task => "task",
            IssueType::Bug => "bug",
            IssueType::Feature => "feature",
            IssueType::Epic => "epic",
            IssueType::Chore => "chore",
            IssueType::Other => "other",
        }
    }
}

/// One record of the external tool's JSON listing, field for field.
#[derive(Debug)]
pub struct BdIssue {
    pub id: String,
    pub title: String,
    pub description: String,
    pub status: String,
    pub priority: u8,
    pub issue_type: String,
    pub owner: String,
    pub labels: Vec<String>,
    pub dependency_count: u32,
    pub dependent_count: u32,
    pub created_at: String,
    pub updated_at: String,
}

/// What an issue waits for and what waits for it, in the form the backend
/// reports it: the identifiers themselves, or only how many there are.
#[derive(Debug, Clone)]
pub enum Blocking {
    Lists { blocked_by: Vec<String>, blocks: Vec<String> },
    Counts { dependency_count: u32, dependent_count: u32 },
}

/// The mathematical value of a [`Blocking`].
pub enum BlockingView {
    Lists { blocked_by: Seq<Seq<char>>, blocks: Seq<Seq<char>> },
    Counts { dependency_count: u32, dependent_count: u32 },
}

impl View for Blocking {
    type V = BlockingView;

    open spec fn view(&self) -> BlockingView {
        match *self {
            Blocking::Lists { blocked_by, blocks } => BlockingView::Lists {
                blocked_by: strings_view(blocked_by@),
                blocks: strings_view(blocks@),
            },
            Blocking::Counts { dependency_count, dependent_count } => BlockingView::Counts {
                dependency_count,
                dependent_count,
            },
        }
    }
}

impl BlockingView {
    /// At least one issue, listed or counted, is waited for.
    pub open spec fn is_blocked(self) -> bool {
        match self {
            BlockingView::Lists { blocked_by, blocks } => blocked_by.len() > 0,
            BlockingView::Counts { dependency_count, dependent_count } => dependency_count > 0,
        }
    }
}

/// One unit of tracked work.
#[derive(Debug, Clone)]
pub struct Issue {
    pub id: String,
    pub title: String,
    pub description: Option<String>,
    pub status: Status,
    pub priority: Priority,
    pub issue_type: IssueType,
    pub labels: Vec<String>,
    pub assignee: Option<String>,
    pub created_at: String,
    pub updated_at: String,
    pub blocking: Blocking,
}

/// The mathematical value of an [`Issue`].
pub struct IssueView {
    pub id: Seq<char>,
    pub title: Seq<char>,
    pub description: Option<Seq<char>>,
    pub status: Status,
    pub priority: u8,
    pub issue_type: IssueType,
    pub labels: Seq<Seq<char>>,
    pub assignee: Option<Seq<char>>,
    pub created_at: Seq<char>,
    pub updated_at: Seq<char>,
    pub blocking: BlockingView,
}

impl View for Issue {
    type V = IssueView;

    open spec fn view(&self) -> IssueView {
        IssueView {
            id: self.id@,
            title: self.title@,
            description: opt_view(self.description),
            status: self.status,
            priority: self.priority.0,
            issue_type: self.issue_type,
            labels: strings_view(self.labels@),
            assignee: opt_view(self.assignee),
            created_at: self.created_at@,
            updated_at: self.updated_at@,
            blocking: self.blocking@,
        }
    }
}

impl IssueView {
    /// At least one issue, listed or counted, blocks this one.
    pub open spec fn is_blocked(self) -> bool {
        self.blocking.is_blocked()
    }

    /// The issue carries exactly this label.
    pub open spec fn has_label(self, label: Seq<char>) -> bool {
        self.labels.contains(label)
    }
}

/// The order in which issues are loaded: by priority, most urgent first,
/// and within one priority by update time, most recent first.
impl StrictOrder for IssueView {
    open spec fn before(self, other: Self) -> bool {
        self.priority < other.priority || (self.priority == other.priority && lex_less(
            other.updated_at,
            self.updated_at,
        ))
    }

    proof fn lemma_strict_weak(a: Self, b: Self, c: Self) {
        lemma_lex_irreflexive(a.updated_at);
        if a.before(b) && b.before(c) {
            if a.priority == b.priority && b.priority == c.priority {
                lemma_lex_transitive(c.updated_at, b.updated_at, a.updated_at);
            }
        }
        if !a.before(b) && !b.before(c) && a.before(c) {
            // the three priorities are equal, and c < a by update time
            lemma_lex_total(b.updated_at, a.updated_at);
            if lex_less(a.updated_at, b.updated_at) {
                lemma_lex_transitive(c.updated_at, a.updated_at, b.updated_at);
            }
        }
    }
}

impl Sortable for Issue {
    fn precedes(&self, other: &Self) -> (r: bool) {
        self.priority.0 < other.priority.0 || (self.priority.0 == other.priority.0 && str_less(
            other.updated_at.as_str(),
            self.updated_at.as_str(),
        ))
    }
}

impl Issue {
    /// Whether at least one issue, listed or counted, blocks this one.
    pub fn is_blocked(&self) -> (blocked: bool)
        ensures
            blocked == self@.is_blocked(),
    {
        match &self.blocking {
            Blocking::Lists { blocked_by, blocks } => blocked_by.len() > 0,
            Blocking::Counts { dependency_count, dependent_count } => *dependency_count > 0,
        }
    }
}

/// The issue that a record of the external tool stands for: status and type
/// read from their text, the priority clamped, an empty owner or description
/// counted as absent.
pub open spec fn issue_of(bd: BdIssue) -> Issue {
    Issue {
        id: bd.id,
        title: bd.title,
        description: if bd.description@.len() == 0 {
            None
        } else {
            Some(bd.description)
        },
        status: status_of(bd.status@),
        priority: Priority(
            if bd.priority > LOWEST_PRIORITY {
                LOWEST_PRIORITY
            } else {
                bd.priority
            },
        ),
        issue_type: issue_type_of(bd.issue_type@),
        labels: bd.labels,
        assignee: if bd.owner@.len() == 0 {
            None
        } else {
            Some(bd.owner)
        },
        created_at: bd.created_at,
        updated_at: bd.updated_at,
        blocking: Blocking::Counts {
            dependency_count: bd.dependency_count,
            dependent_count: bd.dependent_count,
        },
    }
}

/// The mathematical value of the issue that a record stands for.
pub open spec fn normalized(bd: BdIssue) -> IssueView {
    issue_of(bd)@
}

/// Whatever priority a record reports, the issue it stands for has one from
/// 0 to 4: the reported one up to 4, and 4 for anything above.
pub proof fn lemma_normalized_priority(bd: BdIssue)
    ensures
        normalized(bd).priority <= LOWEST_PRIORITY,
        bd.priority <= LOWEST_PRIORITY ==> normalized(bd).priority == bd.priority,
        bd.priority > LOWEST_PRIORITY ==> normalized(bd).priority == LOWEST_PRIORITY,
{
}

impl From<BdIssue> for Issue {
    /// Normalizes one record of the external tool.
    fn from(bd: BdIssue) -> (issue: Issue)
        ensures
            issue == issue_of(bd),
    {
        let status = Status::from_str(bd.status.as_str());
        let priority = Priority::new(bd.priority);
        let issue_type = IssueType::from_str(bd.issue_type.as_str());
        let assignee = if bd.owner.as_str().is_empty() {
            None
        } else {
            Some(bd.owner)
        };
        let description = if bd.description.as_str().is_empty() {
            None
        } else {
            Some(bd.description)
        };
        let issue = Issue {
            id: bd.id,
            title: bd.title,
            description,
            status,
            priority,
            issue_type,
            labels: bd.labels,
            assignee,
            created_at: bd.created_at,
            updated_at: bd.updated_at,
            blocking: Blocking::Counts {
                dependency_count: bd.dependency_count,
                dependent_count: bd.dependent_count,
            },
        };
        assert(issue == issue_of(bd));
        issue
    }
}

impl FromSpecImpl<BdIssue> for Issue {
    open spec fn obeys_from_spec() -> bool {
        true
    }

    open spec fn from_spec(bd: BdIssue) -> Issue {
        issue_of(bd)
    }
}

} // verus!
