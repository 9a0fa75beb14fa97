//! The application state: which view is shown, what is selected in it, and
//! how keys and reloads change that.

use crate::beads::db::BeadsDb;
use crate::beads::snapshot::{
    find_by_id, lemma_position_of_id, lemma_position_prefix, position_of_id,
};
use crate::beads::models::{Issue, IssueView, Status};
use crate::sorting::views;
use crate::text::{opt_view, str_eq};
use crate::ui::search::{all_highlights_fit, rank, ranked, SearchResult, SearchResultView};
use vstd::prelude::*;
use vstd::view::View as _;

verus! {

/// The view on screen.
#[derive(Debug, Clone, Copy, PartialEq, Eq, Structural)]
pub enum View {
    Board,
    Detail,
    Search,
}

/// A column of the board.
#[derive(Debug, Clone, Copy, PartialEq, Eq, Structural)]
pub enum Column {
    Open,
    InProgress,
    Done,
}

/// The column to the right, the first one following the last.
pub open spec fn next_column(column: Column) -> Column {
    match column {
        Column::Open => Column::InProgress,
        Column::InProgress => Column::Done,
        Column::Done => Column::Open,
    }
}

/// The column to the left, the last one preceding the first.
pub open spec fn prev_column(column: Column) -> Column {
    match column {
        Column::Open => Column::Done,
        Column::InProgress => Column::Open,
        Column::Done => Column::InProgress,
    }
}

/// The status that a column is named after.
pub open spec fn column_status(column: Column) -> Status {
    match column {
        Column::Open => Status::Open,
        Column::InProgress => Status::InProgress,
        Column::Done => Status::Closed,
    }
}

/// The column that shows issues of a status. Work in progress and closed
/// work have columns of their own; every other status, open or not known to
/// the board, is shown as open.
pub open spec fn column_of(status: Status) -> Column {
    match status {
        Status::InProgress => Column::InProgress,
        Status::Closed => Column::Done,
        _ => Column::Open,
    }
}

impl Column {
    /// The column to the right, wrapping around.
    pub fn next(&self) -> (column: Column)
        ensures
            column == next_column(*self),
    {
        match self {
            Column::Open => Column::InProgress,
            Column::InProgress => Column::Done,
            Column::Done => Column::Open,
        }
    }

    /// The column to the left, wrapping around.
    pub fn prev(&self) -> (column: Column)
        ensures
            column == prev_column(*self),
    {
        match self {
            Column::Open => Column::Done,
            Column::InProgress => Column::Open,
            Column::Done => Column::InProgress,
        }
    }

    /// The status that this column is named after.
    pub fn status(&self) -> (status: Status)
        ensures
            status == column_status(*self),
    {
        match self {
            Column::Open => Status::Open,
            Column::InProgress => Status::InProgress,
            Column::Done => Status::Closed,
        }
    }

    /// The column that shows issues of `status`.
    pub fn of(status: Status) -> (column: Column)
        ensures
            column == column_of(status),
    {
        match status {
            Status::InProgress => Column::InProgress,
            Status::Closed => Column::Done,
            _ => Column::Open,
        }
    }
}

/// The key of a key event, as far as the board tells keys apart.
#[derive(Debug, Clone, Copy, PartialEq, Eq, Structural)]
pub enum KeyCode {
    Backspace,
    Enter,
    Left,
    Right,
    Up,
    Down,
    Home,
    End,
    PageUp,
    PageDown,
    Esc,
    Char(char),
    Other,
}

/// Whether a key went down, is held, or came up.
#[derive(Debug, Clone, Copy, PartialEq, Eq, Structural)]
pub enum KeyEventKind {
    Press,
    Repeat,
    Release,
}

/// One key event from the terminal.
#[derive(Debug, Clone, Copy, PartialEq, Eq, Structural)]
pub struct KeyEvent {
    pub code: KeyCode,
    pub kind: KeyEventKind,
    /// The control key was held.
    pub control: bool,
}

/// What the caller is to do after a key was handled.
#[derive(Debug, Clone, Copy, PartialEq, Eq, Structural)]
pub enum Action {
    /// Nothing.
    Continue,
    /// Load the issues anew and hand the outcome to `App::reload_issues`.
    Reload,
}

/// The issues of `issues` that `column` shows, in their order.
pub open spec fn column_issues(issues: Seq<IssueView>, column: Column) -> Seq<IssueView>
    decreases issues.len(),
{
    if issues.len() == 0 {
        Seq::empty()
    } else if column_of(issues.last().status) == column {
        column_issues(issues.drop_last(), column).push(issues.last())
    } else {
        column_issues(issues.drop_last(), column)
    }
}

/// A selection kept in range: 0 for an empty list, else at most the last
/// position.
pub open spec fn clamp_index(index: int, count: int) -> int {
    if count <= 0 {
        0
    } else if index >= count {
        count - 1
    } else {
        index
    }
}

/// The scroll step of one page: the viewport's height, at least 1.
pub open spec fn page_step(viewport_height: int) -> int {
    if viewport_height > 1 {
        viewport_height
    } else {
        1
    }
}

/// The application state.
pub struct App {
    pub db: BeadsDb,
    pub label_filter: Option<String>,
    pub issues: Vec<Issue>,
    pub current_view: View,
    pub selected_column: Column,
    pub selected_index: usize,
    pub should_quit: bool,
    pub detail_scroll: u16,
    pub detail_scroll_max: u16,
    pub detail_viewport_height: u16,
    pub search_query: String,
    pub search_results: Vec<SearchResult>,
    pub search_selected: usize,
}

/// The mathematical value of an [`App`].
pub struct AppView {
    pub db: Seq<char>,
    pub label_filter: Option<Seq<char>>,
    pub issues: Seq<IssueView>,
    pub current_view: View,
    pub selected_column: Column,
    pub selected_index: int,
    pub should_quit: bool,
    pub detail_scroll: int,
    pub detail_scroll_max: int,
    pub detail_viewport_height: int,
    pub search_query: Seq<char>,
    pub search_results: Seq<SearchResultView>,
    pub search_selected: int,
}

impl vstd::view::View for App {
    type V = AppView;

    open spec fn view(&self) -> AppView {
        AppView {
            db: self.db@,
            label_filter: opt_view(self.label_filter),
            issues: views(self.issues@),
            current_view: self.current_view,
            selected_column: self.selected_column,
            selected_index: self.selected_index as int,
            should_quit: self.should_quit,
            detail_scroll: self.detail_scroll as int,
            detail_scroll_max: self.detail_scroll_max as int,
            detail_viewport_height: self.detail_viewport_height as int,
            search_query: self.search_query@,
            search_results: views(self.search_results@),
            search_selected: self.search_selected as int,
        }
    }
}

impl AppView {
    /// The issues that `column` shows.
    pub open spec fn column(self, column: Column) -> Seq<IssueView> {
        column_issues(self.issues, column)
    }

    /// The issue under the board's selection, if there is one.
    pub open spec fn selected_issue(self) -> Option<IssueView> {
        let shown = self.column(self.selected_column);
        if 0 <= self.selected_index < shown.len() {
            Some(shown[self.selected_index])
        } else {
            None
        }
    }

    /// The state is consistent: each selection is inside its list, or 0 where
    /// the list is empty; the scroll position is inside its bounds; and while
    /// the search view is shown, the results are those of the query.
    pub open spec fn wf(self) -> bool {
        &&& self.selected_index == clamp_index(
            self.selected_index,
            self.column(self.selected_column).len() as int,
        )
        &&& 0 <= self.selected_index
        &&& 0 <= self.detail_scroll <= self.detail_scroll_max
        &&& 0 <= self.search_selected
        &&& self.search_selected == clamp_index(
            self.search_selected,
            self.search_results.len() as int,
        )
        &&& self.current_view == View::Search ==> self.search_results == ranked(
            self.issues,
            self.search_query,
        )
    }

    /// While the search view is shown, every result names one of the issues,
    /// and every position to highlight lies inside that issue's title.
    pub open spec fn highlights_fit(self) -> bool {
        self.current_view == View::Search ==> all_highlights_fit(self.search_results, self.issues)
    }

    /// The state at start: the board, its first column, nothing scrolled and
    /// nothing searched for.
    pub open spec fn initial(
        db: Seq<char>,
        label_filter: Option<Seq<char>>,
        issues: Seq<IssueView>,
    ) -> AppView {
        AppView {
            db,
            label_filter,
            issues,
            current_view: View::Board,
            selected_column: Column::Open,
            selected_index: 0,
            should_quit: false,
            detail_scroll: 0,
            detail_scroll_max: 0,
            detail_viewport_height: 0,
            search_query: Seq::empty(),
            search_results: Seq::empty(),
            search_selected: 0,
        }
    }

    /// The search results computed anew for the query as it stands, and the
    /// selection among them kept in range.
    pub open spec fn searched(self) -> AppView {
        let results = ranked(self.issues, self.search_query);
        AppView {
            search_results: results,
            search_selected: clamp_index(self.search_selected, results.len() as int),
            ..self
        }
    }

    /// The state after the issues were replaced by `issues`: the board's
    /// selection stays at its position, clamped to the new length of its
    /// column; the scroll position is clamped to the bound last measured; and
    /// in the search view the query, unchanged, is searched for again.
    pub open spec fn reconciled(self, issues: Seq<IssueView>) -> AppView {
        let replaced = AppView {
            issues,
            selected_index: clamp_index(
                self.selected_index,
                column_issues(issues, self.selected_column).len() as int,
            ),
            detail_scroll: if self.detail_scroll > self.detail_scroll_max {
                self.detail_scroll_max
            } else {
                self.detail_scroll
            },
            ..self
        };
        if self.current_view == View::Search {
            replaced.searched()
        } else {
            replaced
        }
    }

    /// The state after the presentation measured the detail view: the new
    /// bounds are taken over and the scroll position is clamped to them.
    pub open spec fn measured(self, scroll_max: int, viewport_height: int) -> AppView {
        AppView {
            detail_scroll_max: scroll_max,
            detail_viewport_height: viewport_height,
            detail_scroll: if self.detail_scroll > scroll_max {
                scroll_max
            } else {
                self.detail_scroll
            },
            ..self
        }
    }

    /// The board with `column` selected and its first row.
    pub open spec fn moved_to(self, column: Column) -> AppView {
        AppView { selected_column: column, selected_index: 0, ..self }
    }

    /// One row up, staying on the first.
    pub open spec fn row_up(self) -> AppView {
        if self.selected_index > 0 {
            AppView { selected_index: self.selected_index - 1, ..self }
        } else {
            self
        }
    }

    /// One row down, staying on the last.
    pub open spec fn row_down(self) -> AppView {
        let count = self.column(self.selected_column).len();
        if count > 0 && self.selected_index < count - 1 {
            AppView { selected_index: self.selected_index + 1, ..self }
        } else {
            self
        }
    }

    /// The detail view of the selected issue, from its top; nothing changes
    /// where no issue is selected.
    pub open spec fn opened_detail(self) -> AppView {
        if self.selected_issue().is_some() {
            AppView { detail_scroll: 0, current_view: View::Detail, ..self }
        } else {
            self
        }
    }

    /// The search view with an empty query: all issues, the first selected.
    pub open spec fn started_search(self) -> AppView {
        AppView { current_view: View::Search, ..self.edited(Seq::empty()) }
    }

    /// The search for `query` in place of the former one, its first result
    /// selected.
    pub open spec fn edited(self, query: Seq<char>) -> AppView {
        AppView {
            search_query: query,
            search_results: ranked(self.issues, query),
            search_selected: 0,
            ..self
        }
    }

    /// The detail view scrolled to `position`.
    pub open spec fn scrolled_to(self, position: int) -> AppView {
        AppView { detail_scroll: position, ..self }
    }

    /// One line down, at most to the bound.
    pub open spec fn line_down(self) -> AppView {
        if self.detail_scroll < self.detail_scroll_max {
            self.scrolled_to(self.detail_scroll + 1)
        } else {
            self
        }
    }

    /// One line up, at most to the top.
    pub open spec fn line_up(self) -> AppView {
        if self.detail_scroll > 0 {
            self.scrolled_to(self.detail_scroll - 1)
        } else {
            self
        }
    }

    /// One page down, at most to the bound.
    pub open spec fn page_down(self) -> AppView {
        let target = self.detail_scroll + page_step(self.detail_viewport_height);
        if target > self.detail_scroll_max {
            self.scrolled_to(self.detail_scroll_max)
        } else {
            self.scrolled_to(target)
        }
    }

    /// One page up, at most to the top.
    pub open spec fn page_up(self) -> AppView {
        let target = self.detail_scroll - page_step(self.detail_viewport_height);
        if target < 0 {
            self.scrolled_to(0)
        } else {
            self.scrolled_to(target)
        }
    }

    /// One result up, staying on the first.
    pub open spec fn result_up(self) -> AppView {
        if self.search_selected > 0 {
            AppView { search_selected: self.search_selected - 1, ..self }
        } else {
            self
        }
    }

    /// One result down, staying on the last.
    pub open spec fn result_down(self) -> AppView {
        if self.search_results.len() > 0 && self.search_selected < self.search_results.len() - 1 {
            AppView { search_selected: self.search_selected + 1, ..self }
        } else {
            self
        }
    }

    /// The detail view of the selected search result. The board's selection
    /// moves to the issue: to the column of its status as it is now, and to
    /// its row there. Nothing changes where no result is selected, or where
    /// the issue is no longer among the issues.
    pub open spec fn opened_result(self) -> AppView {
        if 0 <= self.search_selected < self.search_results.len() {
            let id = self.search_results[self.search_selected].issue_id;
            match position_of_id(self.issues, id) {
                Some(p) => {
                    let column = column_of(self.issues[p].status);
                    let row = match position_of_id(self.column(column), id) {
                        Some(row) => row,
                        None => 0,
                    };
                    AppView {
                        selected_column: column,
                        selected_index: row,
                        detail_scroll: 0,
                        current_view: View::Detail,
                        ..self
                    }
                },
                None => self,
            }
        } else {
            self
        }
    }

    /// The state after a key pressed in the board view.
    pub open spec fn board_key(self, key: KeyEvent) -> AppView {
        match key.code {
            KeyCode::Esc => AppView { should_quit: true, ..self },
            KeyCode::Left => self.moved_to(prev_column(self.selected_column)),
            KeyCode::Right => self.moved_to(next_column(self.selected_column)),
            KeyCode::Up => self.row_up(),
            KeyCode::Down => self.row_down(),
            KeyCode::Enter => self.opened_detail(),
            KeyCode::Char(c) => if c == 'q' {
                AppView { should_quit: true, ..self }
            } else if c == 'h' {
                self.moved_to(prev_column(self.selected_column))
            } else if c == 'l' {
                self.moved_to(next_column(self.selected_column))
            } else if c == 'k' {
                self.row_up()
            } else if c == 'j' {
                self.row_down()
            } else if c == '/' {
                self.started_search()
            } else {
                self
            },
            _ => self,
        }
    }

    /// The state after a key pressed in the detail view.
    pub open spec fn detail_key(self, key: KeyEvent) -> AppView {
        match key.code {
            KeyCode::Esc => AppView { detail_scroll: 0, current_view: View::Board, ..self },
            KeyCode::Down => self.line_down(),
            KeyCode::Up => self.line_up(),
            KeyCode::Home => self.scrolled_to(0),
            KeyCode::End => self.scrolled_to(self.detail_scroll_max),
            KeyCode::PageDown => self.page_down(),
            KeyCode::PageUp => self.page_up(),
            KeyCode::Char(c) => if c == 'q' {
                AppView { detail_scroll: 0, current_view: View::Board, ..self }
            } else if c == 'j' {
                self.line_down()
            } else if c == 'k' {
                self.line_up()
            } else if c == 'g' {
                self.scrolled_to(0)
            } else if c == 'G' {
                self.scrolled_to(self.detail_scroll_max)
            } else {
                self
            },
            _ => self,
        }
    }

    /// The state after a key pressed in the search view.
    pub open spec fn search_key(self, key: KeyEvent) -> AppView {
        match key.code {
            KeyCode::Esc => AppView { current_view: View::Board, ..self },
            KeyCode::Enter => self.opened_result(),
            KeyCode::Up => self.result_up(),
            KeyCode::Down => self.result_down(),
            KeyCode::Backspace => if self.search_query.len() > 0 {
                self.edited(self.search_query.drop_last())
            } else {
                self.edited(self.search_query)
            },
            KeyCode::Char(c) => if c == 'u' && key.control {
                self.edited(Seq::empty())
            } else {
                self.edited(self.search_query.push(c))
            },
            _ => self,
        }
    }

    /// The state after a key event: events other than presses change
    /// nothing, a press goes to the view on screen.
    pub open spec fn on_key(self, key: KeyEvent) -> AppView {
        if key.kind != KeyEventKind::Press {
            self
        } else {
            match self.current_view {
                View::Board => self.board_key(key),
                View::Detail => self.detail_key(key),
                View::Search => self.search_key(key),
            }
        }
    }

    /// What a key event asks of the caller: a reload for `r` pressed in the
    /// board view, else nothing.
    pub open spec fn action_for(self, key: KeyEvent) -> Action {
        if key.kind == KeyEventKind::Press && self.current_view == View::Board && key.code
            == KeyCode::Char('r') {
            Action::Reload
        } else {
            Action::Continue
        }
    }
}

/// The row of the first issue with identifier `id` among `shown`, 0 where
/// there is none.
fn row_of(shown: &Vec<&Issue>, id: &str) -> (row: usize)
    ensures
        row as int == match position_of_id(views(shown@), id@) {
            Some(r) => r,
            None => 0,
        },
{
    let mut i: usize = 0;
    while i < shown.len()
        invariant
            i <= shown.len(),
            position_of_id(views(shown@).subrange(0, i as int), id@).is_none(),
        decreases shown.len() - i,
    {
        proof {
            let done = views(shown@).subrange(0, i + 1);
            assert(done.drop_last() =~= views(shown@).subrange(0, i as int));
        }
        if str_eq(shown[i].id.as_str(), id) {
            proof {
                lemma_position_prefix(views(shown@), id@, i + 1);
            }
            return i;
        }
        i += 1;
    }
    proof {
        assert(views(shown@).subrange(0, i as int) =~= views(shown@));
    }
    0
}

impl App {
    /// The application at start, showing what the first load returned; the
    /// load's error where it failed.
    pub fn new<E>(db: BeadsDb, label_filter: Option<String>, loaded: Result<Vec<Issue>, E>) -> (made:
        Result<App, E>)
        ensures
            match loaded {
                Ok(issues) => match made {
                    Ok(app) => app@ == AppView::initial(
                        db@,
                        opt_view(label_filter),
                        views(issues@),
                    ) && app@.wf() && app@.highlights_fit(),
                    Err(_) => false,
                },
                Err(e) => made == Err::<App, E>(e),
            },
    {
        match loaded {
            Ok(issues) => {
                let app = App {
                    db,
                    label_filter,
                    issues,
                    current_view: View::Board,
                    selected_column: Column::Open,
                    selected_index: 0,
                    should_quit: false,
                    detail_scroll: 0,
                    detail_scroll_max: 0,
                    detail_viewport_height: 0,
                    search_query: String::new(),
                    search_results: Vec::new(),
                    search_selected: 0,
                };
                proof {
                    assert(app@.search_results =~= Seq::empty());
                }
                Ok(app)
            },
            Err(e) => Err(e),
        }
    }

    /// Takes over the outcome of a load. Issues that were loaded replace the
    /// present ones and the state is reconciled with them; a failed load
    /// changes nothing and its error is handed back.
    pub fn reload_issues<E>(&mut self, loaded: Result<Vec<Issue>, E>) -> (done: Result<(), E>)
        ensures
            match loaded {
                Ok(issues) => done.is_ok() && final(self)@ == old(self)@.reconciled(views(issues@)),
                Err(e) => done == Err::<(), E>(e) && *final(self) == *old(self),
            },
            old(self)@.wf() ==> final(self)@.wf(),
            old(self)@.highlights_fit() ==> final(self)@.highlights_fit(),
    {
        match loaded {
            Ok(issues) => {
                self.reconcile(issues);
                Ok(())
            },
            Err(e) => Err(e),
        }
    }

    /// Replaces the issues and reconciles selection, scroll position and
    /// search results with the new ones.
    pub fn reconcile(&mut self, new_issues: Vec<Issue>)
        ensures
            final(self)@ == old(self)@.reconciled(views(new_issues@)),
            old(self)@.wf() ==> final(self)@.wf(),
            final(self)@.highlights_fit(),
    {
        proof {
            if self@.wf() {
                lemma_reconciled_wf(self@, views(new_issues@));
            }
        }
        self.issues = new_issues;
        self.clamp_selection();
        if self.detail_scroll > self.detail_scroll_max {
            self.detail_scroll = self.detail_scroll_max;
        }
        if self.current_view == View::Search {
            self.update_search_results();
        }
    }

    /// Takes over what the presentation measured while drawing the detail
    /// view, and clamps the scroll position to the new bound.
    pub fn measure_detail(&mut self, scroll_max: u16, viewport_height: u16)
        ensures
            final(self)@ == old(self)@.measured(scroll_max as int, viewport_height as int),
            old(self)@.wf() ==> final(self)@.wf(),
            old(self)@.highlights_fit() ==> final(self)@.highlights_fit(),
    {
        self.detail_scroll_max = scroll_max;
        self.detail_viewport_height = viewport_height;
        if self.detail_scroll > scroll_max {
            self.detail_scroll = scroll_max;
        }
    }

    /// The issues that `column` shows, in their order.
    pub fn get_column_issues(&self, column: Column) -> (shown: Vec<&Issue>)
        ensures
            views(shown@) == self@.column(column),
    {
        let mut shown: Vec<&Issue> = Vec::new();
        let mut i: usize = 0;
        while i < self.issues.len()
            invariant
                i <= self.issues.len(),
                shown@.len() <= i,
                views(shown@) == column_issues(views(self.issues@).subrange(0, i as int), column),
            decreases self.issues.len() - i,
        {
            proof {
                let done = views(self.issues@).subrange(0, i + 1);
                assert(done.drop_last() =~= views(self.issues@).subrange(0, i as int));
            }
            let issue = &self.issues[i];
            if Column::of(issue.status) == column {
                shown.push(issue);
            }
            i += 1;
        }
        proof {
            assert(views(self.issues@).subrange(0, i as int) =~= views(self.issues@));
        }
        shown
    }

    /// The issue under the board's selection, if there is one.
    pub fn selected_issue(&self) -> (selected: Option<&Issue>)
        ensures
            match selected {
                Some(issue) => self@.selected_issue() == Some(issue@),
                None => self@.selected_issue().is_none(),
            },
    {
        let shown = self.get_column_issues(self.selected_column);
        if self.selected_index < shown.len() {
            Some(shown[self.selected_index])
        } else {
            None
        }
    }

    /// Handles one key event and says what the caller is to do next.
    pub fn handle_key(&mut self, key: KeyEvent) -> (action: Action)
        ensures
            final(self)@ == old(self)@.on_key(key),
            action == old(self)@.action_for(key),
            old(self)@.wf() ==> final(self)@.wf(),
            old(self)@.highlights_fit() ==> final(self)@.highlights_fit(),
    {
        proof {
            if self@.wf() {
                lemma_on_key_wf(self@, key);
            }
        }
        match key.kind {
            KeyEventKind::Press => {},
            _ => {
                return Action::Continue;
            },
        }
        match self.current_view {
            View::Board => self.handle_board_key(key),
            View::Detail => {
                self.handle_detail_key(key);
                Action::Continue
            },
            View::Search => {
                self.handle_search_key(key);
                Action::Continue
            },
        }
    }

    fn handle_board_key(&mut self, key: KeyEvent) -> (action: Action)
        ensures
            final(self)@ == old(self)@.board_key(key),
            action == (if key.code == KeyCode::Char('r') {
                Action::Reload
            } else {
                Action::Continue
            }),
            old(self)@.highlights_fit() ==> final(self)@.highlights_fit(),
    {
        match key.code {
            KeyCode::Char('q') | KeyCode::Esc => {
                self.should_quit = true;
            },
            KeyCode::Char('r') => {
                return Action::Reload;
            },
            KeyCode::Left | KeyCode::Char('h') => {
                self.selected_column = self.selected_column.prev();
                self.selected_index = 0;
            },
            KeyCode::Right | KeyCode::Char('l') => {
                self.selected_column = self.selected_column.next();
                self.selected_index = 0;
            },
            KeyCode::Up | KeyCode::Char('k') => {
                if self.selected_index > 0 {
                    self.selected_index -= 1;
                }
            },
            KeyCode::Down | KeyCode::Char('j') => {
                let count = self.get_column_issues(self.selected_column).len();
                if count > 0 && self.selected_index < count - 1 {
                    self.selected_index += 1;
                }
            },
            KeyCode::Enter => {
                if self.selected_issue().is_some() {
                    self.detail_scroll = 0;
                    self.current_view = View::Detail;
                }
            },
            KeyCode::Char('/') => {
                self.search_query.clear();
                self.search_selected = 0;
                self.update_search_results();
                self.current_view = View::Search;
            },
            _ => {},
        }
        Action::Continue
    }

    fn handle_detail_key(&mut self, key: KeyEvent)
        ensures
            final(self)@ == old(self)@.detail_key(key),
            old(self)@.highlights_fit() ==> final(self)@.highlights_fit(),
    {
        match key.code {
            KeyCode::Esc | KeyCode::Char('q') => {
                self.detail_scroll = 0;
                self.current_view = View::Board;
            },
            KeyCode::Down | KeyCode::Char('j') => {
                if self.detail_scroll < self.detail_scroll_max {
                    self.detail_scroll += 1;
                }
            },
            KeyCode::Up | KeyCode::Char('k') => {
                if self.detail_scroll > 0 {
                    self.detail_scroll -= 1;
                }
            },
            KeyCode::Char('g') | KeyCode::Home => {
                self.detail_scroll = 0;
            },
            KeyCode::Char('G') | KeyCode::End => {
                self.detail_scroll = self.detail_scroll_max;
            },
            KeyCode::PageDown => {
                let step: u16 = if self.detail_viewport_height > 1 {
                    self.detail_viewport_height
                } else {
                    1
                };
                if self.detail_scroll_max < self.detail_scroll || self.detail_scroll_max
                    - self.detail_scroll < step {
                    self.detail_scroll = self.detail_scroll_max;
                } else {
                    self.detail_scroll += step;
                }
            },
            KeyCode::PageUp => {
                let step: u16 = if self.detail_viewport_height > 1 {
                    self.detail_viewport_height
                } else {
                    1
                };
                if self.detail_scroll < step {
                    self.detail_scroll = 0;
                } else {
                    self.detail_scroll -= step;
                }
            },
            _ => {},
        }
    }

    fn handle_search_key(&mut self, key: KeyEvent)
        ensures
            final(self)@ == old(self)@.search_key(key),
            old(self)@.highlights_fit() ==> final(self)@.highlights_fit(),
    {
        match key.code {
            KeyCode::Esc => {
                self.current_view = View::Board;
            },
            KeyCode::Enter => {
                self.open_result();
            },
            KeyCode::Up => {
                if self.search_selected > 0 {
                    self.search_selected -= 1;
                }
            },
            KeyCode::Down => {
                let count = self.search_results.len();
                if count > 0 && self.search_selected < count - 1 {
                    self.search_selected += 1;
                }
            },
            KeyCode::Backspace => {
                self.search_query.pop();
                self.search_selected = 0;
                self.update_search_results();
            },
            KeyCode::Char(c) => {
                if c == 'u' && key.control {
                    self.search_query.clear();
                } else {
                    self.search_query.push(c);
                }
                self.search_selected = 0;
                self.update_search_results();
            },
            _ => {},
        }
    }

    /// Opens the detail view of the selected search result.
    fn open_result(&mut self)
        ensures
            final(self)@ == old(self)@.opened_result(),
    {
        if self.search_selected < self.search_results.len() {
            let id = self.search_results[self.search_selected].issue_id.as_str();
            proof {
                lemma_position_of_id(self@.issues, id@);
            }
            match find_by_id(&self.issues, id) {
                Some(p) => {
                    let column = Column::of(self.issues[p].status);
                    let shown = self.get_column_issues(column);
                    let row = row_of(&shown, id);
                    self.selected_column = column;
                    self.selected_index = row;
                    self.detail_scroll = 0;
                    self.current_view = View::Detail;
                },
                None => {},
            }
        }
    }

    /// Searches for the query as it stands and keeps the selection among the
    /// results in range.
    pub fn update_search_results(&mut self)
        ensures
            final(self)@ == old(self)@.searched(),
            all_highlights_fit(final(self)@.search_results, final(self)@.issues),
    {
        self.search_results = rank(&self.issues, self.search_query.as_str());
        let count = self.search_results.len();
        if count == 0 {
            self.search_selected = 0;
        } else if self.search_selected >= count {
            self.search_selected = count - 1;
        }
    }

    /// Keeps the board's selection inside its column.
    fn clamp_selection(&mut self)
        ensures
            final(self)@ == (AppView {
                selected_index: clamp_index(
                    old(self)@.selected_index,
                    old(self)@.column(old(self).selected_column).len() as int,
                ),
                ..old(self)@
            }),
    {
        let count = self.get_column_issues(self.selected_column).len();
        if count == 0 {
            self.selected_index = 0;
        } else if self.selected_index >= count {
            self.selected_index = count - 1;
        }
    }
}

/// In every column the issue at position `p` of `issues` is found by its
/// identifier among the issues of its own column.
pub proof fn lemma_found_in_own_column(issues: Seq<IssueView>, p: int)
    requires
        0 <= p < issues.len(),
    ensures
        match position_of_id(column_issues(issues, column_of(issues[p].status)), issues[p].id) {
            Some(row) => 0 <= row < column_issues(issues, column_of(issues[p].status)).len(),
            None => false,
        },
    decreases issues.len(),
{
    let column = column_of(issues[p].status);
    let id = issues[p].id;
    let init = issues.drop_last();
    if p < issues.len() - 1 {
        lemma_found_in_own_column(init, p);
        lemma_position_of_id(column_issues(init, column), id);
        if column_of(issues.last().status) == column {
            assert(column_issues(issues, column).drop_last() =~= column_issues(init, column));
        }
    } else {
        assert(column_issues(issues, column).drop_last() =~= column_issues(init, column));
        lemma_position_of_id(column_issues(init, column), id);
    }
}

/// Reconciling a consistent state with any issues gives a consistent state.
pub proof fn lemma_reconciled_wf(state: AppView, issues: Seq<IssueView>)
    requires
        state.wf(),
    ensures
        state.reconciled(issues).wf(),
{
}

/// Handling a key in a consistent state gives a consistent state.
pub proof fn lemma_on_key_wf(state: AppView, key: KeyEvent)
    requires
        state.wf(),
    ensures
        state.on_key(key).wf(),
{
    if key.kind == KeyEventKind::Press && state.current_view == View::Search && key.code
        == KeyCode::Enter {
        if 0 <= state.search_selected < state.search_results.len() {
            let id = state.search_results[state.search_selected].issue_id;
            lemma_position_of_id(state.issues, id);
            match position_of_id(state.issues, id) {
                Some(p) => {
                    lemma_found_in_own_column(state.issues, p);
                },
                None => {},
            }
        }
    }
}

/// The columns part the issues: each issue is shown in the column of its
/// status and in no other, and the three columns together hold every issue
/// exactly as often as the issues do.
pub proof fn lemma_columns_partition(issues: Seq<IssueView>)
    ensures
        forall|i: int, column: Column|
            0 <= i < issues.len() ==> (#[trigger] column_issues(issues, column).contains(
                #[trigger] issues[i],
            ) <==> column == column_of(issues[i].status)),
        issues.to_multiset() == column_issues(issues, Column::Open).to_multiset().add(
            column_issues(issues, Column::InProgress).to_multiset(),
        ).add(column_issues(issues, Column::Done).to_multiset()),
        issues.len() == column_issues(issues, Column::Open).len() + column_issues(
            issues,
            Column::InProgress,
        ).len() + column_issues(issues, Column::Done).len(),
    decreases issues.len(),
{
    broadcast use vstd::seq_lib::group_to_multiset_ensures;

    if issues.len() == 0 {
    } else {
        let init = issues.drop_last();
        let last = issues.last();
        lemma_columns_partition(init);
        lemma_column_members(issues, Column::Open);
        lemma_column_members(issues, Column::InProgress);
        lemma_column_members(issues, Column::Done);
        assert(issues =~= init.push(last));
        assert forall|i: int, column: Column| 0 <= i < issues.len() implies (
        #[trigger] column_issues(issues, column).contains(#[trigger] issues[i]) <==> column
            == column_of(issues[i].status)) by {
            lemma_column_members(issues, column);
            if column == column_of(issues[i].status) {
                if i < init.len() {
                    assert(column_issues(init, column).contains(init[i]));
                    let k = choose|k: int|
                        0 <= k < column_issues(init, column).len() && column_issues(
                            init,
                            column,
                        )[k] == init[i];
                    assert(column_issues(issues, column)[k] == issues[i]);
                } else {
                    assert(column_issues(issues, column).last() == issues[i]);
                }
            } else if column_issues(issues, column).contains(issues[i]) {
                let k = choose|k: int|
                    0 <= k < column_issues(issues, column).len() && column_issues(
                        issues,
                        column,
                    )[k] == issues[i];
            }
        }
    }
}

/// Every issue that a column shows has a status of that column and is one
/// of the issues.
pub proof fn lemma_column_members(issues: Seq<IssueView>, column: Column)
    ensures
        column_issues(issues, column).len() <= issues.len(),
        forall|k: int|
            0 <= k < column_issues(issues, column).len() ==> column_of(
                (#[trigger] column_issues(issues, column)[k]).status,
            ) == column && issues.contains(column_issues(issues, column)[k]),
    decreases issues.len(),
{
    if issues.len() > 0 {
        let init = issues.drop_last();
        lemma_column_members(init, column);
    }
}

/// After a switch of columns the first row is selected.
pub proof fn lemma_column_switch_selects_first(state: AppView, key: KeyEvent)
    requires
        state.current_view == View::Board,
        key.kind == KeyEventKind::Press,
        key.code == KeyCode::Left || key.code == KeyCode::Right || key.code == KeyCode::Char('h')
            || key.code == KeyCode::Char('l'),
    ensures
        state.on_key(key).selected_index == 0,
        state.on_key(key).selected_column == (if key.code == KeyCode::Left || key.code
            == KeyCode::Char('h') {
            prev_column(state.selected_column)
        } else {
            next_column(state.selected_column)
        }),
{
}

/// Moving between rows never leaves the column: the selection stays between
/// its first and its last row, and at 0 where the column is empty.
pub proof fn lemma_row_navigation_in_range(state: AppView, key: KeyEvent)
    requires
        state.wf(),
        state.current_view == View::Board,
        key.kind == KeyEventKind::Press,
        key.code == KeyCode::Up || key.code == KeyCode::Down || key.code == KeyCode::Char('k')
            || key.code == KeyCode::Char('j'),
    ensures
        state.on_key(key).selected_column == state.selected_column,
        state.on_key(key).issues == state.issues,
        0 <= state.on_key(key).selected_index,
        state.column(state.selected_column).len() > 0 ==> state.on_key(key).selected_index
            <= state.column(state.selected_column).len() - 1,
        state.column(state.selected_column).len() == 0 ==> state.on_key(key).selected_index == 0,
{
}

/// After a reload the selection is inside its column as it is now, and at 0
/// where the column has become empty.
pub proof fn lemma_reload_keeps_selection_in_range(state: AppView, issues: Seq<IssueView>)
    requires
        0 <= state.selected_index,
    ensures
        state.reconciled(issues).selected_column == state.selected_column,
        0 <= state.reconciled(issues).selected_index,
        column_issues(issues, state.selected_column).len() > 0 ==> state.reconciled(
            issues,
        ).selected_index < column_issues(issues, state.selected_column).len(),
        column_issues(issues, state.selected_column).len() == 0 ==> state.reconciled(
            issues,
        ).selected_index == 0,
{
}

/// A reload in the search view keeps the query and searches the new issues
/// for it; the selection among the results is clamped, not reset.
pub proof fn lemma_reload_keeps_query(state: AppView, issues: Seq<IssueView>)
    requires
        state.current_view == View::Search,
    ensures
        state.reconciled(issues).search_query == state.search_query,
        state.reconciled(issues).search_results == ranked(issues, state.search_query),
        state.reconciled(issues).search_selected == clamp_index(
            state.search_selected,
            ranked(issues, state.search_query).len() as int,
        ),
        state.reconciled(issues).current_view == View::Search,
{
}

/// A query that matches no issue leaves no result and the selection at 0.
pub proof fn lemma_no_match_selects_nothing(state: AppView, query: Seq<char>)
    requires
        query.len() > 0,
        forall|i: int|
            0 <= i < state.issues.len() ==> crate::ui::search::found_in(
                #[trigger] state.issues[i],
                query,
            ).is_none(),
    ensures
        state.edited(query).search_results.len() == 0,
        state.edited(query).search_selected == 0,
        (AppView { search_query: query, ..state }).searched().search_results.len() == 0,
        (AppView { search_query: query, ..state }).searched().search_selected == 0,
{
    crate::ui::search::lemma_no_match_no_results(state.issues, query);
}

/// The view changes only along the transitions of the state machine: from
/// the board to the detail or the search view, from the detail view back to
/// the board, from the search view to the board or the detail view. The
/// detail view is entered only with an issue selected, and only the board
/// ever asks to quit.
pub proof fn lemma_view_transitions(state: AppView, key: KeyEvent)
    ensures
        state.current_view == View::Detail ==> state.on_key(key).current_view != View::Search,
        state.current_view != View::Detail && state.on_key(key).current_view == View::Detail
            ==> state.on_key(key).selected_issue().is_some() && state.on_key(key).detail_scroll
            == 0,
        state.current_view != View::Board ==> state.on_key(key).should_quit == state.should_quit,
        state.on_key(key).issues == state.issues,
        state.on_key(key).detail_scroll_max == state.detail_scroll_max,
        state.on_key(key).detail_viewport_height == state.detail_viewport_height,
{
    if key.kind == KeyEventKind::Press && state.current_view == View::Search && key.code
        == KeyCode::Enter && 0 <= state.search_selected < state.search_results.len()
        && position_of_id(
        state.issues,
        state.search_results[state.search_selected].issue_id,
    ).is_some() {
        lemma_opened_result_selects_it(state);
    }
}

/// Opening a search result whose issue is still among the issues selects
/// that issue on the board: the selected issue has the result's identifier
/// and stands in the column of its status.
pub proof fn lemma_opened_result_selects_it(state: AppView)
    requires
        0 <= state.search_selected < state.search_results.len(),
        position_of_id(
            state.issues,
            state.search_results[state.search_selected].issue_id,
        ).is_some(),
    ensures
        state.opened_result().current_view == View::Detail,
        state.opened_result().detail_scroll == 0,
        match state.opened_result().selected_issue() {
            Some(issue) => issue.id == state.search_results[state.search_selected].issue_id
                && column_of(issue.status) == state.opened_result().selected_column,
            None => false,
        },
{
    let id = state.search_results[state.search_selected].issue_id;
    lemma_position_of_id(state.issues, id);
    let p = position_of_id(state.issues, id).unwrap();
    let column = column_of(state.issues[p].status);
    lemma_found_in_own_column(state.issues, p);
    lemma_position_of_id(column_issues(state.issues, column), id);
    lemma_column_members(state.issues, column);
}

} // verus!
