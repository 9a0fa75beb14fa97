use brui::beads::{arrange, BeadsDb, Blocking, Issue, IssueType, Priority, Status};
use brui::ui::{Action, App, Column, KeyCode, KeyEvent, KeyEventKind, View};

fn issue(id: &str, priority: u8, title: &str, status: Status) -> Issue {
    Issue {
        id: id.to_string(),
        title: title.to_string(),
        description: None,
        status,
        priority: Priority::new(priority),
        issue_type: IssueType::Task,
        labels: Vec::new(),
        assignee: None,
        created_at: "2025-01-01".to_string(),
        updated_at: "2025-01-01".to_string(),
        blocking: Blocking::Counts { dependency_count: 0, dependent_count: 0 },
    }
}

fn snapshot() -> Vec<Issue> {
    vec![
        issue("o1", 0, "Fix login bug", Status::Open),
        issue("w1", 0, "Ship search", Status::InProgress),
        issue("o2", 1, "Fix signup", Status::Open),
        issue("d1", 1, "Write docs", Status::Closed),
        issue("o3", 2, "Export bug", Status::Blocked),
        issue("w2", 2, "Refactor bug list", Status::InProgress),
        issue("o4", 3, "Triage", Status::Unknown),
        issue("o5", 4, "Someday", Status::Deferred),
    ]
}

fn app_with(issues: Vec<Issue>) -> App {
    let db = BeadsDb::new("/work/.beads/beads.db".to_string(), true).unwrap();
    match App::new::<String>(db, Some("ralph".to_string()), Ok(issues)) {
        Ok(app) => app,
        Err(e) => panic!("{}", e),
    }
}

fn app() -> App {
    app_with(snapshot())
}

fn press(code: KeyCode) -> KeyEvent {
    KeyEvent { code, kind: KeyEventKind::Press, control: false }
}

fn ch(c: char) -> KeyEvent {
    press(KeyCode::Char(c))
}

fn type_text(app: &mut App, text: &str) {
    for c in text.chars() {
        assert_eq!(app.handle_key(ch(c)), Action::Continue);
    }
}

fn column_ids(app: &App, column: Column) -> Vec<String> {
    app.get_column_issues(column).iter().map(|i| i.id.clone()).collect()
}

fn result_ids(app: &App) -> Vec<String> {
    app.search_results.iter().map(|r| r.issue_id.clone()).collect()
}

fn reload(app: &mut App, issues: Vec<Issue>) {
    assert!(app.reload_issues::<String>(Ok(issues)).is_ok());
}

#[test]
fn board_starts_on_the_first_open_issue() {
    let app = app();
    assert_eq!(app.current_view, View::Board);
    assert_eq!(app.selected_column, Column::Open);
    assert_eq!(app.selected_index, 0);
    assert!(!app.should_quit);
    assert_eq!(app.detail_scroll, 0);
    assert_eq!(app.detail_scroll_max, 0);
    assert_eq!(app.detail_viewport_height, 0);
    assert_eq!(app.search_query, "");
    assert!(app.search_results.is_empty());
    assert_eq!(app.search_selected, 0);
    assert_eq!(app.label_filter.as_deref(), Some("ralph"));
    assert_eq!(app.db.db_path(), "/work/.beads/beads.db");
    assert_eq!(app.issues.len(), 8);
    assert_eq!(app.selected_issue().map(|i| i.id.as_str()), Some("o1"));
}

#[test]
fn failed_first_load_fails_the_start() {
    let db = BeadsDb::new("/work/.beads/beads.db".to_string(), true).unwrap();
    let made = App::new(db, None, Err("no such table: issues".to_string()));
    assert_eq!(made.err(), Some("no such table: issues".to_string()));
}

#[test]
fn columns_part_the_issues() {
    let app = app();
    assert_eq!(column_ids(&app, Column::Open), vec!["o1", "o2", "o3", "o4", "o5"]);
    assert_eq!(column_ids(&app, Column::InProgress), vec!["w1", "w2"]);
    assert_eq!(column_ids(&app, Column::Done), vec!["d1"]);
    let shown = column_ids(&app, Column::Open).len()
        + column_ids(&app, Column::InProgress).len()
        + column_ids(&app, Column::Done).len();
    assert_eq!(shown, app.issues.len());
}

#[test]
fn statuses_without_a_column_are_shown_as_open() {
    assert_eq!(Column::of(Status::Open), Column::Open);
    assert_eq!(Column::of(Status::Blocked), Column::Open);
    assert_eq!(Column::of(Status::Deferred), Column::Open);
    assert_eq!(Column::of(Status::Unknown), Column::Open);
    assert_eq!(Column::of(Status::InProgress), Column::InProgress);
    assert_eq!(Column::of(Status::Closed), Column::Done);
}

#[test]
fn columns_wrap_around() {
    assert_eq!(Column::Open.next(), Column::InProgress);
    assert_eq!(Column::InProgress.next(), Column::Done);
    assert_eq!(Column::Done.next(), Column::Open);
    assert_eq!(Column::Open.prev(), Column::Done);
    assert_eq!(Column::InProgress.prev(), Column::Open);
    assert_eq!(Column::Done.prev(), Column::InProgress);
}

#[test]
fn columns_are_named_after_a_status() {
    assert_eq!(Column::Open.status(), Status::Open);
    assert_eq!(Column::InProgress.status(), Status::InProgress);
    assert_eq!(Column::Done.status(), Status::Closed);
    for column in [Column::Open, Column::InProgress, Column::Done] {
        assert_eq!(Column::of(column.status()), column);
    }
}

#[test]
fn column_switch_selects_the_first_row() {
    let mut app = app();
    app.handle_key(press(KeyCode::Down));
    app.handle_key(press(KeyCode::Down));
    assert_eq!(app.selected_index, 2);
    app.handle_key(press(KeyCode::Right));
    assert_eq!((app.selected_column, app.selected_index), (Column::InProgress, 0));
    app.handle_key(press(KeyCode::Down));
    assert_eq!(app.selected_index, 1);
    app.handle_key(ch('l'));
    assert_eq!((app.selected_column, app.selected_index), (Column::Done, 0));
    app.handle_key(press(KeyCode::Right));
    assert_eq!((app.selected_column, app.selected_index), (Column::Open, 0));
    app.handle_key(press(KeyCode::Down));
    app.handle_key(press(KeyCode::Left));
    assert_eq!((app.selected_column, app.selected_index), (Column::Done, 0));
    app.handle_key(ch('h'));
    assert_eq!((app.selected_column, app.selected_index), (Column::InProgress, 0));
}

#[test]
fn rows_do_not_wrap() {
    let mut app = app();
    app.handle_key(press(KeyCode::Up));
    assert_eq!(app.selected_index, 0);
    app.handle_key(ch('k'));
    assert_eq!(app.selected_index, 0);
    for expected in [1, 2, 3, 4, 4, 4] {
        app.handle_key(press(KeyCode::Down));
        assert_eq!(app.selected_index, expected);
    }
    app.handle_key(ch('j'));
    assert_eq!(app.selected_index, 4);
    app.handle_key(ch('k'));
    assert_eq!(app.selected_index, 3);
    assert_eq!(app.selected_issue().map(|i| i.id.as_str()), Some("o4"));
}

#[test]
fn rows_of_an_empty_column() {
    let mut app = app_with(vec![issue("o1", 0, "Only", Status::Open)]);
    app.handle_key(press(KeyCode::Right));
    app.handle_key(press(KeyCode::Down));
    assert_eq!(app.selected_index, 0);
    app.handle_key(press(KeyCode::Up));
    assert_eq!(app.selected_index, 0);
    assert!(app.selected_issue().is_none());
}

#[test]
fn confirm_opens_the_selected_issue() {
    let mut app = app();
    app.detail_scroll = 5;
    app.detail_scroll_max = 9;
    app.handle_key(press(KeyCode::Down));
    assert_eq!(app.handle_key(press(KeyCode::Enter)), Action::Continue);
    assert_eq!(app.current_view, View::Detail);
    assert_eq!(app.detail_scroll, 0);
    assert_eq!(app.selected_issue().map(|i| i.id.as_str()), Some("o2"));
}

#[test]
fn confirm_without_a_selected_issue_stays_on_the_board() {
    let mut app = app_with(Vec::new());
    app.handle_key(press(KeyCode::Enter));
    assert_eq!(app.current_view, View::Board);
}

#[test]
fn quit_keys_of_the_board() {
    let mut app = app();
    assert_eq!(app.handle_key(ch('q')), Action::Continue);
    assert!(app.should_quit);
    let mut app = self::app();
    app.handle_key(press(KeyCode::Esc));
    assert!(app.should_quit);
}

#[test]
fn refresh_key_asks_for_a_reload() {
    let mut app = app();
    app.handle_key(press(KeyCode::Down));
    assert_eq!(app.handle_key(ch('r')), Action::Reload);
    assert_eq!(app.selected_index, 1);
    assert_eq!(app.current_view, View::Board);
    assert_eq!(app.issues.len(), 8);
}

#[test]
fn refresh_key_is_of_the_board_only() {
    let mut app = app();
    app.handle_key(press(KeyCode::Enter));
    assert_eq!(app.handle_key(ch('r')), Action::Continue);
    app.handle_key(press(KeyCode::Esc));
    app.handle_key(ch('/'));
    assert_eq!(app.handle_key(ch('r')), Action::Continue);
    assert_eq!(app.search_query, "r");
}

#[test]
fn only_presses_count() {
    let mut app = app();
    for kind in [KeyEventKind::Release, KeyEventKind::Repeat] {
        let action = app.handle_key(KeyEvent { code: KeyCode::Char('q'), kind, control: false });
        assert_eq!(action, Action::Continue);
        app.handle_key(KeyEvent { code: KeyCode::Down, kind, control: false });
        app.handle_key(KeyEvent { code: KeyCode::Char('r'), kind, control: false });
    }
    assert!(!app.should_quit);
    assert_eq!(app.selected_index, 0);
}

#[test]
fn other_keys_change_nothing() {
    let mut app = app();
    app.handle_key(press(KeyCode::Other));
    app.handle_key(ch('x'));
    app.handle_key(press(KeyCode::Home));
    app.handle_key(press(KeyCode::Backspace));
    assert_eq!(app.current_view, View::Board);
    assert_eq!((app.selected_column, app.selected_index), (Column::Open, 0));
    assert!(!app.should_quit);
}

#[test]
fn detail_scrolls_by_line_within_its_bounds() {
    let mut app = app();
    app.handle_key(press(KeyCode::Enter));
    app.measure_detail(3, 10);
    app.handle_key(press(KeyCode::Up));
    assert_eq!(app.detail_scroll, 0);
    for expected in [1, 2, 3, 3] {
        app.handle_key(press(KeyCode::Down));
        assert_eq!(app.detail_scroll, expected);
    }
    app.handle_key(ch('k'));
    assert_eq!(app.detail_scroll, 2);
    app.handle_key(ch('j'));
    assert_eq!(app.detail_scroll, 3);
}

#[test]
fn detail_jumps_to_top_and_bottom() {
    let mut app = app();
    app.handle_key(press(KeyCode::Enter));
    app.measure_detail(40, 10);
    app.handle_key(press(KeyCode::End));
    assert_eq!(app.detail_scroll, 40);
    app.handle_key(press(KeyCode::Home));
    assert_eq!(app.detail_scroll, 0);
    app.handle_key(ch('G'));
    assert_eq!(app.detail_scroll, 40);
    app.handle_key(ch('g'));
    assert_eq!(app.detail_scroll, 0);
}

#[test]
fn detail_pages_by_the_viewport_height() {
    let mut app = app();
    app.handle_key(press(KeyCode::Enter));
    app.measure_detail(25, 10);
    for expected in [10, 20, 25, 25] {
        app.handle_key(press(KeyCode::PageDown));
        assert_eq!(app.detail_scroll, expected);
    }
    for expected in [15, 5, 0, 0] {
        app.handle_key(press(KeyCode::PageUp));
        assert_eq!(app.detail_scroll, expected);
    }
}

#[test]
fn page_is_at_least_one_line() {
    let mut app = app();
    app.handle_key(press(KeyCode::Enter));
    app.measure_detail(2, 0);
    app.handle_key(press(KeyCode::PageDown));
    assert_eq!(app.detail_scroll, 1);
    app.handle_key(press(KeyCode::PageDown));
    assert_eq!(app.detail_scroll, 2);
    app.handle_key(press(KeyCode::PageUp));
    assert_eq!(app.detail_scroll, 1);
}

#[test]
fn page_down_at_the_largest_positions() {
    let mut app = app();
    app.handle_key(press(KeyCode::Enter));
    app.measure_detail(u16::MAX, u16::MAX);
    app.handle_key(press(KeyCode::Down));
    app.handle_key(press(KeyCode::PageDown));
    assert_eq!(app.detail_scroll, u16::MAX);
    app.handle_key(press(KeyCode::Down));
    assert_eq!(app.detail_scroll, u16::MAX);
}

#[test]
fn leaving_the_detail_view_resets_the_scroll() {
    for key in [press(KeyCode::Esc), ch('q')] {
        let mut app = app();
        app.handle_key(press(KeyCode::Enter));
        app.measure_detail(9, 3);
        app.handle_key(press(KeyCode::End));
        app.handle_key(key);
        assert_eq!(app.current_view, View::Board);
        assert_eq!(app.detail_scroll, 0);
        assert!(!app.should_quit);
    }
}

#[test]
fn measuring_clamps_the_scroll() {
    let mut app = app();
    app.handle_key(press(KeyCode::Enter));
    app.measure_detail(30, 12);
    assert_eq!((app.detail_scroll_max, app.detail_viewport_height), (30, 12));
    app.handle_key(press(KeyCode::End));
    app.measure_detail(30, 12);
    assert_eq!(app.detail_scroll, 30);
    app.measure_detail(7, 12);
    assert_eq!(app.detail_scroll, 7);
    app.measure_detail(0, 40);
    assert_eq!(app.detail_scroll, 0);
}

#[test]
fn reload_that_shortens_the_content_reclamps_the_scroll() {
    let long = "line\n".repeat(100);
    let mut first = issue("o1", 0, "Long", Status::Open);
    first.description = Some(long);
    let mut app = app_with(vec![first]);
    app.handle_key(press(KeyCode::Enter));
    assert_eq!(app.detail_scroll, 0);
    // presentation: 100 lines in a viewport of 20
    app.measure_detail(80, 20);
    app.handle_key(press(KeyCode::End));
    assert_eq!(app.detail_scroll, 80);
    let mut shorter = issue("o1", 0, "Long", Status::Open);
    shorter.description = Some("line\n".repeat(30));
    reload(&mut app, vec![shorter]);
    // until the next frame is measured the old bound holds
    assert!(app.detail_scroll <= app.detail_scroll_max);
    assert_eq!(app.current_view, View::Detail);
    // next frame: 30 lines in a viewport of 20
    app.measure_detail(10, 20);
    assert_eq!(app.detail_scroll, 10);
    assert!(app.detail_scroll <= app.detail_scroll_max);
}

#[test]
fn reload_clamps_a_scroll_beyond_the_bound() {
    let mut app = app();
    app.detail_scroll = 50;
    app.detail_scroll_max = 20;
    reload(&mut app, snapshot());
    assert_eq!(app.detail_scroll, 20);
}

#[test]
fn reload_replaces_the_issues() {
    let mut app = app();
    reload(&mut app, vec![issue("n1", 1, "New", Status::Closed)]);
    assert_eq!(app.issues.len(), 1);
    assert!(column_ids(&app, Column::Open).is_empty());
    assert_eq!(column_ids(&app, Column::Done), vec!["n1"]);
}

#[test]
fn reload_keeps_the_selection_by_position() {
    let mut app = app();
    app.handle_key(press(KeyCode::Down));
    assert_eq!(app.selected_issue().map(|i| i.id.as_str()), Some("o2"));
    let mut changed = snapshot();
    changed.insert(0, issue("o0", 0, "Newest", Status::Open));
    reload(&mut app, changed);
    assert_eq!(app.selected_index, 1);
    assert_eq!(app.selected_issue().map(|i| i.id.as_str()), Some("o1"));
}

#[test]
fn reload_clamps_the_selection_to_a_shorter_column() {
    let mut app = app();
    for _ in 0..4 {
        app.handle_key(press(KeyCode::Down));
    }
    assert_eq!(app.selected_index, 4);
    let fewer: Vec<Issue> = snapshot().into_iter().filter(|i| i.priority.0 < 2).collect();
    reload(&mut app, fewer);
    assert_eq!(app.selected_column, Column::Open);
    assert_eq!(app.selected_index, 1);
    assert_eq!(app.selected_issue().map(|i| i.id.as_str()), Some("o2"));
}

#[test]
fn reload_that_empties_the_column_selects_zero() {
    let mut app = app();
    app.handle_key(press(KeyCode::Right));
    app.handle_key(press(KeyCode::Down));
    assert_eq!((app.selected_column, app.selected_index), (Column::InProgress, 1));
    let rest: Vec<Issue> =
        snapshot().into_iter().filter(|i| i.status != Status::InProgress).collect();
    reload(&mut app, rest);
    assert_eq!((app.selected_column, app.selected_index), (Column::InProgress, 0));
    assert!(app.selected_issue().is_none());
    reload(&mut app, Vec::new());
    assert_eq!(app.selected_index, 0);
}

#[test]
fn failed_reload_changes_nothing() {
    let mut app = app();
    app.handle_key(press(KeyCode::Down));
    app.handle_key(ch('/'));
    type_text(&mut app, "bug");
    app.handle_key(press(KeyCode::Down));
    let results = result_ids(&app);
    let failed = app.reload_issues(Err("database is locked".to_string()));
    assert_eq!(failed, Err("database is locked".to_string()));
    assert_eq!(app.issues.len(), 8);
    assert_eq!(app.current_view, View::Search);
    assert_eq!(app.search_query, "bug");
    assert_eq!(app.search_selected, 1);
    assert_eq!(result_ids(&app), results);
    assert_eq!(app.selected_index, 1);
}

#[test]
fn search_starts_with_every_issue() {
    let mut app = app();
    app.search_query = "stale".to_string();
    app.search_selected = 3;
    assert_eq!(app.handle_key(ch('/')), Action::Continue);
    assert_eq!(app.current_view, View::Search);
    assert_eq!(app.search_query, "");
    assert_eq!(app.search_selected, 0);
    assert_eq!(result_ids(&app), vec!["o1", "w1", "o2", "d1", "o3", "w2", "o4", "o5"]);
    assert!(app.search_results.iter().all(|r| r.score == 0 && r.title_match_indices.is_empty()));
}

#[test]
fn typing_searches_anew_and_selects_the_first_result() {
    let mut app = app();
    app.handle_key(ch('/'));
    app.handle_key(press(KeyCode::Down));
    app.handle_key(press(KeyCode::Down));
    assert_eq!(app.search_selected, 2);
    type_text(&mut app, "b");
    assert_eq!(app.search_query, "b");
    assert_eq!(app.search_selected, 0);
    type_text(&mut app, "ug");
    assert_eq!(app.search_query, "bug");
    let mut found = result_ids(&app);
    found.sort();
    assert_eq!(found, vec!["o1", "o3", "w2"]);
    assert_eq!(app.search_selected, 0);
}

#[test]
fn search_query_takes_any_character() {
    let mut app = app();
    app.handle_key(ch('/'));
    type_text(&mut app, "q/r é世");
    assert_eq!(app.search_query, "q/r é世");
    assert_eq!(app.current_view, View::Search);
    assert!(!app.should_quit);
    app.handle_key(KeyEvent { code: KeyCode::Char('c'), kind: KeyEventKind::Press, control: true });
    assert_eq!(app.search_query, "q/r é世c");
}

#[test]
fn search_goes_on_past_any_length_of_query() {
    let title = "ab ".repeat(130);
    let mut app = app_with(vec![
        issue("long", 1, &title, Status::Open),
        issue("short", 1, "ab", Status::Open),
    ]);
    app.handle_key(ch('/'));
    type_text(&mut app, &"ab".repeat(130));
    assert_eq!(app.search_query.chars().count(), 260);
    assert_eq!(result_ids(&app), vec!["long"]);
    assert_eq!(app.search_results[0].title_match_indices.len(), 260);
    type_text(&mut app, "ab");
    assert!(app.search_results.is_empty());
    app.handle_key(press(KeyCode::Backspace));
    app.handle_key(press(KeyCode::Backspace));
    assert_eq!(result_ids(&app), vec!["long"]);
}

#[test]
fn backspace_removes_the_last_character() {
    let mut app = app();
    app.handle_key(ch('/'));
    type_text(&mut app, "bué");
    assert!(app.search_results.is_empty());
    app.handle_key(press(KeyCode::Backspace));
    assert_eq!(app.search_query, "bu");
    assert!(!app.search_results.is_empty());
    app.handle_key(press(KeyCode::Down));
    app.handle_key(press(KeyCode::Backspace));
    assert_eq!(app.search_query, "b");
    assert_eq!(app.search_selected, 0);
    app.handle_key(press(KeyCode::Backspace));
    app.handle_key(press(KeyCode::Backspace));
    assert_eq!(app.search_query, "");
    assert_eq!(app.search_results.len(), 8);
}

#[test]
fn control_u_clears_the_query() {
    let mut app = app();
    app.handle_key(ch('/'));
    type_text(&mut app, "bug");
    app.handle_key(press(KeyCode::Down));
    app.handle_key(KeyEvent { code: KeyCode::Char('u'), kind: KeyEventKind::Press, control: true });
    assert_eq!(app.search_query, "");
    assert_eq!(app.search_selected, 0);
    assert_eq!(app.search_results.len(), 8);
    app.handle_key(ch('u'));
    assert_eq!(app.search_query, "u");
}

#[test]
fn result_selection_does_not_wrap() {
    let mut app = app();
    app.handle_key(ch('/'));
    type_text(&mut app, "bug");
    assert_eq!(app.search_results.len(), 3);
    app.handle_key(press(KeyCode::Up));
    assert_eq!(app.search_selected, 0);
    for expected in [1, 2, 2] {
        app.handle_key(press(KeyCode::Down));
        assert_eq!(app.search_selected, expected);
    }
    app.handle_key(press(KeyCode::Up));
    assert_eq!(app.search_selected, 1);
}

#[test]
fn query_without_match_leaves_nothing_selected() {
    let mut app = app();
    app.handle_key(ch('/'));
    app.handle_key(press(KeyCode::Down));
    type_text(&mut app, "zzzz");
    assert!(app.search_results.is_empty());
    assert_eq!(app.search_selected, 0);
    app.handle_key(press(KeyCode::Down));
    assert_eq!(app.search_selected, 0);
    app.handle_key(press(KeyCode::Enter));
    assert_eq!(app.current_view, View::Search);
}

#[test]
fn cancel_leaves_the_search() {
    let mut app = app();
    app.handle_key(press(KeyCode::Down));
    app.handle_key(ch('/'));
    type_text(&mut app, "bug");
    app.handle_key(press(KeyCode::Esc));
    assert_eq!(app.current_view, View::Board);
    assert!(!app.should_quit);
    assert_eq!((app.selected_column, app.selected_index), (Column::Open, 1));
}

#[test]
fn confirm_opens_the_result_on_its_card() {
    let mut app = app();
    app.detail_scroll_max = 9;
    app.detail_scroll = 4;
    app.handle_key(ch('/'));
    type_text(&mut app, "refactor");
    assert_eq!(result_ids(&app), vec!["w2"]);
    app.handle_key(press(KeyCode::Enter));
    assert_eq!(app.current_view, View::Detail);
    assert_eq!((app.selected_column, app.selected_index), (Column::InProgress, 1));
    assert_eq!(app.detail_scroll, 0);
    assert_eq!(app.selected_issue().map(|i| i.id.as_str()), Some("w2"));
    app.handle_key(press(KeyCode::Esc));
    assert_eq!(app.current_view, View::Board);
}

#[test]
fn confirm_finds_the_card_of_a_folded_status() {
    let mut app = app();
    app.handle_key(press(KeyCode::Right));
    app.handle_key(ch('/'));
    type_text(&mut app, "someday");
    app.handle_key(press(KeyCode::Enter));
    assert_eq!((app.selected_column, app.selected_index), (Column::Open, 4));
    assert_eq!(app.selected_issue().map(|i| i.id.as_str()), Some("o5"));
}

#[test]
fn confirm_follows_the_status_as_it_is_now() {
    let mut app = app();
    app.handle_key(ch('/'));
    type_text(&mut app, "docs");
    assert_eq!(result_ids(&app), vec!["d1"]);
    let mut changed = snapshot();
    changed[3].status = Status::InProgress;
    reload(&mut app, changed);
    app.handle_key(press(KeyCode::Enter));
    assert_eq!((app.selected_column, app.selected_index), (Column::InProgress, 1));
    assert_eq!(app.selected_issue().map(|i| i.id.as_str()), Some("d1"));
}

#[test]
fn confirm_on_a_result_that_is_gone_changes_nothing() {
    let mut app = app();
    app.handle_key(ch('/'));
    type_text(&mut app, "docs");
    // results as they were before the issue went away
    app.issues.retain(|i| i.id != "d1");
    app.handle_key(press(KeyCode::Enter));
    assert_eq!(app.current_view, View::Search);
    assert_eq!((app.selected_column, app.selected_index), (Column::Open, 0));
}

#[test]
fn reload_in_search_keeps_the_query_and_searches_the_new_issues() {
    let mut app = app();
    app.handle_key(ch('/'));
    type_text(&mut app, "bug");
    app.handle_key(press(KeyCode::Down));
    app.handle_key(press(KeyCode::Down));
    assert_eq!(app.search_selected, 2);
    let changed = vec![
        issue("n1", 0, "New bug", Status::Open),
        issue("n2", 1, "No match here", Status::Open),
        issue("o1", 2, "Fix login bug", Status::Closed),
    ];
    reload(&mut app, changed);
    assert_eq!(app.current_view, View::Search);
    assert_eq!(app.search_query, "bug");
    let mut found = result_ids(&app);
    found.sort();
    assert_eq!(found, vec!["n1", "o1"]);
    assert_eq!(app.search_selected, 1);
    reload(&mut app, vec![issue("n2", 1, "No match here", Status::Open)]);
    assert_eq!(app.search_query, "bug");
    assert!(app.search_results.is_empty());
    assert_eq!(app.search_selected, 0);
}

#[test]
fn reload_outside_the_search_leaves_old_results() {
    let mut app = app();
    app.handle_key(ch('/'));
    type_text(&mut app, "bug");
    app.handle_key(press(KeyCode::Esc));
    let before = result_ids(&app);
    reload(&mut app, Vec::new());
    assert_eq!(result_ids(&app), before);
    app.handle_key(ch('/'));
    assert!(app.search_results.is_empty());
}

#[test]
fn searching_again_keeps_the_selection_in_range() {
    let mut app = app();
    app.current_view = View::Search;
    app.search_query = "bug".to_string();
    app.search_selected = 7;
    app.update_search_results();
    assert_eq!(app.search_results.len(), 3);
    assert_eq!(app.search_selected, 2);
    app.search_query = "zz".to_string();
    app.update_search_results();
    assert_eq!(app.search_selected, 0);
}

#[test]
fn reconcile_is_what_a_successful_reload_does() {
    let mut a = app();
    let mut b = app();
    for app in [&mut a, &mut b] {
        app.handle_key(press(KeyCode::Down));
        app.handle_key(press(KeyCode::Down));
    }
    let fewer = || vec![issue("o1", 0, "Fix login bug", Status::Open)];
    a.reconcile(fewer());
    reload(&mut b, fewer());
    assert_eq!(a.selected_index, 0);
    assert_eq!(b.selected_index, 0);
    assert_eq!(a.issues.len(), b.issues.len());
}

#[test]
fn loaded_scenario_is_searched_in_priority_order() {
    let loaded = arrange(
        vec![
            issue("A", 1, "Fix login", Status::Open),
            issue("B", 0, "Fix signup", Status::Open),
            issue("C", 2, "Add export", Status::Open),
        ],
        None,
    );
    let mut app = app_with(loaded);
    app.handle_key(ch('/'));
    assert_eq!(result_ids(&app), vec!["B", "A", "C"]);
    type_text(&mut app, "fix");
    assert_eq!(result_ids(&app), vec!["B", "A"]);
}
