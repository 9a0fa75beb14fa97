use brui::config::{label_filter, DEFAULT_LABEL};
use brui::text::join_strings;
use brui::ui::detail::{clamp_scroll, scroll_indicator, scroll_max};
use brui::ui::{KeyCode, KeyEvent, KeyEventKind, Notice};
use brui::watcher::{signals_change, ChangeKind, ChangeSignal};

#[test]
fn all_flag_forces_no_filter() {
    assert_eq!(label_filter(true, Some("ralph".to_string())), None);
    assert_eq!(label_filter(true, None), None);
}

#[test]
fn label_is_the_filter_otherwise() {
    assert_eq!(label_filter(false, Some("ui".to_string())), Some("ui".to_string()));
    assert_eq!(
        label_filter(false, Some(DEFAULT_LABEL.to_string())),
        Some("ralph".to_string())
    );
    assert_eq!(label_filter(false, None), None);
}

#[test]
fn strings_are_joined() {
    let parts = |p: &[&str]| p.iter().map(|s| s.to_string()).collect::<Vec<String>>();
    assert_eq!(join_strings(&parts(&[]), ", "), "");
    assert_eq!(join_strings(&parts(&["a"]), ", "), "a");
    assert_eq!(join_strings(&parts(&["a", "b", "c"]), ", "), "a, b, c");
    assert_eq!(join_strings(&parts(&["", "x", ""]), " "), " x ");
    assert_eq!(join_strings(&parts(&["a", "b"]), ""), "ab");
}

#[test]
fn scroll_bound_is_what_does_not_fit() {
    assert_eq!(scroll_max(100, 30), 70);
    assert_eq!(scroll_max(31, 30), 1);
    assert_eq!(scroll_max(30, 30), 0);
    assert_eq!(scroll_max(5, 30), 0);
    assert_eq!(scroll_max(0, 0), 0);
    assert_eq!(scroll_max(7, 0), 7);
}

#[test]
fn scroll_bound_counts_lines_up_to_the_largest_position() {
    assert_eq!(scroll_max(65_535, 0), 65_535);
    assert_eq!(scroll_max(65_536, 0), 65_535);
    assert_eq!(scroll_max(1_000_000, 35), 65_500);
    assert_eq!(scroll_max(usize::MAX, u16::MAX), 0);
}

#[test]
fn scroll_is_clamped_to_its_bound() {
    assert_eq!(clamp_scroll(5, 10), 5);
    assert_eq!(clamp_scroll(10, 10), 10);
    assert_eq!(clamp_scroll(11, 10), 10);
    assert_eq!(clamp_scroll(3, 0), 0);
}

#[test]
fn scroll_indicator_counts_from_one() {
    assert_eq!(scroll_indicator(0, 0), None);
    assert_eq!(scroll_indicator(0, 9), Some((1, 10)));
    assert_eq!(scroll_indicator(9, 9), Some((10, 10)));
    assert_eq!(scroll_indicator(u16::MAX, u16::MAX), Some((65_536, 65_536)));
}

#[test]
fn created_or_modified_files_signal_a_change() {
    assert!(signals_change(&vec![ChangeKind::Modify]));
    assert!(signals_change(&vec![ChangeKind::Create]));
    assert!(signals_change(&vec![ChangeKind::Access, ChangeKind::Other, ChangeKind::Modify]));
}

#[test]
fn other_events_signal_nothing() {
    assert!(!signals_change(&Vec::new()));
    assert!(!signals_change(&vec![
        ChangeKind::Access,
        ChangeKind::Remove,
        ChangeKind::Any,
        ChangeKind::Other
    ]));
}

#[test]
fn change_signal_starts_clear() {
    let mut signal = ChangeSignal::new();
    assert!(!signal.poll());
}

#[test]
fn batches_collapse_into_one_pending_change() {
    let mut signal = ChangeSignal::new();
    signal.record(&vec![ChangeKind::Access]);
    signal.record(&vec![ChangeKind::Modify]);
    signal.record(&vec![ChangeKind::Create, ChangeKind::Modify]);
    signal.record(&vec![ChangeKind::Remove]);
    assert!(signal.poll());
    assert!(!signal.poll());
}

#[test]
fn irrelevant_batches_leave_the_signal_clear() {
    let mut signal = ChangeSignal::new();
    signal.record(&Vec::new());
    signal.record(&vec![ChangeKind::Access, ChangeKind::Remove]);
    assert!(!signal.poll());
    signal.record(&vec![ChangeKind::Modify]);
    assert!(signal.poll());
}

#[test]
fn no_notice_to_start_with() {
    assert_eq!(Notice::none().message, None);
}

#[test]
fn failed_reload_gives_a_notice() {
    let notice = Notice::after_reload(Some("database is locked"));
    assert_eq!(notice.message.as_deref(), Some("Reload failed: database is locked"));
    assert_eq!(Notice::after_reload(Some("")).message.as_deref(), Some("Reload failed: "));
}

#[test]
fn reload_that_succeeds_gives_no_notice() {
    assert_eq!(Notice::after_reload(None).message, None);
}

#[test]
fn pressed_key_takes_the_notice_away() {
    let key = |kind| KeyEvent { code: KeyCode::Down, kind, control: false };
    let notice = Notice::after_reload(Some("no such table"));
    let notice = notice.after_key(key(KeyEventKind::Release));
    assert_eq!(notice.message.as_deref(), Some("Reload failed: no such table"));
    let notice = notice.after_key(key(KeyEventKind::Repeat));
    assert_eq!(notice.message.as_deref(), Some("Reload failed: no such table"));
    let notice = notice.after_key(key(KeyEventKind::Press));
    assert_eq!(notice.message, None);
    assert_eq!(Notice::none().after_key(key(KeyEventKind::Press)).message, None);
}
