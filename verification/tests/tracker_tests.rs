//! Tests for window enumeration, snapshot diffing and tracking.

use pause_overlay::tracker::{diff, RawWindow, Window, WindowChangeResult, WindowTracker};

fn raw(handle: i64, title: &str, process: &str, visible: bool) -> RawWindow {
    RawWindow {
        handle,
        title: title.to_string(),
        process_name: process.to_string(),
        executable_path: format!("C:\\bin\\{}", process),
        is_visible: visible,
    }
}

#[test]
fn enumeration_drops_untitled_and_invisible_windows() {
    let mut tracker = WindowTracker::new(0);
    let snapshot = tracker.enumerate_windows(
        vec![
            raw(1, "Editor", "editor.exe", true),
            raw(2, "", "ghost.exe", true),
            raw(3, "Terminal", "term.exe", false),
            raw(4, "Browser", "browser.exe", true),
        ],
        1_000,
    );
    let titles: Vec<&str> = snapshot.iter().map(|w| w.title.as_str()).collect();
    assert_eq!(titles, vec!["Editor", "Browser"]);
    assert!(snapshot.iter().all(|w| w.last_active == 1_000));
}

#[test]
fn last_active_carries_over_for_persisting_handles() {
    let mut tracker = WindowTracker::new(0);
    tracker.enumerate_windows(vec![raw(1, "Editor", "editor.exe", true)], 1_000);
    let snapshot = tracker.enumerate_windows(
        vec![raw(1, "Editor", "editor.exe", true), raw(2, "Mail", "mail.exe", true)],
        5_000,
    );
    assert_eq!(snapshot.len(), 2);
    assert_eq!(snapshot[0].last_active, 1_000); // persisted handle keeps its instant
    assert_eq!(snapshot[1].last_active, 5_000); // new handle is stamped now
}

#[test]
fn diff_reports_opened_and_closed() {
    let mut a_tracker = WindowTracker::new(0);
    let previous = a_tracker.enumerate_windows(
        vec![raw(1, "Editor", "editor.exe", true), raw(2, "Mail", "mail.exe", true)],
        100,
    );
    let mut b_tracker = WindowTracker::new(0);
    let current = b_tracker.enumerate_windows(
        vec![raw(2, "Mail", "mail.exe", true), raw(3, "Chat", "chat.exe", true)],
        200,
    );
    let (opened, closed) = diff(&previous, &current);
    assert_eq!(opened.len(), 1);
    assert_eq!(opened[0].handle, 3);
    assert_eq!(opened[0].title, "Chat");
    assert_eq!(closed, vec![1]);
}

#[test]
fn diff_of_a_snapshot_with_itself_is_empty() {
    let mut tracker = WindowTracker::new(0);
    let snap = tracker.enumerate_windows(
        vec![raw(1, "Editor", "editor.exe", true), raw(2, "Mail", "mail.exe", true)],
        100,
    );
    let (opened, closed) = diff(&snap, &snap);
    assert!(opened.is_empty());
    assert!(closed.is_empty());
}

#[test]
fn process_names_are_sorted_and_deduplicated() {
    let mut tracker = WindowTracker::new(0);
    let names = tracker.get_process_names(
        vec![
            raw(1, "One", "zsh", true),
            raw(2, "Two", "editor", true),
            raw(3, "Three", "zsh", true),
            raw(4, "Four", "browser", true),
        ],
        100,
    );
    assert_eq!(names, vec!["browser", "editor", "zsh"]);
}

#[test]
fn visible_windows_and_titles_and_handles() {
    let mut tracker = WindowTracker::new(0);
    let visible = tracker.get_visible_windows(
        vec![raw(7, "Seven", "seven.exe", true), raw(8, "Eight", "eight.exe", true)],
        100,
    );
    assert_eq!(visible.len(), 2);

    let titles = tracker.get_window_titles(
        vec![raw(7, "Seven", "seven.exe", true), raw(8, "Eight", "eight.exe", true)],
        150,
    );
    assert_eq!(titles, vec!["Seven", "Eight"]);

    let handles = tracker.get_window_handles(
        vec![raw(7, "Seven", "seven.exe", true), raw(8, "Eight", "eight.exe", true)],
        200,
    );
    assert_eq!(handles, vec![7, 8]);
}

#[test]
fn active_window_prefers_the_cache_and_records_fresh_handles() {
    let mut tracker = WindowTracker::new(0);
    tracker.enumerate_windows(vec![raw(1, "Editor", "editor.exe", true)], 100);

    // cached handle: the cached record answers, with its original stamp
    let hit = tracker.get_active_window(Some(raw(1, "Editor", "editor.exe", true)), 900).unwrap();
    assert_eq!(hit.handle, 1);
    assert_eq!(hit.last_active, 100);

    // unknown handle: recorded fresh and tracked as foreground
    let miss = tracker.get_active_window(Some(raw(9, "New", "new.exe", true)), 950).unwrap();
    assert_eq!(miss.handle, 9);
    assert_eq!(miss.last_active, 950);
    assert_eq!(tracker.foreground_window, Some(9));
    assert_eq!(tracker.get_window_last_active(9), Some(950));

    assert!(tracker.get_active_window(None, 1000).is_none());
}

#[test]
fn focus_changes_are_reported_once() {
    let mut tracker = WindowTracker::new(0);
    tracker.enumerate_windows(
        vec![raw(1, "Editor", "editor.exe", true), raw(2, "Mail", "mail.exe", true)],
        100,
    );
    let first = tracker.track_focus_changes(Some(raw(1, "Editor", "editor.exe", true)), 200);
    assert!(first.is_some());
    assert_eq!(tracker.foreground_window, Some(1));
    let again = tracker.track_focus_changes(Some(raw(1, "Editor", "editor.exe", true)), 300);
    assert!(again.is_none());
    let switched = tracker.track_focus_changes(Some(raw(2, "Mail", "mail.exe", true)), 400);
    assert!(switched.is_some());
    assert_eq!(tracker.foreground_window, Some(2));
}

#[test]
fn poll_is_gated_to_the_interval() {
    let mut tracker = WindowTracker::new(0);
    tracker.enumerate_windows(vec![raw(1, "Editor", "editor.exe", true)], 0);

    // too early: nothing recomputed
    let r = tracker.poll(vec![raw(1, "Editor", "editor.exe", true)], None, 1_500);
    assert!(matches!(r, WindowChangeResult::NoChange));

    // due, with a new window: the diff reports it
    let r2 = tracker.poll(
        vec![raw(1, "Editor", "editor.exe", true), raw(2, "Mail", "mail.exe", true)],
        None,
        2_500,
    );
    match r2 {
        WindowChangeResult::Changed { focus_changed: _, opened, closed } => {
            assert_eq!(opened.len(), 1);
            assert_eq!(opened[0].handle, 2);
            assert!(closed.is_empty());
        },
        WindowChangeResult::NoChange => panic!("expected a change"),
    }

    // due again, nothing moved
    let r3 = tracker.poll(
        vec![raw(1, "Editor", "editor.exe", true), raw(2, "Mail", "mail.exe", true)],
        None,
        5_000,
    );
    assert!(matches!(r3, WindowChangeResult::NoChange));
}

#[test]
fn window_record_renders_the_handle() {
    let mut tracker = WindowTracker::new(0);
    let snap = tracker.enumerate_windows(vec![raw(120384, "Editor", "editor.exe", true)], 100);
    let w = Window::from_info(&snap[0]);
    assert_eq!(w.id, "120384");
    assert_eq!(w.title, "Editor");
    assert_eq!(w.process_name, "editor.exe");
    assert!(w.icon.is_none());

    let mut t2 = WindowTracker::new(0);
    let snap2 = t2.enumerate_windows(vec![raw(-42, "Neg", "neg.exe", true)], 100);
    let w2 = Window::from_info(&snap2[0]);
    assert_eq!(w2.id, "-42");
}
