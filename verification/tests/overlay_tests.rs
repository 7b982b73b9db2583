//! Scenario tests for the overlay orchestration: the manager, the
//! controller's fallback chains, the resolver, and the dispatcher.

use pause_overlay::controller::{resolve, OverlayController};
use pause_overlay::desktop::Desktop;
use pause_overlay::dispatcher::{
    any_succeeded, classify, first_successful, handle_shortcut, parse_shortcut,
    system_block_list, toggle_candidates, KeyCode, Modifiers, ShortcutBinding, ShortcutClass,
    UiEvent,
};
use pause_overlay::manager::MultiMonitorManager;
use pause_overlay::rect::{virtual_bounds, MonitorDescriptor, Rect};

fn rect(left: i64, top: i64, right: i64, bottom: i64) -> Rect {
    Rect { left, top, right, bottom }
}

fn three_monitors() -> Vec<MonitorDescriptor> {
    vec![
        MonitorDescriptor { index: 0, bounds: rect(0, 0, 1920, 1080) },
        MonitorDescriptor { index: 1, bounds: rect(1920, 0, 3840, 1080) },
        MonitorDescriptor { index: 2, bounds: rect(3840, 0, 5760, 1080) },
    ]
}

fn desk_with_main() -> Desktop {
    let mut desk = Desktop::new();
    assert!(desk.create_window("main".to_string(), rect(0, 0, 1920, 1080)));
    desk
}

fn binding(mods: Modifiers, key: KeyCode) -> ShortcutBinding {
    ShortcutBinding { mods, key }
}

fn super_mods() -> Modifiers {
    Modifiers { super_key: true, control: false, alt: false, shift: false }
}

fn super_shift() -> Modifiers {
    Modifiers { super_key: true, control: false, alt: false, shift: true }
}

fn ctrl_mods() -> Modifiers {
    Modifiers { super_key: false, control: true, alt: false, shift: false }
}

fn alt_mods() -> Modifiers {
    Modifiers { super_key: false, control: false, alt: true, shift: false }
}

fn no_mods() -> Modifiers {
    Modifiers { super_key: false, control: false, alt: false, shift: false }
}

#[test]
fn three_monitor_window_set_matches_bounds() {
    // three displays side by side: one window per display, positioned and
    // sized to match, and the set reads visible after a show
    let monitors = three_monitors();
    let mut desk = Desktop::new();
    let labels = MultiMonitorManager::create_monitor_windows(&mut desk, &monitors);
    assert_eq!(labels.len(), 3);
    assert_eq!(labels[0], "overlay_monitor_0");
    assert_eq!(labels[1], "overlay_monitor_1");
    assert_eq!(labels[2], "overlay_monitor_2");
    assert_eq!(desk.windows.len(), 3);
    for i in 0..3 {
        assert_eq!(desk.windows[i].bounds, monitors[i].bounds);
        assert!(!desk.windows[i].visible);
        assert!(desk.windows[i].always_on_top);
        assert!(!desk.windows[i].fullscreen);
        assert!(desk.windows[i].focusable);
    }
    assert!(!MultiMonitorManager::is_any_window_visible(&desk, &labels));
    assert!(MultiMonitorManager::show_all_windows(&mut desk, &labels, &monitors).is_ok());
    assert!(MultiMonitorManager::is_any_window_visible(&desk, &labels));
    for i in 0..3 {
        assert_eq!(desk.windows[i].bounds, monitors[i].bounds);
        assert!(desk.windows[i].visible);
    }
}

#[test]
fn hide_all_windows_hides_the_set() {
    let monitors = three_monitors();
    let mut desk = Desktop::new();
    let labels = MultiMonitorManager::create_monitor_windows(&mut desk, &monitors);
    MultiMonitorManager::show_all_windows(&mut desk, &labels, &monitors).unwrap();
    assert!(MultiMonitorManager::is_any_window_visible(&desk, &labels));
    MultiMonitorManager::hide_all_windows(&mut desk, &labels).unwrap();
    assert!(!MultiMonitorManager::is_any_window_visible(&desk, &labels));
}

#[test]
fn show_when_already_shown_mutates_nothing() {
    // idempotence: a second show is a no-op on the windows
    let mut desk = desk_with_main();
    let mut ctrl = OverlayController::new();
    let monitors: Vec<MonitorDescriptor> = Vec::new();
    assert!(ctrl.show(&mut desk, &monitors).is_ok());
    assert!(ctrl.overlay_visible);
    let before: Vec<(bool, bool, bool)> = desk
        .windows
        .iter()
        .map(|w| (w.visible, w.fullscreen, w.always_on_top))
        .collect();
    assert!(ctrl.show(&mut desk, &monitors).is_ok());
    let after: Vec<(bool, bool, bool)> = desk
        .windows
        .iter()
        .map(|w| (w.visible, w.fullscreen, w.always_on_top))
        .collect();
    assert_eq!(before, after);
}

#[test]
fn show_falls_back_to_main_window() {
    // zero per-monitor windows: the single-window path still ends with
    // the resolver reporting visible
    let mut desk = desk_with_main();
    let mut ctrl = OverlayController::new();
    let monitors: Vec<MonitorDescriptor> = Vec::new();
    assert_eq!(ctrl.window_labels.len(), 0);
    assert!(ctrl.show(&mut desk, &monitors).is_ok());
    assert!(resolve(&desk, &ctrl.window_labels, ctrl.overlay_visible));
    assert_eq!(desk.is_visible("main"), Some(true));
}

#[test]
fn single_monitor_fallback_uses_fullscreen() {
    let mut desk = desk_with_main();
    let mut ctrl = OverlayController::new();
    let monitors = vec![MonitorDescriptor { index: 0, bounds: rect(0, 0, 1920, 1080) }];
    assert!(ctrl.show(&mut desk, &monitors).is_ok());
    assert!(desk.windows[0].fullscreen);
    assert!(desk.windows[0].visible);
}

#[test]
fn multi_monitor_fallback_spans_virtual_desktop() {
    // several monitors but no per-monitor windows: the main window spans
    // the virtual desktop instead of going fullscreen
    let mut desk = desk_with_main();
    let mut ctrl = OverlayController::new();
    let monitors = three_monitors();
    assert!(ctrl.show(&mut desk, &monitors).is_ok());
    assert!(!desk.windows[0].fullscreen);
    assert_eq!(desk.windows[0].bounds, rect(0, 0, 5760, 1080));
    assert!(desk.windows[0].visible);
}

#[test]
fn multi_monitor_show_keeps_main_hidden() {
    // the safety net: after a successful multi-monitor show, the main
    // window's reported visibility is false
    let monitors = three_monitors();
    let mut desk = desk_with_main();
    let mut ctrl = OverlayController::new();
    let labels = MultiMonitorManager::create_monitor_windows(&mut desk, &monitors);
    ctrl.set_window_labels(labels);
    assert!(ctrl.show(&mut desk, &monitors).is_ok());
    assert_eq!(desk.is_visible("main"), Some(false));
    assert!(MultiMonitorManager::is_any_window_visible(&desk, &ctrl.window_labels));
    assert!(resolve(&desk, &ctrl.window_labels, ctrl.overlay_visible));
}

#[test]
fn hide_overlay_clears_everything() {
    let monitors = three_monitors();
    let mut desk = desk_with_main();
    let mut ctrl = OverlayController::new();
    let labels = MultiMonitorManager::create_monitor_windows(&mut desk, &monitors);
    ctrl.set_window_labels(labels);
    ctrl.show(&mut desk, &monitors).unwrap();
    assert!(ctrl.hide_overlay(&mut desk).is_ok());
    assert!(!ctrl.overlay_visible);
    assert_eq!(desk.is_visible("main"), Some(false));
    assert!(!resolve(&desk, &ctrl.window_labels, ctrl.overlay_visible));
}

#[test]
fn show_without_any_surface_fails() {
    // no per-monitor windows and no main window: the only failing input
    let mut desk = Desktop::new();
    let mut ctrl = OverlayController::new();
    let monitors: Vec<MonitorDescriptor> = Vec::new();
    let r = ctrl.show(&mut desk, &monitors);
    assert_eq!(r, Err("Main window not found".to_string()));
    assert!(!ctrl.overlay_visible);
}

#[test]
fn show_rediscovers_existing_monitor_windows() {
    // empty tracked set but windows exist under the label convention:
    // the show path re-scans and adopts them
    let monitors = three_monitors();
    let mut desk = desk_with_main();
    let mut ctrl = OverlayController::new();
    let _ = MultiMonitorManager::create_monitor_windows(&mut desk, &monitors);
    assert_eq!(ctrl.window_labels.len(), 0);
    assert!(ctrl.show(&mut desk, &monitors).is_ok());
    assert_eq!(ctrl.window_labels.len(), 3);
    assert_eq!(desk.is_visible("main"), Some(false));
    assert_eq!(desk.is_visible("overlay_monitor_1"), Some(true));
}

#[test]
fn toggle_guard_drops_concurrent_presses() {
    // at-most-one-in-flight: a press while an operation is in flight is
    // dropped, and executed operations alternate show/hide
    let mut desk = desk_with_main();
    let mut ctrl = OverlayController::new();
    let monitors: Vec<MonitorDescriptor> = Vec::new();

    let first = ctrl.begin_toggle(&desk);
    assert_eq!(first, Some(true)); // a show begins
    assert_eq!(ctrl.begin_toggle(&desk), None); // dropped, not queued
    assert!(ctrl.complete_toggle(&mut desk, &monitors, true).is_ok());

    let second = ctrl.begin_toggle(&desk);
    assert_eq!(second, Some(false)); // a hide follows the show
    assert!(ctrl.complete_toggle(&mut desk, &monitors, false).is_ok());

    let third = ctrl.begin_toggle(&desk);
    assert_eq!(third, Some(true)); // and a show follows the hide
    assert!(ctrl.complete_toggle(&mut desk, &monitors, true).is_ok());
}

#[test]
fn blocked_system_shortcut_is_consumed_without_action() {
    // block-list combination while the overlay is hidden: classification
    // matches the block list, nothing is invoked, the event is consumed
    let b = binding(super_mods(), KeyCode::KeyA);
    assert_eq!(classify(&b), ShortcutClass::BlockedSystem);

    let mut desk = desk_with_main();
    let mut ctrl = OverlayController::new();
    let monitors: Vec<MonitorDescriptor> = Vec::new();
    let out = handle_shortcut(&mut ctrl, &mut desk, &monitors, &b, true);
    assert!(out.consumed);
    assert!(out.event.is_none());
    assert!(!ctrl.overlay_visible);
    assert!(!ctrl.op_in_progress);
    assert_eq!(desk.is_visible("main"), Some(false));
}

#[test]
fn screenshot_combination_passes_through() {
    // the screenshot combination and the print key are never blocked,
    // whatever the overlay state
    let shot = binding(super_shift(), KeyCode::KeyS);
    let print = binding(no_mods(), KeyCode::PrintScreen);
    assert_eq!(classify(&shot), ShortcutClass::ScreenshotPassthrough);
    assert_eq!(classify(&print), ShortcutClass::ScreenshotPassthrough);

    let mut desk = desk_with_main();
    let mut ctrl = OverlayController::new();
    let monitors: Vec<MonitorDescriptor> = Vec::new();

    let out = handle_shortcut(&mut ctrl, &mut desk, &monitors, &shot, true);
    assert!(!out.consumed);
    assert!(out.event.is_none());

    // show the overlay, then try again: still passed through
    ctrl.show(&mut desk, &monitors).unwrap();
    let out2 = handle_shortcut(&mut ctrl, &mut desk, &monitors, &shot, true);
    assert!(!out2.consumed);
    let out3 = handle_shortcut(&mut ctrl, &mut desk, &monitors, &print, true);
    assert!(!out3.consumed);
}

#[test]
fn toggle_binding_shows_then_hides() {
    let mut desk = desk_with_main();
    let mut ctrl = OverlayController::new();
    let monitors: Vec<MonitorDescriptor> = Vec::new();
    let b = binding(ctrl_mods(), KeyCode::Space);
    assert_eq!(classify(&b), ShortcutClass::PrimaryToggle);

    let out = handle_shortcut(&mut ctrl, &mut desk, &monitors, &b, true);
    assert!(out.consumed);
    assert_eq!(out.event, Some(UiEvent::ShortcutTriggered(true)));
    assert!(ctrl.overlay_visible);
    assert_eq!(desk.is_visible("main"), Some(true));

    let out2 = handle_shortcut(&mut ctrl, &mut desk, &monitors, &b, true);
    assert_eq!(out2.event, Some(UiEvent::ShortcutTriggered(false)));
    assert!(!ctrl.overlay_visible);
    assert_eq!(desk.is_visible("main"), Some(false));
}

#[test]
fn dismiss_key_hides_when_visible() {
    let mut desk = desk_with_main();
    let mut ctrl = OverlayController::new();
    let monitors: Vec<MonitorDescriptor> = Vec::new();
    let esc = binding(no_mods(), KeyCode::Escape);
    assert_eq!(classify(&esc), ShortcutClass::Dismiss);

    // hidden: consumed, no event
    let out = handle_shortcut(&mut ctrl, &mut desk, &monitors, &esc, true);
    assert!(out.consumed);
    assert!(out.event.is_none());

    // visible: hides and reports the dismissal
    ctrl.show(&mut desk, &monitors).unwrap();
    let out2 = handle_shortcut(&mut ctrl, &mut desk, &monitors, &esc, true);
    assert!(out2.consumed);
    assert_eq!(out2.event, Some(UiEvent::ShortcutTriggered(false)));
    assert_eq!(desk.is_visible("main"), Some(false));
}

#[test]
fn arrow_keys_navigate_only_while_visible() {
    let mut desk = desk_with_main();
    let mut ctrl = OverlayController::new();
    let monitors: Vec<MonitorDescriptor> = Vec::new();
    let up = binding(alt_mods(), KeyCode::ArrowUp);
    assert!(matches!(classify(&up), ShortcutClass::Navigation(_)));

    let out = handle_shortcut(&mut ctrl, &mut desk, &monitors, &up, true);
    assert!(out.consumed);
    assert!(out.event.is_none()); // hidden: consumed but no navigation

    ctrl.show(&mut desk, &monitors).unwrap();
    let out2 = handle_shortcut(&mut ctrl, &mut desk, &monitors, &up, true);
    assert!(out2.consumed);
    assert!(matches!(out2.event, Some(UiEvent::ArrowKeyPressed(_))));
}

#[test]
fn number_keys_select_screens() {
    let mut desk = desk_with_main();
    let mut ctrl = OverlayController::new();
    let monitors: Vec<MonitorDescriptor> = Vec::new();
    let b = binding(alt_mods(), KeyCode::Digit3);
    assert_eq!(classify(&b), ShortcutClass::ScreenSelect(3));
    let out = handle_shortcut(&mut ctrl, &mut desk, &monitors, &b, true);
    assert!(out.consumed);
    assert_eq!(out.event, Some(UiEvent::NumberKeyPressed(3)));
}

#[test]
fn released_events_do_nothing() {
    let mut desk = desk_with_main();
    let mut ctrl = OverlayController::new();
    let monitors: Vec<MonitorDescriptor> = Vec::new();
    let b = binding(ctrl_mods(), KeyCode::Space);
    let out = handle_shortcut(&mut ctrl, &mut desk, &monitors, &b, false);
    assert!(out.consumed);
    assert!(out.event.is_none());
    assert!(!ctrl.overlay_visible);
}

#[test]
fn registration_tables_and_retry_policy() {
    let candidates = toggle_candidates();
    assert_eq!(candidates.len(), 3);
    assert_eq!(candidates[0].key, KeyCode::Space);
    assert!(candidates[0].mods.control);
    assert!(candidates[1].mods.super_key);
    assert_eq!(candidates[2].key, KeyCode::KeyO);

    let block = system_block_list();
    assert_eq!(block.len(), 11);
    for b in &block {
        assert_eq!(classify(b), ShortcutClass::BlockedSystem);
    }

    // first successful registration wins; total failure degrades
    assert_eq!(first_successful(&vec![false, true, true]), Some(1));
    assert_eq!(first_successful(&vec![false, false, false]), None);
    assert!(any_succeeded(&vec![false, true]));
    assert!(!any_succeeded(&vec![false, false]));
}

#[test]
fn virtual_bounds_is_the_union() {
    let monitors = three_monitors();
    let vb = virtual_bounds(&monitors);
    assert_eq!(vb, rect(0, 0, 5760, 1080));

    let stacked = vec![
        MonitorDescriptor { index: 0, bounds: rect(-1920, -500, 0, 580) },
        MonitorDescriptor { index: 1, bounds: rect(0, 0, 2560, 1440) },
    ];
    assert_eq!(virtual_bounds(&stacked), rect(-1920, -500, 2560, 1440));

    let none: Vec<MonitorDescriptor> = Vec::new();
    assert_eq!(virtual_bounds(&none), rect(0, 0, 1920, 1080));
}

#[test]
fn shortcut_strings_parse_into_bindings() {
    let b = parse_shortcut("Super+Space").unwrap();
    assert!(b.mods.super_key);
    assert_eq!(b.key, KeyCode::Space);

    let c = parse_shortcut(" Ctrl + Escape ").unwrap();
    assert!(c.mods.control);
    assert_eq!(c.key, KeyCode::Escape);

    let w = parse_shortcut("Win+Enter").unwrap();
    assert!(w.mods.super_key);
    assert_eq!(w.key, KeyCode::Enter);

    assert_eq!(
        parse_shortcut("Space"),
        Err("Invalid shortcut format. Use format like 'Super+Space'".to_string())
    );
    assert_eq!(parse_shortcut("Hyper+Space"), Err("Unknown modifier: Hyper".to_string()));
    assert_eq!(parse_shortcut("Ctrl+Q"), Err("Unknown key: Q".to_string()));
    // anything past a second separator is not a key name
    assert_eq!(parse_shortcut("Ctrl+Shift+P"), Err("Unknown key: Shift".to_string()));
}

#[test]
fn desktop_refuses_duplicate_labels() {
    let mut desk = Desktop::new();
    assert!(desk.create_window("main".to_string(), rect(0, 0, 10, 10)));
    assert!(!desk.create_window("main".to_string(), rect(0, 0, 20, 20)));
    assert_eq!(desk.windows.len(), 1);
    assert_eq!(desk.windows[0].bounds, rect(0, 0, 10, 10));

    // a missing window is unqueryable, never an error
    assert_eq!(desk.is_visible("overlay_monitor_0"), None);
}

#[test]
fn scanning_rebuilds_the_label_list() {
    let monitors = three_monitors();
    let mut desk = Desktop::new();
    let created = MultiMonitorManager::create_monitor_windows(&mut desk, &monitors);
    let scanned = MultiMonitorManager::scan_monitor_windows(&desk);
    assert_eq!(scanned, created);

    let empty = Desktop::new();
    assert!(MultiMonitorManager::scan_monitor_windows(&empty).is_empty());
}

#[test]
fn resolver_falls_back_to_the_toggle_flag() {
    // no tracked set and no main window: the cached flag is authoritative
    let desk = Desktop::new();
    let none: Vec<String> = Vec::new();
    assert!(resolve(&desk, &none, true));
    assert!(!resolve(&desk, &none, false));

    // with a main window, its reported visibility answers, and the
    // flag does not override a query that could be performed
    let desk2 = desk_with_main();
    assert!(!resolve(&desk2, &none, true));
    assert!(!resolve(&desk2, &none, false));
}
