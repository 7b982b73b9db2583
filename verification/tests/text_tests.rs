//! Tests for the character-level utilities, labels, decimal rendering,
//! the platform defaults, and the upload decisions.

use pause_overlay::labels::{label_is_monitor, main_label, monitor_label};
use pause_overlay::launch::{find_app_by_name, is_web_url, parse_app_entry, AppInfo};
use pause_overlay::overlay_manager::OverlayManager;
use pause_overlay::platform;
use pause_overlay::text::{
    i64_to_string, sort_dedup_strings, str_contains, str_ends_with, str_eq, str_le,
    str_starts_with, u64_to_string,
};
use pause_overlay::upload::{acceptable_upload_path, get_mime_type};

#[test]
fn decimal_rendering_is_exact() {
    assert_eq!(u64_to_string(0), "0");
    assert_eq!(u64_to_string(7), "7");
    assert_eq!(u64_to_string(120384), "120384");
    assert_eq!(u64_to_string(u64::MAX), "18446744073709551615");
    assert_eq!(i64_to_string(0), "0");
    assert_eq!(i64_to_string(-1), "-1");
    assert_eq!(i64_to_string(i64::MIN), "-9223372036854775808");
    assert_eq!(i64_to_string(i64::MAX), "9223372036854775807");
}

#[test]
fn monitor_labels_follow_the_convention() {
    assert_eq!(monitor_label(0), "overlay_monitor_0");
    assert_eq!(monitor_label(3), "overlay_monitor_3");
    assert_eq!(monitor_label(12), "overlay_monitor_12");
    assert!(label_is_monitor("overlay_monitor_0"));
    assert!(label_is_monitor("overlay_monitor_777"));
    assert!(!label_is_monitor("main"));
    assert!(!label_is_monitor("overlay"));
    assert_eq!(main_label(), "main");
}

#[test]
fn string_utilities_behave() {
    assert!(str_eq("abc", "abc"));
    assert!(!str_eq("abc", "abd"));
    assert!(!str_eq("abc", "ab"));
    assert!(str_starts_with("overlay_monitor_4", "overlay_monitor_"));
    assert!(!str_starts_with("over", "overlay"));
    assert!(str_ends_with("app.exe", ".exe"));
    assert!(!str_ends_with("app.exec", ".exe"));
    assert!(str_contains("letmesell--upload", "--"));
    assert!(!str_contains("letmesell-upload", "--"));
    assert!(str_contains("anything", ""));
    assert!(str_le("abc", "abd"));
    assert!(str_le("ab", "abc"));
    assert!(!str_le("b", "abc"));
    assert!(str_le("same", "same"));
}

#[test]
fn sorting_strings_dedups() {
    let items =
        vec!["pear".to_string(), "apple".to_string(), "pear".to_string(), "fig".to_string()];
    let sorted = sort_dedup_strings(&items);
    assert_eq!(sorted, vec!["apple", "fig", "pear"]);
}

#[test]
fn mime_types_are_looked_up_case_insensitively() {
    assert_eq!(get_mime_type("pdf"), "application/pdf");
    assert_eq!(get_mime_type("PDF"), "application/pdf");
    assert_eq!(get_mime_type("JPeG"), "image/jpeg");
    assert_eq!(get_mime_type("jpg"), "image/jpeg");
    assert_eq!(get_mime_type("md"), "text/markdown");
    assert_eq!(
        get_mime_type("docx"),
        "application/vnd.openxmlformats-officedocument.wordprocessingml.document"
    );
    assert_eq!(get_mime_type("xyz"), "application/octet-stream");
    assert_eq!(get_mime_type(""), "application/octet-stream");
}

#[test]
fn upload_paths_are_screened() {
    assert!(acceptable_upload_path("C:\\docs\\notes.pdf"));
    assert!(!acceptable_upload_path("http://example.com/file.pdf"));
    assert!(!acceptable_upload_path("https://example.com/file.pdf"));
    assert!(!acceptable_upload_path("C:\\docs\\weird--name.pdf"));
}

#[test]
fn web_urls_are_recognised() {
    assert!(is_web_url("http://example.com"));
    assert!(is_web_url("https://example.com"));
    assert!(!is_web_url("ftp://example.com"));
    assert!(!is_web_url("not-a-url"));
    assert!(!is_web_url(""));
}

#[test]
fn app_entries_filter_system_names() {
    // folded matching: "Uninstall Foo" is dropped, and so is the bundled
    // browser; an ordinary entry passes through intact
    assert!(parse_app_entry("Uninstall Foo", "C:\\apps\\unins.exe", true).is_none());
    assert!(parse_app_entry("Microsoft Edge", "C:\\apps\\edge.lnk", true).is_none());
    assert!(parse_app_entry("Windows Defender", "C:\\apps\\wd.lnk", true).is_none());
    let app = parse_app_entry("Uninstall Foo", "C:\\apps\\unins.exe", false).unwrap();
    assert_eq!(app.name, "Uninstall Foo");
    let kept = parse_app_entry("Notepad", "C:\\apps\\notepad.lnk", true).unwrap();
    assert_eq!(kept.path, "C:\\apps\\notepad.lnk");
    assert!(kept.icon.is_none());
}

#[test]
fn app_search_prefers_exact_matches() {
    let apps = vec![
        AppInfo {
            name: "Slack Setup Helper".to_string(),
            path: "C:\\apps\\helper.exe".to_string(),
            icon: None,
            description: None,
        },
        AppInfo {
            name: "Slack".to_string(),
            path: "C:\\apps\\slack.exe".to_string(),
            icon: None,
            description: None,
        },
    ];
    // the exact match wins over the earlier partial one
    assert_eq!(find_app_by_name(&apps, "SLACK"), Some("C:\\apps\\slack.exe".to_string()));
    // a partial query falls back to the first containing name
    assert_eq!(find_app_by_name(&apps, "setup"), Some("C:\\apps\\helper.exe".to_string()));
    assert_eq!(find_app_by_name(&apps, "teams"), None);
}

#[test]
fn platform_defaults_answer_exactly() {
    assert!(platform::enumerate_windows().is_empty());
    assert!(platform::set_overlay_style(0, true).is_ok());
    assert_eq!(platform::get_all_monitors(), Ok(vec![]));
    assert!(platform::get_monitor_info(7).is_ok());
    assert_eq!(platform::get_virtual_desktop_bounds(), Ok((0, 0, 1920, 1080)));
    assert!(platform::position_window_for_all_monitors(0).is_ok());
    let msg = "Not available on this platform".to_string();
    assert_eq!(platform::suppress_notifications_direct(), Err(msg.clone()));
    assert_eq!(platform::restore_notifications_direct(), Err(msg.clone()));
    assert_eq!(platform::mute_notifications_windows_api(), Err(msg.clone()));
    assert_eq!(platform::unmute_notifications_windows_api(), Err(msg.clone()));
    assert_eq!(platform::start_notification_blocker(), Err(msg));
    platform::stop_notification_blocker();

    let manager = OverlayManager::new();
    assert!(manager.show().is_ok());
    assert!(manager.hide_surface().is_ok());
    assert!(manager.set_click_through(true).is_ok());
}
