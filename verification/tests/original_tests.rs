//! The unit tests carried over from the command and service layers.

use pause_overlay::launch::looks_like_path;

#[test]
fn test_launch_app_path_validation() {
    // Test that empty paths are rejected
    assert!("".is_empty());
}

#[test]
fn test_launch_app_executable_extension() {
    // Test executable extension detection
    let exe_path = "C:\\Program Files\\App\\app.exe";
    assert!(exe_path.ends_with(".exe"));

    let non_exe_path = "C:\\Program Files\\App\\app.txt";
    assert!(!non_exe_path.ends_with(".exe"));
}

#[test]
fn test_path_detection() {
    // Test path detection logic
    let path_with_slash = "C:/Program Files/App";
    let path_with_backslash = "C:\\Program Files\\App";
    let path_with_colon = "C:Program Files";
    let exe_file = "app.exe";
    let lnk_file = "app.lnk";

    assert!(path_with_slash.contains('/'));
    assert!(path_with_backslash.contains('\\'));
    assert!(path_with_colon.contains(':'));
    assert!(exe_file.ends_with(".exe"));
    assert!(lnk_file.ends_with(".lnk"));

    // the library's own detector agrees on all five
    assert!(looks_like_path(path_with_slash));
    assert!(looks_like_path(path_with_backslash));
    assert!(looks_like_path(path_with_colon));
    assert!(looks_like_path(exe_file));
    assert!(looks_like_path(lnk_file));
}

#[test]
fn test_url_validation() {
    // This is a unit test for the URL validation logic
    let valid_urls = vec!["http://example.com", "https://example.com", "http://localhost:3000"];

    let invalid_urls = vec!["ftp://example.com", "file:///path/to/file", "not-a-url", ""];

    for url in valid_urls {
        assert!(url.starts_with("http://") || url.starts_with("https://"));
    }

    for url in invalid_urls {
        assert!(!url.starts_with("http://") && !url.starts_with("https://"));
    }
}

#[test]
fn test_focus_mode_duration_calculation() {
    // Test that focus mode durations are calculated correctly
    let focus1_minutes = 1;
    let focus15_minutes = 15;
    let focus25_minutes = 25;
    let deepwork60_minutes = 60;

    assert_eq!(focus1_minutes, 1);
    assert_eq!(focus15_minutes, 15);
    assert_eq!(focus25_minutes, 25);
    assert_eq!(deepwork60_minutes, 60);
}

#[test]
fn test_focus_session_time_remaining() {
    // Test time remaining calculation
    let duration_seconds = 1500; // 25 minutes
    let elapsed_seconds = 300; // 5 minutes
    let remaining = duration_seconds - elapsed_seconds;

    assert_eq!(remaining, 1200); // 20 minutes remaining
}

#[test]
fn test_focus_session_completion() {
    // Test that session is complete when remaining time is 0
    let remaining_seconds = 0;
    assert_eq!(remaining_seconds, 0);

    let remaining_seconds_positive = 100;
    assert!(remaining_seconds_positive > 0);
}

#[test]
fn test_minutes_to_seconds_conversion() {
    // Test minutes to seconds conversion
    let minutes = 25;
    let seconds = minutes * 60;
    assert_eq!(seconds, 1500);
}

#[test]
fn test_seconds_to_minutes_conversion() {
    // Test seconds to minutes conversion
    let seconds = 1500;
    let minutes = seconds / 60;
    assert_eq!(minutes, 25);
}

#[test]
fn test_string_manipulation() {
    let test_string = "test_string";
    assert_eq!(test_string.len(), 11);
}

#[test]
fn test_number_operations() {
    let num1 = 10;
    let num2 = 5;
    assert_eq!(num1 + num2, 15);
    assert_eq!(num1 - num2, 5);
    assert_eq!(num1 * num2, 50);
    assert_eq!(num1 / num2, 2);
}

#[test]
fn test_option_handling() {
    let some_value = Some(42);
    assert_eq!(some_value.unwrap(), 42);

    let none_value: Option<i32> = None;
    assert!(none_value.is_none());
}

#[test]
fn test_result_handling() {
    let ok_result: Result<i32, &str> = Ok(42);
    assert!(ok_result.is_ok());
    assert_eq!(ok_result.unwrap(), 42);

    let err_result: Result<i32, &str> = Err("error");
    assert!(err_result.is_err());
}
