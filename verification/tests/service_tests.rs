//! Tests for the focus sessions, the Gmail extraction, the recent-file
//! handling and the calendar lookups.

use pause_overlay::calendar::{get_next_meeting, time_until_next_meeting, CalendarEvent};
use pause_overlay::files::{filter_recent_files_by_type, sort_recent_files, File, RecentFile};
use pause_overlay::focus::{FocusMode, FocusService};
use pause_overlay::gmail::{
    GmailDraft, GmailHeader, GmailMessage, GmailMessageBody, GmailMessagePart, GmailService,
};

#[test]
fn focus_mode_durations_and_names() {
    assert_eq!(FocusMode::Focus1.duration_minutes(), 1);
    assert_eq!(FocusMode::Focus15.duration_minutes(), 15);
    assert_eq!(FocusMode::Focus25.duration_minutes(), 25);
    assert_eq!(FocusMode::DeepWork60.duration_minutes(), 60);
    assert_eq!(FocusMode::ClearInbox10.duration_minutes(), 10);
    assert_eq!(FocusMode::PrepForMeeting.duration_minutes(), 15);
    assert_eq!(FocusMode::Custom(90).duration_minutes(), 90);

    assert_eq!(FocusMode::Focus25.name(), "Focus 25");
    assert_eq!(FocusMode::DeepWork60.name(), "Deep Work 60");
    assert_eq!(FocusMode::PrepForMeeting.name(), "Prep for Meeting");
    assert_eq!(FocusMode::Custom(90).name(), "Custom 90 min");
    assert_eq!(FocusMode::Custom(0).name(), "Custom 0 min");
}

#[test]
fn focus_session_lifecycle() {
    let mut svc = FocusService::new();
    assert!(!svc.is_active());
    assert_eq!(svc.stop_focus_mode(), Err("No active focus session".to_string()));

    let session = svc.start_focus_mode(FocusMode::Focus25, 10_000).unwrap();
    assert_eq!(session.start_time, 10_000);
    assert_eq!(session.end_time, 10_000 + 25 * 60);
    assert_eq!(session.duration_minutes, 25);
    assert_eq!(session.remaining_seconds, 1500);
    assert!(session.is_active);
    assert!(svc.is_active());

    // a second session cannot start while one runs
    assert_eq!(
        svc.start_focus_mode(FocusMode::Focus15, 10_100),
        Err("A focus session is already active".to_string())
    );

    // remaining time counts down and clamps at zero
    assert_eq!(svc.get_remaining_seconds(10_000 + 300), Some(1200));
    assert_eq!(svc.get_remaining_seconds(10_000 + 1500), Some(0));
    assert_eq!(svc.get_remaining_seconds(10_000 + 9999), Some(0));

    assert!(svc.stop_focus_mode().is_ok());
    assert!(!svc.is_active());
    assert!(svc.get_remaining_seconds(10_000).is_none());
}

#[test]
fn notification_mute_bookkeeping() {
    let mut svc = FocusService::new();
    assert!(!svc.is_notifications_muted());
    assert!(svc.get_temporary_mute_remaining(0).is_none());

    svc.temporarily_mute_notifications(Some(30), 1_000);
    assert!(svc.is_notifications_muted());
    assert_eq!(svc.get_temporary_mute_remaining(1_000), Some(1800));
    assert_eq!(svc.get_temporary_mute_remaining(1_000 + 1800), None);

    svc.unmute_notifications();
    assert!(!svc.is_notifications_muted());
    assert!(svc.get_temporary_mute_remaining(1_000).is_none());

    // an open-ended mute records no expiry
    svc.temporarily_mute_notifications(None, 2_000);
    assert!(svc.is_notifications_muted());
    assert!(svc.get_temporary_mute_remaining(2_000).is_none());
}

fn draft_with_headers(headers: Vec<(&str, &str)>, body_data: Option<&str>) -> GmailDraft {
    GmailDraft {
        id: "d1".to_string(),
        message: Some(GmailMessage {
            id: "m1".to_string(),
            thread_id: "t1".to_string(),
            label_ids: vec![],
            snippet: None,
            payload: Some(GmailMessagePart {
                part_id: None,
                mime_type: None,
                filename: None,
                headers: headers
                    .into_iter()
                    .map(|(n, v)| GmailHeader { name: n.to_string(), value: v.to_string() })
                    .collect(),
                body: Some(GmailMessageBody {
                    attachment_id: None,
                    size: None,
                    data: body_data.map(|d| d.to_string()),
                }),
                parts: None,
            }),
            size_estimate: None,
            history_id: None,
            internal_date: None,
        }),
        snippet: None,
    }
}

#[test]
fn draft_headers_are_found_case_insensitively() {
    // header names arrive in mixed case: the lookup folds them; a wrapper
    // handing its input back unchanged would miss both
    let draft = draft_with_headers(
        vec![("SUBJECT", "Quarterly numbers"), ("To", "someone@example.com")],
        None,
    );
    assert_eq!(
        GmailService::extract_to_from_draft(&draft),
        Some("someone@example.com".to_string())
    );
    assert_eq!(
        GmailService::extract_subject_from_draft(&draft),
        Some("Quarterly numbers".to_string())
    );

    let empty = GmailDraft { id: "d2".to_string(), message: None, snippet: None };
    assert!(GmailService::extract_to_from_draft(&empty).is_none());
    assert!(GmailService::extract_subject_from_draft(&empty).is_none());
}

#[test]
fn draft_body_is_base64_decoded() {
    // "aGVsbG8" is the URL-safe unpadded encoding of "hello"; a wrapper
    // handing its input back unchanged would return the wrong text
    let draft = draft_with_headers(vec![], Some("aGVsbG8"));
    assert_eq!(GmailService::extract_body_from_draft(&draft), Some("hello".to_string()));

    // invalid base64 yields nothing
    let bad = draft_with_headers(vec![], Some("!!!not-base64!!!"));
    assert!(GmailService::extract_body_from_draft(&bad).is_none());

    // a body-less payload falls back to the parts, in order
    let mut with_parts = draft_with_headers(vec![], None);
    if let Some(m) = &mut with_parts.message {
        if let Some(p) = &mut m.payload {
            p.parts = Some(vec![
                GmailMessagePart {
                    part_id: None,
                    mime_type: None,
                    filename: None,
                    headers: vec![],
                    body: Some(GmailMessageBody { attachment_id: None, size: None, data: None }),
                    parts: None,
                },
                GmailMessagePart {
                    part_id: None,
                    mime_type: None,
                    filename: None,
                    headers: vec![],
                    body: Some(GmailMessageBody {
                        attachment_id: None,
                        size: None,
                        data: Some("d29ybGQ".to_string()), // "world"
                    }),
                    parts: None,
                },
            ]);
        }
    }
    assert_eq!(GmailService::extract_body_from_draft(&with_parts), Some("world".to_string()));
}

#[test]
fn recent_file_parses_its_timestamp() {
    let file = File {
        path: "C:\\notes\\plan.md".to_string(),
        name: "plan.md".to_string(),
        extension: "md".to_string(),
        size: 420,
        modified: "2024-01-15T10:30:00Z".to_string(),
    };
    let recent = RecentFile::from_file(&file, 77);
    assert_eq!(recent.last_accessed, 1_705_314_600_000);
    assert_eq!(recent.file_type, "md");

    // unparsable text falls back to now
    let bad = File { modified: "yesterday-ish".to_string(), ..file };
    assert_eq!(RecentFile::from_file(&bad, 77).last_accessed, 77);

    // against the wall clock, the parsed case is pinned all the same
    let good = File {
        path: "C:\\notes\\plan.md".to_string(),
        name: "plan.md".to_string(),
        extension: "md".to_string(),
        size: 420,
        modified: "2021-03-04T05:06:07Z".to_string(),
    };
    assert_eq!(RecentFile::from_file_now(&good).last_accessed, 1_614_834_367_000);
}

fn recent(name: &str, t: i64, ty: &str) -> RecentFile {
    RecentFile {
        name: name.to_string(),
        path: format!("C:\\recent\\{}", name),
        last_accessed: t,
        file_type: ty.to_string(),
    }
}

#[test]
fn recent_files_filter_and_sort() {
    let files = vec![
        recent("a.pdf", 300, "PDF"),
        recent("b.md", 900, "md"),
        recent("c.pdf", 600, "pdf"),
    ];
    let pdfs = filter_recent_files_by_type(&files, "pdf");
    let names: Vec<&str> = pdfs.iter().map(|f| f.name.as_str()).collect();
    assert_eq!(names, vec!["a.pdf", "c.pdf"]); // case-insensitive on the type

    let sorted = sort_recent_files(&files);
    let order: Vec<i64> = sorted.iter().map(|f| f.last_accessed).collect();
    assert_eq!(order, vec![900, 600, 300]); // most recent first
}

fn event(id: &str, start: i64) -> CalendarEvent {
    CalendarEvent {
        id: id.to_string(),
        title: format!("meeting {}", id),
        start_time: start,
        end_time: start + 3600,
        location: None,
        description: None,
    }
}

#[test]
fn next_meeting_is_the_earliest_upcoming() {
    let events = vec![event("past", 100), event("soon", 1_000), event("later", 5_000)];
    let next = get_next_meeting(&events, 500).unwrap();
    assert_eq!(next.id, "soon");
    assert_eq!(time_until_next_meeting(&events, 500), Some(500));

    // nothing upcoming
    assert!(get_next_meeting(&events, 9_000).is_none());
    assert!(time_until_next_meeting(&events, 9_000).is_none());
}
