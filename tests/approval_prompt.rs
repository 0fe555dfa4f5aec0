use chrono::TimeZone;
use reminder_bot::action::{render_pending_message, NotificationDraft};

fn draft(extra: Option<&str>) -> NotificationDraft {
    NotificationDraft {
        user_id: "@u".to_string(),
        channel_id: "123".to_string(),
        content: "buy milk".to_string(),
        time: chrono::Utc.with_ymd_and_hms(2026, 2, 10, 12, 0, 0).unwrap().timestamp(),
        original_text: "buy milk tomorrow".to_string(),
        extra_context: extra.map(|s| s.to_string()),
        expires_at: chrono::Utc.with_ymd_and_hms(2026, 2, 10, 12, 5, 0).unwrap().timestamp(),
        message_id: None,
    }
}

#[test]
fn notification_service_render_pending_message_includes_context() {
    let body = render_pending_message(&draft(Some("add eggs")));
    assert!(body.contains("buy milk"));
    assert!(body.contains("Additional context: add eggs"));
}

#[test]
fn pending_message_layout() {
    assert_eq!(
        render_pending_message(&draft(Some("  "))),
        "Please confirm your notification:\nContent: buy milk\nTime: 2026-02-10 12:00:00 UTC"
    );
    assert_eq!(
        render_pending_message(&draft(Some(" add eggs "))),
        "Please confirm your notification:\nContent: buy milk\nTime: 2026-02-10 12:00:00 UTC\nAdditional context: add eggs"
    );
}
