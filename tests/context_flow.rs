use chrono::TimeZone;
use reminder_bot::action::{
    Action, ActionPayload, ActionStatus, ActionStore, ActionType, ConfirmStep, NotificationDraft,
};
use reminder_bot::notification::NotificationStore;

fn ts(y: i32, mo: u32, d: u32, h: u32, mi: u32) -> i64 {
    chrono::Utc.with_ymd_and_hms(y, mo, d, h, mi, 0).unwrap().timestamp()
}

fn pending(id: &str, user: &str) -> Action {
    Action {
        id: id.to_string(),
        action_type: ActionType::CreateNotification,
        status: ActionStatus::AwaitingApproval,
        user_id: user.to_string(),
        channel_id: "123".to_string(),
        payload: Some(ActionPayload::NotificationDraft(NotificationDraft {
            user_id: user.to_string(),
            channel_id: "123".to_string(),
            content: "call mom".to_string(),
            time: ts(2026, 2, 2, 12, 0),
            original_text: "call mom tomorrow".to_string(),
            extra_context: None,
            expires_at: ts(2026, 2, 2, 12, 5),
            message_id: None,
        })),
        created_at: ts(2026, 2, 2, 12, 0),
        updated_at: ts(2026, 2, 2, 12, 0),
    }
}

#[test]
fn context_submission_updates_pending() {
    let mut store = ActionStore::new();
    store.insert(pending("p1", "@u"));
    let prompt = store.correction_prompt("p1", "@u", "actually next day").unwrap();
    assert_eq!(prompt, "Original request: call mom tomorrow\nCorrection note: actually next day");
    let reply: Result<String, String> =
        Ok("{\"content\":\"call mom\",\"time\":\"2026-02-03T12:00:00Z\"}".to_string());
    let updated = store
        .corrected("p1", "@u", "actually next day", &reply, ts(2026, 2, 2, 12, 1))
        .expect("action should exist");
    store.insert(updated);

    let updated = store.get("p1").expect("action should exist");
    let draft = updated.notification_draft().expect("draft should exist");
    assert_eq!(draft.content, "call mom");
    assert_eq!(draft.time, ts(2026, 2, 3, 12, 0));
    assert_eq!(draft.extra_context.as_deref(), Some("actually next day"));
    assert_eq!(updated.updated_at, ts(2026, 2, 2, 12, 1));
}

#[test]
fn failed_correction_keeps_the_draft() {
    let mut store = ActionStore::new();
    store.insert(pending("p1", "@u"));
    let reply: Result<String, String> = Err("offline".to_string());
    let updated = store.corrected("p1", "@u", "  later  ", &reply, 9).unwrap();
    let draft = updated.notification_draft().unwrap();
    assert_eq!(draft.content, "call mom");
    assert_eq!(draft.time, ts(2026, 2, 2, 12, 0));
    assert_eq!(draft.extra_context.as_deref(), Some("later"));
}

#[test]
fn blank_context_sends_original_text_alone() {
    let mut store = ActionStore::new();
    store.insert(pending("p1", "@u"));
    assert_eq!(store.correction_prompt("p1", "@u", "   ").unwrap(), "call mom tomorrow");
    assert!(store.correction_prompt("p1", "@other", "x").is_none());
    let reply: Result<String, String> = Err("x".to_string());
    let updated = store.corrected("p1", "@u", "  ", &reply, 1).unwrap();
    assert!(updated.notification_draft().unwrap().extra_context.is_none());
}

#[test]
fn confirmation_after_correction_persists_corrected_draft() {
    let mut store = ActionStore::new();
    let mut db = NotificationStore::new();
    store.insert(pending("p1", "@u"));
    let reply: Result<String, String> =
        Ok("{\"content\":\"call dad\",\"time\":\"2026-02-05T18:00:00Z\"}".to_string());
    let updated = store.corrected("p1", "@u", "dad, not mom", &reply, 1).unwrap();
    store.insert(updated);
    let now = ts(2026, 2, 2, 12, 2);
    match store.begin_confirm("p1", "@u", &mut db, "n1".to_string(), now) {
        ConfirmStep::Saving(_, _) => {}
        other => panic!("unexpected step: {:?}", other),
    }
    let n = &db.notifications()[0];
    assert_eq!(n.content, "call dad");
    assert_eq!(
        n.notification_times,
        vec![ts(2026, 2, 4, 18, 0), ts(2026, 2, 5, 17, 0)]
    );
}

#[test]
fn draft_can_be_edited_in_place() {
    let mut action = pending("p9", "@u");
    if let Some(draft) = action.notification_draft_mut() {
        draft.message_id = Some(42);
    }
    assert_eq!(action.notification_draft().unwrap().message_id, Some(42));
    action.payload = None;
    assert!(action.notification_draft_mut().is_none());
}
