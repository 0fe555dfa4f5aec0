use reminder_bot::action::{draft_new_action, ActionStatus, ActionStore, ConfirmStep};
use reminder_bot::notification::NotificationStore;
use reminder_bot::routing::HeuristicRouter;
use reminder_bot::session::{route_notify, NotifyDecision, SessionKey, SessionStore};

const NOW: i64 = 1_769_990_400;
const REPLY: &str = "{\"content\":\"call mom\",\"time\":\"2026-02-03T12:00:00Z\"}";

fn request(sessions: &mut SessionStore, store: &mut ActionStore, text: &str) -> String {
    let key: SessionKey = ("@u".to_string(), "123".to_string());
    let decision = route_notify(&HeuristicRouter, sessions, key, text.to_string(), NOW);
    let normalized = match decision {
        NotifyDecision::EmitNotify { normalized_text } => normalized_text,
        NotifyDecision::NeedClarification => panic!("prompt not received"),
    };
    let reply: Result<String, String> = Ok(REPLY.to_string());
    let action = draft_new_action(&normalized, "@u", "123", &reply, NOW).unwrap();
    let id = action.id.clone();
    store.record_new(action, true);
    id
}

#[test]
fn end_to_end_notify_confirm_flow() {
    let mut sessions = SessionStore::new();
    let mut store = ActionStore::new();
    let mut db = NotificationStore::new();
    let action_id = request(&mut sessions, &mut store, "call mom tomorrow at 5");
    let (approved, added) = match store.confirm_request(&action_id, "@u", &mut db, NOW) {
        ConfirmStep::Saving(a, id) => (a, id),
        other => panic!("unexpected step: {:?}", other),
    };
    store.finish_confirm(approved, &mut db, Some(added), true, NOW);
    assert_eq!(db.len(), 1);
    let notification = &db.notifications()[0];
    assert_eq!(notification.content, "call mom");
    assert_eq!(notification.channel, "123");
}

#[test]
fn end_to_end_notify_rejection_flow() {
    let mut sessions = SessionStore::new();
    let mut store = ActionStore::new();
    let db = NotificationStore::new();
    let action_id = request(&mut sessions, &mut store, "call mom tomorrow at 5");
    assert!(store.cancel(&action_id, "@u", NOW).is_some());
    assert_eq!(store.get(&action_id).unwrap().status, ActionStatus::Rejected);
    assert_eq!(db.len(), 0);
}

#[test]
fn end_to_end_notify_context_correction_flow() {
    let mut sessions = SessionStore::new();
    let mut store = ActionStore::new();
    let mut db = NotificationStore::new();
    let action_id = request(&mut sessions, &mut store, "call mom tomorrow at 5");
    let prompt = store.correction_prompt(&action_id, "@u", "actually next day").unwrap();
    assert!(prompt.contains("Correction note: actually next day"));
    let reply: Result<String, String> = Ok(REPLY.to_string());
    let updated = store
        .corrected(&action_id, "@u", "actually next day", &reply, NOW)
        .expect("context update not applied");
    store.insert(updated);
    let draft = store.get(&action_id).unwrap().notification_draft().unwrap().clone();
    assert_eq!(draft.extra_context.as_deref(), Some("actually next day"));
    let (approved, added) = match store.confirm_request(&action_id, "@u", &mut db, NOW) {
        ConfirmStep::Saving(a, id) => (a, id),
        other => panic!("unexpected step: {:?}", other),
    };
    store.finish_confirm(approved, &mut db, Some(added), true, NOW);
    assert_eq!(db.len(), 1);
    assert_eq!(db.notifications()[0].content, "call mom");
}
