use reminder_bot::routing::{HeuristicRouter, Intent, IntentResult};
use reminder_bot::session::{route_notify, NotifyDecision, SessionKey, SessionState, SessionStore};

const NOW: i64 = 1_770_000_000;

#[test]
fn unknown_then_notification_routes_on_followup() {
    let mut sessions = SessionStore::new();
    let key: SessionKey = ("@user".to_string(), "channel".to_string());

    let input = sessions.classifier_input(&key, "call mom", NOW);
    assert_eq!(input, "call mom");
    let first = sessions.record_route(
        key.clone(),
        input,
        IntentResult { intent: Intent::Unknown, normalized_text: "call mom".to_string() },
        NOW,
    );
    assert!(matches!(first, NotifyDecision::NeedClarification));
    assert!(sessions.get(&key).is_some());

    let input = sessions.classifier_input(&key, "tomorrow at 5", NOW);
    assert_eq!(input, "call mom tomorrow at 5");
    let second = sessions.record_route(
        key.clone(),
        input,
        IntentResult {
            intent: Intent::Notification,
            normalized_text: "notify me tomorrow at 5 to call mom".to_string(),
        },
        NOW,
    );
    match second {
        NotifyDecision::EmitNotify { normalized_text } => {
            assert!(normalized_text.contains("tomorrow"));
        }
        _ => panic!("expected emit notify on follow-up"),
    }
    let session = sessions.get(&key).unwrap();
    assert_eq!(session.state, SessionState::PendingNotification);
    assert_eq!(session.original_text, "call mom tomorrow at 5");
}

#[test]
fn follow_up_merges_within_window_only() {
    let key: SessionKey = ("@u".to_string(), "c".to_string());
    let mut sessions = SessionStore::new();
    let router = HeuristicRouter;
    let first = route_notify(&router, &mut sessions, key.clone(), "call mom".to_string(), NOW);
    assert!(matches!(first, NotifyDecision::NeedClarification));
    assert_eq!(sessions.classifier_input(&key, "tomorrow at 5", NOW + 300), "call mom tomorrow at 5");
    assert_eq!(sessions.classifier_input(&key, "tomorrow at 5", NOW + 301), "tomorrow at 5");

    let merged = route_notify(&router, &mut sessions, key.clone(), "tomorrow at 5".to_string(), NOW + 300);
    match merged {
        NotifyDecision::EmitNotify { normalized_text } => {
            assert_eq!(normalized_text, "call mom tomorrow at 5")
        }
        _ => panic!("expected emit notify"),
    }
}

#[test]
fn expired_session_routes_follow_up_alone() {
    let key: SessionKey = ("@u".to_string(), "c".to_string());
    let mut sessions = SessionStore::new();
    let router = HeuristicRouter;
    route_notify(&router, &mut sessions, key.clone(), "call mom".to_string(), NOW);
    let later = route_notify(&router, &mut sessions, key.clone(), "buy eggs".to_string(), NOW + 301);
    assert!(matches!(later, NotifyDecision::NeedClarification));
    assert_eq!(sessions.get(&key).unwrap().original_text, "buy eggs");
}

#[test]
fn resolved_session_is_not_merged() {
    let key: SessionKey = ("@u".to_string(), "c".to_string());
    let mut sessions = SessionStore::new();
    let router = HeuristicRouter;
    let first = route_notify(&router, &mut sessions, key.clone(), "call mom tomorrow".to_string(), NOW);
    assert!(matches!(first, NotifyDecision::EmitNotify { .. }));
    assert_eq!(sessions.classifier_input(&key, "buy milk", NOW + 10), "buy milk");
}

#[test]
fn sessions_are_kept_per_user_and_channel() {
    let mut sessions = SessionStore::new();
    let router = HeuristicRouter;
    let a: SessionKey = ("@a".to_string(), "c".to_string());
    let b: SessionKey = ("@b".to_string(), "c".to_string());
    route_notify(&router, &mut sessions, a.clone(), "call mom".to_string(), NOW);
    assert_eq!(sessions.classifier_input(&b, "tomorrow", NOW), "tomorrow");
    assert_eq!(sessions.classifier_input(&a, "tomorrow", NOW), "call mom tomorrow");
}
