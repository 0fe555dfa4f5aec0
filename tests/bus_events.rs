use reminder_bot::action::ActionEvent;
use reminder_bot::events::Event;
use reminder_bot::services::{
    DiscordApprovalPromptService, DiscordDmSender, DiscordSender, OpenAIService,
};
use std::sync::Arc;

#[test]
fn bus_events_map_to_workflow_events() {
    let e = Event::PendingConfirmed { pending_id: "a1".to_string(), user_id: "@u".to_string() };
    match e.into_action_event() {
        ActionEvent::ApprovalConfirmed { action_id, user_id } => {
            assert_eq!(action_id, "a1");
            assert_eq!(user_id, "@u");
        }
        other => panic!("unexpected event: {:?}", other),
    }
    let e = Event::ContextSubmitted {
        pending_id: "a2".to_string(),
        user_id: "@v".to_string(),
        context: "later".to_string(),
    };
    match e.into_action_event() {
        ActionEvent::ContextSubmitted { action_id, user_id, context } => {
            assert_eq!((action_id.as_str(), user_id.as_str(), context.as_str()), ("a2", "@v", "later"));
        }
        other => panic!("unexpected event: {:?}", other),
    }
    let e = Event::PendingCanceled { pending_id: "a3".to_string(), user_id: "@w".to_string() };
    assert!(matches!(e.into_action_event(), ActionEvent::ApprovalCanceled { .. }));
    let e = Event::NotifyRequested {
        text: "t".to_string(),
        user_id: "@u".to_string(),
        channel_id: "1".to_string(),
    };
    assert!(matches!(e.into_action_event(), ActionEvent::NotifyRequested { .. }));
}

#[test]
fn services_keep_their_credentials() {
    assert_eq!(DiscordSender::new("t1".to_string()).credential(), "t1");
    assert_eq!(DiscordDmSender::new("t2".to_string()).credential(), "t2");
    assert_eq!(OpenAIService::new("k".to_string()).credential(), "k");
    assert_eq!(DiscordApprovalPromptService::new(Arc::new("t3".to_string())).credential(), "t3");
}

use reminder_bot::events::{button_id, modal_id, modal_target, parse_button, PromptButton};

#[test]
fn notification_service_pending_buttons_include_namespaced_ids() {
    assert_eq!(button_id(PromptButton::Confirm, "abc123"), "action_confirm:abc123");
    assert_eq!(button_id(PromptButton::AddContext, "abc123"), "action_context:abc123");
    assert_eq!(button_id(PromptButton::Cancel, "abc123"), "action_cancel:abc123");
}

#[test]
fn button_ids_read_back() {
    for b in [PromptButton::Confirm, PromptButton::AddContext, PromptButton::Cancel] {
        let id = button_id(b, "a:b");
        let (parsed, action) = parse_button(&id).expect("known button");
        assert_eq!(parsed, b);
        assert_eq!(action, "a:b");
    }
    assert!(parse_button("reminder_confirm:x").is_none());
    assert!(parse_button("action_confirm").is_none());
    assert_eq!(parse_button("action_cancel:").unwrap().1, "");
}

#[test]
fn pending_context_opens_modal() {
    assert_eq!(modal_id("action123"), "action_context_modal:action123");
    assert_eq!(modal_target(&modal_id("action123")), Some("action123".to_string()));
    assert_eq!(modal_target("no-colon"), None);
}
