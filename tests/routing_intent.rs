use reminder_bot::routing::{
    intent_of_normalized, mentions_time_lower, has_am_pm, has_time_tokens, parse_router_payload, route_from_reply, route_intent,
    HeuristicRouter, Intent,
};

#[test]
fn routes_notification_when_time_tokens_present() {
    let router = HeuristicRouter;
    let result = router.route("notify me tomorrow at 3 to call mom");
    assert_eq!(result.intent, Intent::Notification);
}

#[test]
fn routes_unknown_when_no_time_tokens_present() {
    let router = HeuristicRouter;
    let result = router.route("buy milk and eggs");
    assert_eq!(result.intent, Intent::Unknown);
}

#[test]
fn routes_notification_for_month_dates() {
    let router = HeuristicRouter;
    let result = router.route("pay rent on March 5");
    assert_eq!(result.intent, Intent::Notification);
}

#[test]
fn routes_notification_for_am_pm_times() {
    let router = HeuristicRouter;
    let result = router.route("call mom 5pm");
    assert_eq!(result.intent, Intent::Notification);
}

#[test]
fn route_intent_trims_and_rejects_blank_text() {
    let result = route_intent("   ");
    assert_eq!(result.intent, Intent::Unknown);
    assert_eq!(result.normalized_text, "");
    let result = route_intent("  call mom TOMORROW  ");
    assert_eq!(result.intent, Intent::Notification);
    assert_eq!(result.normalized_text, "call mom TOMORROW");
}

#[test]
fn am_pm_needs_word_boundaries() {
    assert!(has_am_pm("call at 7am"));
    assert!(has_am_pm("pm"));
    assert!(has_am_pm("5 pm sharp"));
    assert!(!has_am_pm("spam folder"));
    assert!(!has_am_pm("amber"));
    assert!(!has_am_pm("a"));
}

#[test]
fn time_tokens_cover_weekdays_and_digits_with_separators() {
    assert!(has_time_tokens("gym SATURDAY"));
    assert!(has_time_tokens("dentist 3/14"));
    assert!(has_time_tokens("standup 9:30"));
    assert!(!has_time_tokens("ratio a/b"));
    assert!(!has_time_tokens("water plants"));
}

#[test]
fn router_payload_is_read_and_trimmed() {
    let parsed =
        parse_router_payload("{\"intent\":\"notification\",\"normalized_text\":\"  call mom  \"}")
            .expect("payload should parse");
    assert_eq!(parsed.intent, Intent::Notification);
    assert_eq!(parsed.normalized_text, "call mom");
    let other = parse_router_payload("{\"intent\":\"todolist\",\"normalized_text\":\"milk\"}")
        .expect("payload should parse");
    assert_eq!(other.intent, Intent::Unknown);
    assert!(parse_router_payload("not json").is_none());
    assert!(parse_router_payload("{\"intent\":\"notification\"}").is_none());
}

#[test]
fn model_route_falls_back_to_keywords() {
    let failed: Result<String, String> = Err("timeout".to_string());
    let result = route_from_reply("call mom tomorrow", &failed);
    assert_eq!(result.intent, Intent::Notification);
    let garbled: Result<String, String> = Ok("sure!".to_string());
    let result = route_from_reply("buy milk", &garbled);
    assert_eq!(result.intent, Intent::Unknown);
    assert_eq!(result.normalized_text, "buy milk");
    let answered: Result<String, String> =
        Ok("{\"intent\":\"notification\",\"normalized_text\":\"buy milk later\"}".to_string());
    let result = route_from_reply("buy milk", &answered);
    assert_eq!(result.intent, Intent::Notification);
    assert_eq!(result.normalized_text, "buy milk later");
}

#[test]
fn lowered_text_is_classified_exactly() {
    assert!(mentions_time_lower("see you at noon"));
    assert!(!mentions_time_lower("See You TOMORROW"));
    assert!(mentions_time_lower("12:30"));
    assert_eq!(intent_of_normalized("x", "tomorrow"), Intent::Notification);
    assert_eq!(intent_of_normalized("", "tomorrow"), Intent::Unknown);
    assert_eq!(intent_of_normalized("x", "milk"), Intent::Unknown);
}
