use chrono::TimeZone;
use reminder_bot::notification::{
    hours_until, notification_times, split_recipients, Delivery, Notification, NotificationMessageService,
    NotificationService, NotificationStore,
};

fn ts(y: i32, mo: u32, d: u32, h: u32, mi: u32) -> i64 {
    chrono::Utc.with_ymd_and_hms(y, mo, d, h, mi, 0).unwrap().timestamp()
}

fn notification(id: &str, times: Vec<i64>) -> Notification {
    Notification {
        id: id.to_string(),
        content: "call mom".to_string(),
        notify: vec!["@u".to_string()],
        notification_times: times,
        channel: "123".to_string(),
    }
}

#[test]
fn notification_tick_sends_and_expires_reminder() {
    let now = ts(2026, 2, 2, 12, 0);
    let mut db = NotificationStore::from_notifications(vec![notification("r1", vec![now - 60])])
        .expect("times are well formed");
    let deliveries = db.due_deliveries(now);
    assert_eq!(db.len(), 1);
    assert_eq!(deliveries.len(), 1);
    db.settle(&vec![deliveries[0].id.clone()], now, false);
    assert_eq!(db.len(), 0);
    assert_eq!(deliveries[0].channel, "123");
    let reply: Result<String, String> = Ok("Remember to call mom at noon.".to_string());
    let body = NotificationMessageService::build_message(&deliveries[0], &reply);
    assert!(body.contains("Remember to call mom at noon."));
}

#[test]
fn overdue_times_fire_one_per_tick() {
    let t = ts(2026, 2, 10, 12, 0);
    let now = t - 3600 + 1;
    let mut db = NotificationStore::from_notifications(vec![notification(
        "n1",
        vec![t - 7200, t - 3600],
    )])
    .unwrap();
    let first = db.due_deliveries(now);
    db.settle(&vec!["n1".to_string()], now, false);
    assert_eq!(first.len(), 1);
    assert_eq!(first[0].due_at, t - 7200);
    assert_eq!(first[0].event_time, t - 3600);
    assert_eq!(db.notifications()[0].notification_times, vec![t - 3600]);
    let second = db.due_deliveries(now);
    db.settle(&vec!["n1".to_string()], now, false);
    assert_eq!(second.len(), 1);
    assert_eq!(second[0].due_at, t - 3600);
    assert_eq!(db.len(), 0);
}

#[test]
fn tick_leaves_future_times_alone_and_fires_on_the_due_second() {
    let now = 1_000_000;
    let mut db = NotificationStore::from_notifications(vec![
        notification("later", vec![now + 1]),
        notification("due", vec![now, now + 50]),
        notification("empty", vec![]),
    ])
    .unwrap();
    let fired = db.due_deliveries(now);
    db.settle(&vec!["due".to_string()], now, false);
    assert_eq!(fired.len(), 1);
    assert_eq!(fired[0].id, "due");
    assert_eq!(db.len(), 2);
    assert_eq!(db.notifications()[0].id, "later");
    assert_eq!(db.notifications()[1].notification_times, vec![now + 50]);
}

#[test]
fn unordered_times_are_refused() {
    assert!(NotificationStore::from_notifications(vec![notification("x", vec![5, 5])]).is_some());
    assert!(NotificationStore::from_notifications(vec![notification("x", vec![9, 3])]).is_none());
}

#[test]
fn create_notification_populates_db_and_times() {
    let mut db = NotificationStore::new();
    let expires_at = ts(2026, 2, 10, 12, 0);
    let created = ts(2026, 2, 1, 0, 0);
    let id = NotificationService::create(
        &mut db,
        "pay rent",
        "@user1,@user2",
        expires_at,
        "123",
        created,
    )
    .expect("create notification should succeed");
    assert_eq!(db.len(), 1);
    let notification = &db.notifications()[0];
    assert_eq!(notification.id, id);
    assert_eq!(notification.id.len(), 36);
    assert_eq!(notification.content, "pay rent");
    assert_eq!(notification.channel, "123");
    assert_eq!(notification.notify, vec!["@user1".to_string(), "@user2".to_string()]);
    let expected = vec![expires_at - 86400, expires_at - 3600];
    assert_eq!(notification.notification_times, expected);
}

#[test]
fn derived_times_drop_those_already_past() {
    let e = ts(2026, 2, 10, 12, 0);
    assert_eq!(notification_times(e, e - 86400), vec![e - 86400, e - 3600]);
    assert_eq!(notification_times(e, e - 86399), vec![e - 3600]);
    assert_eq!(notification_times(e, e - 3600), vec![e - 3600]);
    assert_eq!(notification_times(e, e - 3599), Vec::<i64>::new());
}

#[test]
fn recipients_split_on_commas() {
    assert_eq!(split_recipients("@a,@b,"), vec!["@a".to_string(), "@b".to_string(), String::new()]);
    assert_eq!(split_recipients(""), vec![String::new()]);
    assert_eq!(split_recipients("@solo"), vec!["@solo".to_string()]);
}

fn delivery() -> Delivery {
    Delivery {
        id: "n1".to_string(),
        channel: "123".to_string(),
        content: "pay rent".to_string(),
        due_at: ts(2026, 2, 10, 11, 0),
        event_time: ts(2026, 2, 10, 12, 0),
    }
}

#[test]
fn build_message_uses_ai_response() {
    let reply: Result<String, String> = Ok("Pay rent at noon.".to_string());
    let msg = NotificationMessageService::build_message(&delivery(), &reply);
    assert_eq!(msg, "Pay rent at noon.");
}

#[test]
fn build_message_falls_back_on_error() {
    let reply: Result<String, String> = Err("boom".to_string());
    let msg = NotificationMessageService::build_message(&delivery(), &reply);
    assert!(msg.contains("Notification: pay rent"));
    assert!(msg.contains("2026-02-10"));
    assert_eq!(msg, "Notification: pay rent at 2026-02-10 12:00:00 UTC");
}

#[test]
fn build_message_falls_back_on_blank_answer() {
    let reply: Result<String, String> = Ok("  \n ".to_string());
    let msg = NotificationMessageService::build_message(&delivery(), &reply);
    assert_eq!(msg, "Notification: pay rent at 2026-02-10 12:00:00 UTC");
}

#[test]
fn failed_delivery_keeps_its_time() {
    let now = 1_000_000;
    let mut db = NotificationStore::from_notifications(vec![
        notification("a", vec![now - 10, now + 100]),
        notification("b", vec![now - 5]),
    ])
    .unwrap();
    let due = db.due_deliveries(now);
    assert_eq!(due.len(), 2);
    db.settle(&vec!["b".to_string()], now, false);
    assert_eq!(db.len(), 1);
    assert_eq!(db.notifications()[0].notification_times, vec![now - 10, now + 100]);
    assert_eq!(db.due_deliveries(now).len(), 1);
}

#[test]
fn settle_deletes_notifications_without_times() {
    let mut db = NotificationStore::from_notifications(vec![notification("e", vec![])]).unwrap();
    assert!(db.due_deliveries(5).is_empty());
    db.settle(&Vec::new(), 5, false);
    assert_eq!(db.len(), 0);
}

#[test]
fn taken_identifier_is_refused() {
    let mut db = NotificationStore::new();
    let e = ts(2026, 3, 1, 9, 0);
    assert!(db.create("n1".to_string(), "a", "@u", e, "1", 0));
    assert!(!db.create("n1".to_string(), "b", "@u", e, "1", 0));
    assert_eq!(db.len(), 1);
    assert_eq!(db.notifications()[0].content, "a");
    assert!(db.contains_id("n1"));
    assert!(!db.contains_id("n2"));
}

#[test]
fn hours_round_toward_zero() {
    assert_eq!(hours_until(7200, 0), 2);
    assert_eq!(hours_until(7199, 0), 1);
    assert_eq!(hours_until(0, 7199), -1);
    assert_eq!(hours_until(0, 3599), 0);
}

#[test]
fn delivery_text_uses_answer_or_fallback() {
    assert_eq!(
        NotificationMessageService::delivery_text(Some("Hi!".to_string()), "x", "then"),
        "Hi!"
    );
    assert_eq!(
        NotificationMessageService::delivery_text(None, "pay rent", "noon"),
        "Notification: pay rent at noon"
    );
}

#[test]
fn cut_short_tick_deletes_nothing() {
    let now = 1_000_000;
    let mut db = NotificationStore::from_notifications(vec![
        notification("a", vec![now - 10]),
        notification("b", vec![now - 5]),
        notification("e", vec![]),
    ])
    .unwrap();
    db.settle(&vec!["a".to_string()], now, true);
    assert_eq!(db.len(), 3);
    assert!(db.notifications()[0].notification_times.is_empty());
    assert_eq!(db.notifications()[1].notification_times, vec![now - 5]);
    db.settle(&Vec::new(), now + 1, false);
    assert_eq!(db.len(), 1);
    assert_eq!(db.notifications()[0].id, "b");
}

#[test]
fn retract_removes_only_that_identifier() {
    let e = ts(2026, 3, 1, 9, 0);
    let mut db = NotificationStore::new();
    assert!(db.create("n1".to_string(), "a", "@u", e, "1", 0));
    assert!(db.create("n2".to_string(), "b", "@u", e, "1", 0));
    db.retract("n1");
    assert_eq!(db.len(), 1);
    assert_eq!(db.notifications()[0].id, "n2");
}
