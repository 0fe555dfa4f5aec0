use reminder_bot::todo::{next_daily_run, TodoDone, TodoItem, TodoStore};

fn item(id: &str, user: &str, content: &str, created_at: i64, done: Option<i64>) -> TodoItem {
    TodoItem {
        id: id.to_string(),
        user_id: user.to_string(),
        content: content.to_string(),
        created_at,
        completed_at: done,
    }
}

fn sample() -> TodoStore {
    TodoStore::from_items(vec![
        item("1", "u", "buy milk", 30, None),
        item("2", "v", "call bob", 5, None),
        item("3", "u", "pay rent", 10, None),
        item("4", "u", "old chore", 1, Some(2)),
        item("5", "u", "walk dog", 30, None),
    ])
}

#[test]
fn open_items_are_oldest_first() {
    let store = sample();
    let items = store.open_items("u");
    let contents: Vec<&str> = items.iter().map(|i| i.content.as_str()).collect();
    assert_eq!(contents, vec!["pay rent", "buy milk", "walk dog"]);
}

#[test]
fn list_message_numbers_open_items() {
    let store = sample();
    assert_eq!(
        store.list_message("u"),
        "Your open todos:\n1) pay rent\n2) buy milk\n3) walk dog"
    );
    assert_eq!(store.list_message("nobody"), "You have no open todos.");
}

#[test]
fn mark_done_by_number() {
    let mut store = sample();
    assert_eq!(store.mark_done("u", 0, 99), TodoDone::InvalidIndex);
    assert_eq!(store.mark_done("u", 4, 99), TodoDone::NoSuchItem);
    assert_eq!(store.mark_done("u", 2, 99), TodoDone::Done);
    assert_eq!(store.items()[0].completed_at, Some(99));
    assert_eq!(store.list_message("u"), "Your open todos:\n1) pay rent\n2) walk dog");
}

#[test]
fn clear_removes_finished_items_of_the_user_only() {
    let mut store = TodoStore::from_items(vec![
        item("1", "u", "a", 1, Some(2)),
        item("2", "v", "b", 1, Some(2)),
        item("3", "u", "c", 1, None),
    ]);
    store.clear_completed("u");
    let ids: Vec<&str> = store.items().iter().map(|i| i.id.as_str()).collect();
    assert_eq!(ids, vec!["2", "3"]);
}

#[test]
fn daily_summaries_per_user() {
    let store = sample();
    let summaries = store.daily_summaries();
    assert_eq!(summaries.len(), 2);
    assert_eq!(summaries[0].0, "u");
    assert_eq!(
        summaries[0].1,
        "Good morning! Here is your current todo list:\n1) pay rent\n2) buy milk\n3) walk dog"
    );
    assert_eq!(summaries[1].0, "v");
    assert_eq!(summaries[1].1, "Good morning! Here is your current todo list:\n1) call bob");
}

#[test]
fn created_todo_is_open() {
    let mut store = TodoStore::new();
    let id = store.create_todo("u", "water plants  ", 7);
    assert_eq!(id.len(), 36);
    assert_eq!(store.items()[0].id, id);
    assert_eq!(store.list_message("u"), "Your open todos:\n1) water plants");
}

#[test]
fn next_run_is_seven_in_new_york() {
    // 2026-02-02 11:00 UTC is 06:00 in New York (EST): the run is the same day at 12:00 UTC.
    assert_eq!(next_daily_run(1_770_030_000), 1_770_033_600);
    // 13:00 UTC is past seven in New York: the run is the next day.
    assert_eq!(next_daily_run(1_770_037_200), 1_770_033_600 + 86_400);
}
