//! Per-user todo lists: open items in order of creation, marking one done by
//! its number, clearing finished ones, and the morning summary.
use vstd::prelude::*;
use crate::config::{decimal, decimal_of};
use crate::ids::fresh_id;
use crate::text::{same_text, trim_end_of, trim_end_text};
use crate::time::{valid_time, DAY};

verus! {

/// A todo item of a user.
#[derive(Debug, Clone)]
pub struct TodoItem {
    pub id: String,
    pub user_id: String,
    pub content: String,
    pub created_at: i64,
    pub completed_at: Option<i64>,
}

/// `t` belongs to `user` and is not done.
pub open spec fn is_open_for(t: TodoItem, user: Seq<char>) -> bool {
    t.user_id@ == user && t.completed_at is None
}

/// The positions of the items of `s` that are open for `user`, in order.
pub open spec fn open_positions(s: Seq<TodoItem>, user: Seq<char>) -> Seq<int>
    decreases s.len(),
{
    if s.len() == 0 {
        Seq::empty()
    } else {
        let r = open_positions(s.drop_last(), user);
        if is_open_for(s.last(), user) {
            r.push(s.len() - 1)
        } else {
            r
        }
    }
}

/// `q` with position `p` put before the first position created later than it.
pub open spec fn insert_by_creation(s: Seq<TodoItem>, q: Seq<int>, p: int) -> Seq<int>
    decreases q.len(),
{
    if q.len() == 0 {
        seq![p]
    } else if s[p].created_at < s[q[0]].created_at {
        seq![p] + q
    } else {
        seq![q[0]] + insert_by_creation(s, q.drop_first(), p)
    }
}

/// The positions `q` ordered by creation time; equal times keep their order.
pub open spec fn sort_by_creation(s: Seq<TodoItem>, q: Seq<int>) -> Seq<int>
    decreases q.len(),
{
    if q.len() == 0 {
        Seq::empty()
    } else {
        insert_by_creation(s, sort_by_creation(s, q.drop_last()), q.last())
    }
}

/// The open items of `user`, oldest first.
pub open spec fn open_items_of(s: Seq<TodoItem>, user: Seq<char>) -> Seq<TodoItem> {
    sort_by_creation(s, open_positions(s, user)).map_values(|i: int| s[i])
}

proof fn lemma_insert_at(s: Seq<TodoItem>, q: Seq<int>, p: int, j: int)
    requires
        0 <= j <= q.len(),
        forall|k: int| 0 <= k < j ==> s[q[k]].created_at <= s[p].created_at,
        j < q.len() ==> s[q[j]].created_at > s[p].created_at,
    ensures
        insert_by_creation(s, q, p) == q.subrange(0, j) + seq![p] + q.subrange(j, q.len() as int),
    decreases q.len(),
{
    if q.len() == 0 {
        assert(q.subrange(0, j) + seq![p] + q.subrange(j, q.len() as int) =~= seq![p]);
    } else if j == 0 {
        assert(q.subrange(0, j) + seq![p] + q.subrange(j, q.len() as int) =~= seq![p] + q);
    } else {
        let d = q.drop_first();
        assert forall|k: int| 0 <= k < j - 1 implies s[d[k]].created_at <= s[p].created_at by {
            assert(d[k] == q[k + 1]);
        }
        if j - 1 < d.len() {
            assert(d[j - 1] == q[j]);
        }
        lemma_insert_at(s, d, p, j - 1);
        assert(q.subrange(0, j) + seq![p] + q.subrange(j, q.len() as int) =~= seq![q[0]] + (
        d.subrange(0, j - 1) + seq![p] + d.subrange(j - 1, d.len() as int)));
    }
}

/// The plain positions of a vector of indices.
pub open spec fn ints(v: Seq<usize>) -> Seq<int> {
    v.map_values(|x: usize| x as int)
}

/// The todo items of all users.
pub struct TodoStore {
    items: Vec<TodoItem>,
}

impl TodoStore {
    /// The items in order of insertion.
    pub closed spec fn view(&self) -> Seq<TodoItem> {
        self.items@
    }

    /// A store with no item.
    pub fn new() -> (r: TodoStore)
        ensures
            r@ == Seq::<TodoItem>::empty(),
    {
        TodoStore { items: Vec::new() }
    }

    /// A store holding `items`.
    pub fn from_items(items: Vec<TodoItem>) -> (r: TodoStore)
        ensures
            r@ == items@,
    {
        TodoStore { items }
    }

    /// The stored items.
    pub fn items(&self) -> (r: &Vec<TodoItem>)
        ensures
            r@ == self@,
    {
        &self.items
    }

    /// Adds an open item about `content` for `user_id`, created at `now`,
    /// under a fresh identifier, which is returned.
    pub fn create_todo(&mut self, user_id: &str, content: &str, now: i64) -> (r: String)
        ensures
            final(self)@.len() == old(self)@.len() + 1,
            final(self)@.drop_last() == old(self)@,
            final(self)@.last().id@ == r@,
            final(self)@.last().user_id@ == user_id@,
            final(self)@.last().content@ == content@,
            final(self)@.last().created_at == now,
            final(self)@.last().completed_at is None,
    {
        let id = fresh_id();
        let item = TodoItem {
            id: id.clone(),
            user_id: user_id.to_owned(),
            content: content.to_owned(),
            created_at: now,
            completed_at: None,
        };
        self.items.push(item);
        assert(self@.drop_last() =~= old(self)@);
        id
    }

    fn open_positions_exec(&self, user_id: &str) -> (r: Vec<usize>)
        ensures
            ints(r@) == open_positions(self@, user_id@),
            forall|k: int| 0 <= k < r@.len() ==> r@[k] < self@.len(),
    {
        let mut r: Vec<usize> = Vec::new();
        let mut i: usize = 0;
        while i < self.items.len()
            invariant
                i <= self@.len(),
                ints(r@) == open_positions(self@.subrange(0, i as int), user_id@),
                forall|k: int| 0 <= k < r@.len() ==> r@[k] < i,
            decreases self@.len() - i,
        {
            proof {
                let next = self@.subrange(0, i + 1);
                assert(next.drop_last() =~= self@.subrange(0, i as int));
                assert(next.last() == self@[i as int]);
            }
            let item = &self.items[i];
            if same_text(item.user_id.as_str(), user_id) && item.completed_at.is_none() {
                r.push(i);
                assert(ints(r@) =~= open_positions(self@.subrange(0, i as int), user_id@).push(
                    i as int,
                ));
            }
            i += 1;
        }
        assert(self@.subrange(0, i as int) =~= self@);
        r
    }

    /// The positions of the open items of `user_id`, oldest first.
    fn open_order(&self, user_id: &str) -> (r: Vec<usize>)
        ensures
            ints(r@) == sort_by_creation(self@, open_positions(self@, user_id@)),
            forall|k: int| 0 <= k < r@.len() ==> r@[k] < self@.len(),
    {
        let positions = self.open_positions_exec(user_id);
        let ghost q = ints(positions@);
        let mut sorted: Vec<usize> = Vec::new();
        let mut k: usize = 0;
        assert(ints(sorted@) =~= sort_by_creation(self@, q.subrange(0, 0)));
        while k < positions.len()
            invariant
                q == ints(positions@),
                forall|m: int| 0 <= m < positions@.len() ==> positions@[m] < self@.len(),
                k <= positions@.len(),
                ints(sorted@) == sort_by_creation(self@, q.subrange(0, k as int)),
                forall|m: int| 0 <= m < sorted@.len() ==> sorted@[m] < self@.len(),
            decreases positions@.len() - k,
        {
            let p = positions[k];
            let t = self.items[p].created_at;
            let mut j: usize = 0;
            while j < sorted.len() && self.items[sorted[j]].created_at <= t
                invariant
                    j <= sorted@.len(),
                    p < self@.len(),
                    t == self@[p as int].created_at,
                    forall|m: int| 0 <= m < sorted@.len() ==> sorted@[m] < self@.len(),
                    forall|m: int| 0 <= m < j ==> self@[sorted@[m] as int].created_at <= t,
                decreases sorted@.len() - j,
            {
                j += 1;
            }
            proof {
                let prev = ints(sorted@);
                assert forall|m: int| 0 <= m < j implies self@[prev[m]].created_at
                    <= self@[p as int].created_at by {
                    assert(prev[m] == sorted@[m] as int);
                }
                if j < sorted@.len() {
                    assert(prev[j as int] == sorted@[j as int] as int);
                }
                lemma_insert_at(self@, prev, p as int, j as int);
                let next = q.subrange(0, k + 1);
                assert(next.drop_last() =~= q.subrange(0, k as int));
                assert(next.last() == p as int);
            }
            let ghost prev = ints(sorted@);
            sorted.insert(j, p);
            assert(ints(sorted@) =~= prev.subrange(0, j as int) + seq![p as int] + prev.subrange(
                j as int,
                prev.len() as int,
            ));
            k += 1;
        }
        assert(q.subrange(0, k as int) =~= q);
        sorted
    }

    /// The open items of `user_id`, oldest first.
    pub fn open_items(&self, user_id: &str) -> (r: Vec<TodoItem>)
        ensures
            r@ == open_items_of(self@, user_id@),
    {
        let order = self.open_order(user_id);
        let ghost o = ints(order@);
        let mut r: Vec<TodoItem> = Vec::new();
        let mut k: usize = 0;
        while k < order.len()
            invariant
                o == ints(order@),
                o == sort_by_creation(self@, open_positions(self@, user_id@)),
                forall|m: int| 0 <= m < order@.len() ==> order@[m] < self@.len(),
                k <= order@.len(),
                r@ == o.subrange(0, k as int).map_values(|i: int| self@[i]),
            decreases order@.len() - k,
        {
            let item = self.items[order[k]].duplicate();
            r.push(item);
            assert(r@ =~= o.subrange(0, k + 1).map_values(|i: int| self@[i]));
            k += 1;
        }
        assert(o.subrange(0, k as int) =~= o);
        r
    }
}

impl TodoItem {
    /// A copy of the item.
    pub fn duplicate(&self) -> (r: TodoItem)
        ensures
            r == *self,
    {
        TodoItem {
            id: self.id.clone(),
            user_id: self.user_id.clone(),
            content: self.content.clone(),
            created_at: self.created_at,
            completed_at: self.completed_at,
        }
    }
}

/// The items numbered from 1, one per line: `1) first` and so on, each line
/// ending in a line break.
pub open spec fn numbered_lines(items: Seq<TodoItem>) -> Seq<char>
    decreases items.len(),
{
    if items.len() == 0 {
        Seq::empty()
    } else {
        numbered_lines(items.drop_last()) + decimal_of(items.len()) + ") "@ + items.last().content@
            + "\n"@
    }
}

/// The reply to a user asking for their open items.
pub open spec fn list_message_of(s: Seq<TodoItem>, user: Seq<char>) -> Seq<char> {
    let items = open_items_of(s, user);
    if items.len() == 0 {
        "You have no open todos."@
    } else {
        trim_end_of("Your open todos:\n"@ + numbered_lines(items))
    }
}

/// The morning message listing `items`.
pub open spec fn summary_of(items: Seq<TodoItem>) -> Seq<char> {
    trim_end_of("Good morning! Here is your current todo list:\n"@ + numbered_lines(items))
}

fn numbered(header: &str, items: &Vec<TodoItem>) -> (r: String)
    ensures
        r@ == trim_end_of(header@ + numbered_lines(items@)),
{
    let mut text = String::from_str(header);
    let mut k: usize = 0;
    while k < items.len()
        invariant
            k <= items@.len(),
            text@ == header@ + numbered_lines(items@.subrange(0, k as int)),
        decreases items@.len() - k,
    {
        proof {
            let next = items@.subrange(0, k + 1);
            assert(next.drop_last() =~= items@.subrange(0, k as int));
            assert(next.last() == items@[k as int]);
        }
        let number = decimal(k + 1);
        text.append(number.as_str());
        text.append(") ");
        text.append(items[k].content.as_str());
        text.append("\n");
        k += 1;
    }
    assert(items@.subrange(0, k as int) =~= items@);
    trim_end_text(text.as_str())
}

/// `t` marked done at `now`.
pub open spec fn completed(t: TodoItem, now: i64) -> TodoItem {
    TodoItem { completed_at: Some(now), ..t }
}

/// The outcome of marking an item done by its number.
#[derive(Debug, Clone, Copy, PartialEq, Eq, Structural)]
pub enum TodoDone {
    Done,
    InvalidIndex,
    NoSuchItem,
}

/// The items of `s` without the finished ones of `user`.
pub open spec fn cleared(s: Seq<TodoItem>, user: Seq<char>) -> Seq<TodoItem>
    decreases s.len(),
{
    if s.len() == 0 {
        Seq::empty()
    } else {
        let r = cleared(s.drop_last(), user);
        if s.last().user_id@ == user && s.last().completed_at is Some {
            r
        } else {
            r.push(s.last())
        }
    }
}

/// The users with an open item, in the order of their first open item.
pub open spec fn summary_users(s: Seq<TodoItem>) -> Seq<Seq<char>>
    decreases s.len(),
{
    if s.len() == 0 {
        Seq::empty()
    } else {
        let r = summary_users(s.drop_last());
        if s.last().completed_at is None && !r.contains(s.last().user_id@) {
            r.push(s.last().user_id@)
        } else {
            r
        }
    }
}

fn listed(users: &Vec<String>, user: &str) -> (r: bool)
    ensures
        r == users@.map_values(|u: String| u@).contains(user@),
{
    let ghost v = users@.map_values(|u: String| u@);
    let mut i: usize = 0;
    while i < users.len()
        invariant
            v == users@.map_values(|u: String| u@),
            i <= users@.len(),
            forall|k: int| 0 <= k < i ==> v[k] != user@,
        decreases users@.len() - i,
    {
        if same_text(users[i].as_str(), user) {
            assert(v[i as int] == user@);
            return true;
        }
        i += 1;
    }
    false
}

impl TodoStore {
    /// The reply to `user_id` asking for their open items.
    pub fn list_message(&self, user_id: &str) -> (r: String)
        ensures
            r@ == list_message_of(self@, user_id@),
    {
        let items = self.open_items(user_id);
        if items.len() == 0 {
            String::from_str("You have no open todos.")
        } else {
            numbered("Your open todos:\n", &items)
        }
    }

    /// Marks done at `now` the open item of `user_id` with number `index`
    /// (counted from 1, oldest first).
    pub fn mark_done(&mut self, user_id: &str, index: i64, now: i64) -> (r: TodoDone)
        ensures
            ({
                let order = sort_by_creation(old(self)@, open_positions(old(self)@, user_id@));
                &&& index <= 0 ==> r == TodoDone::InvalidIndex && final(self)@ == old(self)@
                &&& index > order.len() ==> r == TodoDone::NoSuchItem && final(self)@ == old(self)@
                &&& 0 < index <= order.len() ==> r == TodoDone::Done && final(self)@ == old(self)@.update(
                    order[index - 1],
                    completed(old(self)@[order[index - 1]], now),
                )
            }),
    {
        if index <= 0 {
            return TodoDone::InvalidIndex;
        }
        let order = self.open_order(user_id);
        if index as u64 > order.len() as u64 {
            return TodoDone::NoSuchItem;
        }
        let p = order[(index - 1) as usize];
        assert(ints(order@)[index - 1] == p as int);
        let mut item = self.items[p].duplicate();
        item.completed_at = Some(now);
        self.items.set(p, item);
        TodoDone::Done
    }

    /// Removes the finished items of `user_id`.
    pub fn clear_completed(&mut self, user_id: &str)
        ensures
            final(self)@ == cleared(old(self)@, user_id@),
    {
        let ghost s = self@;
        let mut kept: Vec<TodoItem> = Vec::new();
        let mut i: usize = 0;
        while i < self.items.len()
            invariant
                s == self@,
                i <= s.len(),
                kept@ == cleared(s.subrange(0, i as int), user_id@),
            decreases s.len() - i,
        {
            proof {
                let next = s.subrange(0, i + 1);
                assert(next.drop_last() =~= s.subrange(0, i as int));
                assert(next.last() == s[i as int]);
            }
            let item = &self.items[i];
            if !(same_text(item.user_id.as_str(), user_id) && item.completed_at.is_some()) {
                kept.push(item.duplicate());
            }
            i += 1;
        }
        assert(s.subrange(0, i as int) =~= s);
        self.items = kept;
    }

    /// For each user with an open item, in the order of their first open
    /// item, the user and the morning message listing their open items.
    pub fn daily_summaries(&self) -> (r: Vec<(String, String)>)
        ensures
            r@.len() == summary_users(self@).len(),
            forall|k: int|
                0 <= k < r@.len() ==> (#[trigger] r@[k]).0@ == summary_users(self@)[k] && r@[k].1@
                    == summary_of(open_items_of(self@, summary_users(self@)[k])),
    {
        let ghost s = self@;
        let mut users: Vec<String> = Vec::new();
        let mut i: usize = 0;
        while i < self.items.len()
            invariant
                s == self@,
                i <= s.len(),
                users@.map_values(|u: String| u@) == summary_users(s.subrange(0, i as int)),
            decreases s.len() - i,
        {
            proof {
                let next = s.subrange(0, i + 1);
                assert(next.drop_last() =~= s.subrange(0, i as int));
                assert(next.last() == s[i as int]);
            }
            let item = &self.items[i];
            if item.completed_at.is_none() && !listed(&users, item.user_id.as_str()) {
                users.push(item.user_id.clone());
                assert(users@.map_values(|u: String| u@) =~= summary_users(
                    s.subrange(0, i as int),
                ).push(s[i as int].user_id@));
            }
            i += 1;
        }
        assert(s.subrange(0, i as int) =~= s);
        let ghost names = users@.map_values(|u: String| u@);
        let mut r: Vec<(String, String)> = Vec::new();
        let mut k: usize = 0;
        while k < users.len()
            invariant
                s == self@,
                names == users@.map_values(|u: String| u@),
                names == summary_users(s),
                k <= users@.len(),
                r@.len() == k,
                forall|m: int|
                    0 <= m < k ==> (#[trigger] r@[m]).0@ == names[m] && r@[m].1@ == summary_of(
                        open_items_of(s, names[m]),
                    ),
            decreases users@.len() - k,
        {
            let items = self.open_items(users[k].as_str());
            let body = numbered("Good morning! Here is your current todo list:\n", &items);
            r.push((users[k].clone(), body));
            k += 1;
        }
        r
    }
}

/// The hour of the morning summary, New York time.
pub const SUMMARY_HOUR: u32 = 7;

/// The instant, as seconds since the epoch, of the wall time `hour`:00 in New
/// York on the New York date of `now`, where that wall time names a single
/// instant.
pub uninterp spec fn new_york_hour_of(now: int, hour: int) -> Option<int>;

/// The wall time `hour`:00 of the New York date of `now`, read as a UTC time.
pub uninterp spec fn new_york_hour_as_utc_of(now: int, hour: int) -> int;

/// `now` lies a day or more inside the representable range, so that its New
/// York date and any hour of that date are representable.
pub open spec fn zone_safe(now: int) -> bool {
    valid_time(now - DAY) && valid_time(now + DAY)
}

/// Relies on chrono and chrono-tz: `with_timezone(&New_York).date_naive()`,
/// `and_hms_opt(hour, 0, 0)`, then `TimeZone::from_local_datetime` and
/// `LocalResult::single`. The result depends on `now` and `hour` alone; an
/// instant is the timestamp of a `DateTime` and so a representable time.
/// Away from both ends of the range by a day, none of these calls panics.
#[verifier::external_body]
fn new_york_hour(now: i64, hour: u32) -> (r: Option<i64>)
    requires
        zone_safe(now as int),
        hour < 24,
    ensures
        match r {
            Some(t) => new_york_hour_of(now as int, hour as int) == Some(t as int) && valid_time(
                t as int,
            ),
            None => new_york_hour_of(now as int, hour as int) is None,
        },
{
    let zone = chrono_tz::America::New_York;
    let utc = chrono::DateTime::from_timestamp(now, 0).unwrap_or_default();
    let wall = utc.with_timezone(&zone).date_naive().and_hms_opt(hour, 0, 0).unwrap_or_default();
    chrono::TimeZone::from_local_datetime(&zone, &wall).single().map(|d| d.timestamp())
}

/// Relies on chrono and chrono-tz: `with_timezone(&New_York).date_naive()`,
/// `and_hms_opt(hour, 0, 0)`, then `TimeZone::from_utc_datetime`. The result
/// depends on `now` and `hour` alone and, being the timestamp of a
/// `DateTime`, is a representable time.
#[verifier::external_body]
fn new_york_hour_as_utc(now: i64, hour: u32) -> (r: i64)
    requires
        zone_safe(now as int),
        hour < 24,
    ensures
        r == new_york_hour_as_utc_of(now as int, hour as int),
        valid_time(r as int),
{
    let zone = chrono_tz::America::New_York;
    let utc = chrono::DateTime::from_timestamp(now, 0).unwrap_or_default();
    let wall = utc.with_timezone(&zone).date_naive().and_hms_opt(hour, 0, 0).unwrap_or_default();
    chrono::TimeZone::from_utc_datetime(&zone, &wall).timestamp()
}

/// The summary hour in New York on the day of `now`: the instant of that
/// wall time, or the wall time read as UTC where it names no single instant.
pub open spec fn new_york_morning_of(now: int) -> int {
    match new_york_hour_of(now, SUMMARY_HOUR as int) {
        Some(t) => t,
        None => new_york_hour_as_utc_of(now, SUMMARY_HOUR as int),
    }
}

/// The next morning summary after `now`: the summary hour in New York today
/// if that is still ahead, otherwise a day later.
pub fn next_daily_run(now: i64) -> (r: i64)
    requires
        zone_safe(now as int),
    ensures
        r == if now < new_york_morning_of(now as int) {
            new_york_morning_of(now as int)
        } else {
            new_york_morning_of(now as int) + DAY
        },
{
    let target = match new_york_hour(now, SUMMARY_HOUR) {
        Some(t) => t,
        None => new_york_hour_as_utc(now, SUMMARY_HOUR),
    };
    if now < target {
        target
    } else {
        target + DAY
    }
}

} // verus!
