//! Confirmed notifications, the times at which they are delivered, and the
//! scheduler tick that fires due ones and prunes exhausted ones.
use vstd::prelude::*;
use crate::ids::fresh_id;
use crate::text::{trim_of, trim_text};
use crate::time::{utc_text, utc_text_of, valid_time, DAY, HOUR};

verus! {

/// A confirmed reminder with the delivery times still ahead of it.
#[derive(Debug, Clone)]
pub struct Notification {
    pub id: String,
    pub content: String,
    pub notify: Vec<String>,
    pub notification_times: Vec<i64>,
    pub channel: String,
}

/// A notification as plain values.
pub struct NotificationView {
    pub id: Seq<char>,
    pub content: Seq<char>,
    pub notify: Seq<Seq<char>>,
    pub times: Seq<i64>,
    pub channel: Seq<char>,
}

impl View for Notification {
    type V = NotificationView;

    open spec fn view(&self) -> NotificationView {
        NotificationView {
            id: self.id@,
            content: self.content@,
            notify: self.notify@.map_values(|u: String| u@),
            times: self.notification_times@,
            channel: self.channel@,
        }
    }
}

/// The plain values of a sequence of notifications.
pub open spec fn views(s: Seq<Notification>) -> Seq<NotificationView> {
    s.map_values(|n: Notification| n@)
}

/// The plain values of a sequence of deliveries.
pub open spec fn delivery_views(s: Seq<Delivery>) -> Seq<DeliveryView> {
    s.map_values(|d: Delivery| d@)
}

/// Every delivery time is a representable time and they never descend.
pub open spec fn times_well_formed(times: Seq<i64>) -> bool {
    &&& forall|i: int| 0 <= i < times.len() ==> valid_time(#[trigger] times[i] as int)
    &&& forall|i: int, j: int| 0 <= i < j < times.len() ==> times[i] <= times[j]
}

/// The delivery `lead` seconds before `expires_at`, kept where it is a
/// representable time and not before the moment of creation `now`.
pub open spec fn lead_time(expires_at: int, lead: int, now: int) -> Seq<i64> {
    if valid_time(expires_at - lead) && expires_at - lead >= now {
        seq![(expires_at - lead) as i64]
    } else {
        Seq::empty()
    }
}

/// The delivery times of a notification due at `expires_at` and created at
/// `now`: a day before, then an hour before, each kept as `lead_time` says.
pub open spec fn notification_times_of(expires_at: int, now: int) -> Seq<i64> {
    lead_time(expires_at, DAY as int, now) + lead_time(expires_at, HOUR as int, now)
}

/// The delivery times of a notification due at `expires_at` and created at `now`.
pub fn notification_times(expires_at: i64, now: i64) -> (r: Vec<i64>)
    requires
        valid_time(expires_at as int),
    ensures
        r@ == notification_times_of(expires_at as int, now as int),
{
    let mut times: Vec<i64> = Vec::new();
    let one_day_before = expires_at - DAY;
    if crate::time::UTC_MIN_SECS <= one_day_before && one_day_before >= now {
        times.push(one_day_before);
    }
    let one_hour_before = expires_at - HOUR;
    if crate::time::UTC_MIN_SECS <= one_hour_before && one_hour_before >= now {
        times.push(one_hour_before);
    }
    assert(times@ =~= notification_times_of(expires_at as int, now as int));
    times
}

/// Derived delivery times come in ascending order, are representable, and
/// none lies before the moment of creation; each of the day-before and
/// hour-before times stands among them exactly when it is representable and
/// not before that moment.
pub proof fn lemma_notification_times(expires_at: int, now: int)
    requires
        valid_time(expires_at),
    ensures
        times_well_formed(notification_times_of(expires_at, now)),
        forall|i: int|
            0 <= i < notification_times_of(expires_at, now).len() ==> now
                <= #[trigger] notification_times_of(expires_at, now)[i],
        notification_times_of(expires_at, now).contains((expires_at - DAY) as i64) <==> (
        valid_time(expires_at - DAY) && expires_at - DAY >= now),
        notification_times_of(expires_at, now).contains((expires_at - HOUR) as i64) <==> (
        valid_time(expires_at - HOUR) && expires_at - HOUR >= now),
{
    let d = lead_time(expires_at, DAY as int, now);
    let h = lead_time(expires_at, HOUR as int, now);
    let t = notification_times_of(expires_at, now);
    assert(t == d + h);
    if valid_time(expires_at - DAY) && expires_at - DAY >= now {
        assert(t[0] == (expires_at - DAY) as i64);
    }
    if valid_time(expires_at - HOUR) && expires_at - HOUR >= now {
        assert(t[d.len() as int] == (expires_at - HOUR) as i64);
    }
}

/// The pieces of `s` between commas, as `str::split(",")` gives them.
pub open spec fn split_commas(s: Seq<char>) -> Seq<Seq<char>>
    decreases s.len(),
{
    if s.len() == 0 {
        seq![Seq::empty()]
    } else {
        let rest = split_commas(s.drop_last());
        if s.last() == ',' {
            rest.push(Seq::empty())
        } else {
            rest.update(rest.len() - 1, rest.last().push(s.last()))
        }
    }
}

proof fn lemma_split_commas_nonempty(s: Seq<char>)
    ensures
        split_commas(s).len() >= 1,
    decreases s.len(),
{
    if s.len() > 0 {
        lemma_split_commas_nonempty(s.drop_last());
    }
}

/// The recipients listed in `users`, separated by commas.
pub fn split_recipients(users: &str) -> (r: Vec<String>)
    ensures
        r@.map_values(|u: String| u@) == split_commas(users@),
{
    let chars = crate::text::chars_of(users);
    let n = chars.len();
    let mut parts: Vec<String> = Vec::new();
    let mut start: usize = 0;
    let mut i: usize = 0;
    assert(parts@.map_values(|u: String| u@) =~= Seq::<Seq<char>>::empty());
    assert(users@.subrange(0, 0) =~= Seq::<char>::empty());
    assert(parts@.map_values(|u: String| u@).push(users@.subrange(0, 0)) =~= split_commas(
        users@.subrange(0, 0),
    ));
    while i < n
        invariant
            chars@ == users@,
            n == users@.len(),
            start <= i <= n,
            parts@.map_values(|u: String| u@).push(users@.subrange(start as int, i as int))
                == split_commas(users@.subrange(0, i as int)),
        decreases n - i,
    {
        proof {
            let pre = users@.subrange(0, i as int);
            let next = users@.subrange(0, i + 1);
            assert(next.drop_last() =~= pre);
            lemma_split_commas_nonempty(pre);
        }
        let ghost before = parts@.map_values(|u: String| u@);
        if chars[i] == ',' {
            let piece = String::from_str(users.substring_char(start, i));
            proof {
                let next = users@.subrange(0, i + 1);
                assert(next.last() == ',');
                assert(split_commas(next) == before.push(piece@).push(Seq::empty()));
            }
            parts.push(piece);
            assert(parts@.map_values(|u: String| u@) =~= before.push(piece@));
            i += 1;
            start = i;
            assert(users@.subrange(start as int, i as int) =~= Seq::<char>::empty());
            assert(parts@.map_values(|u: String| u@).push(users@.subrange(start as int, i as int))
                =~= split_commas(users@.subrange(0, i as int)));
        } else {
            i += 1;
            assert(users@.subrange(start as int, i as int) =~= users@.subrange(
                start as int,
                i - 1,
            ).push(users@[i - 1]));
            assert(parts@.map_values(|u: String| u@).push(users@.subrange(start as int, i as int))
                =~= split_commas(users@.subrange(0, i as int)));
        }
    }
    let last = String::from_str(users.substring_char(start, n));
    parts.push(last);
    assert(users@.subrange(0, n as int) =~= users@);
    assert(parts@.map_values(|u: String| u@) =~= split_commas(users@));
    parts
}

/// What the scheduler hands to delivery when a notification fires: where to
/// send it, what it is about, the time that fired and the event time (the last
/// delivery time of the notification).
#[derive(Debug, Clone)]
pub struct Delivery {
    pub id: String,
    pub channel: String,
    pub content: String,
    pub due_at: i64,
    pub event_time: i64,
}

/// A delivery as plain values.
pub struct DeliveryView {
    pub id: Seq<char>,
    pub channel: Seq<char>,
    pub content: Seq<char>,
    pub due_at: i64,
    pub event_time: i64,
}

impl View for Delivery {
    type V = DeliveryView;

    open spec fn view(&self) -> DeliveryView {
        DeliveryView {
            id: self.id@,
            channel: self.channel@,
            content: self.content@,
            due_at: self.due_at,
            event_time: self.event_time,
        }
    }
}

/// The earliest delivery time of `n` has come at `now`.
pub open spec fn fires(n: NotificationView, now: int) -> bool {
    n.times.len() > 0 && n.times[0] <= now
}

/// The delivery of `n` when it fires.
pub open spec fn delivery_of(n: NotificationView) -> DeliveryView {
    DeliveryView {
        id: n.id,
        channel: n.channel,
        content: n.content,
        due_at: n.times[0],
        event_time: n.times.last(),
    }
}

/// `n` with its earliest delivery time taken off.
pub open spec fn popped(n: NotificationView) -> NotificationView {
    NotificationView {
        id: n.id,
        content: n.content,
        notify: n.notify,
        times: n.times.drop_first(),
        channel: n.channel,
    }
}

/// What becomes of `n` when a tick at `now` is settled, `sent` being the
/// identifiers whose deliveries went out: when it fires and its delivery went
/// out, its earliest time is taken off. A tick that ran to its end then
/// deletes the notification if no time is left; a tick cut short by a failed
/// delivery deletes nothing, and a later tick deletes what is left empty.
pub open spec fn after_settle(
    n: NotificationView,
    sent: Seq<Seq<char>>,
    now: int,
    cut_short: bool,
) -> Option<NotificationView> {
    let m = if n.times.len() > 0 && fires(n, now) && sent.contains(n.id) {
        popped(n)
    } else {
        n
    };
    if m.times.len() == 0 && !cut_short {
        None
    } else {
        Some(m)
    }
}

/// The notifications that remain once a tick at `now` is settled, in order.
pub open spec fn kept_after_settle(
    s: Seq<NotificationView>,
    sent: Seq<Seq<char>>,
    now: int,
    cut_short: bool,
) -> Seq<NotificationView>
    decreases s.len(),
{
    if s.len() == 0 {
        Seq::empty()
    } else {
        let r = kept_after_settle(s.drop_last(), sent, now, cut_short);
        match after_settle(s.last(), sent, now, cut_short) {
            Some(m) => r.push(m),
            None => r,
        }
    }
}

/// The deliveries due in a tick at `now`, one for each notification whose
/// earliest time has come, in store order.
pub open spec fn fired_in_tick(s: Seq<NotificationView>, now: int) -> Seq<DeliveryView>
    decreases s.len(),
{
    if s.len() == 0 {
        Seq::empty()
    } else {
        let r = fired_in_tick(s.drop_last(), now);
        if fires(s.last(), now) {
            r.push(delivery_of(s.last()))
        } else {
            r
        }
    }
}

/// Every notification's delivery times are representable and ascending.
pub open spec fn all_well_formed(s: Seq<NotificationView>) -> bool {
    forall|i: int| 0 <= i < s.len() ==> times_well_formed(#[trigger] s[i].times)
}

proof fn lemma_fired_valid(s: Seq<NotificationView>, now: int)
    requires
        all_well_formed(s),
    ensures
        forall|i: int|
            0 <= i < fired_in_tick(s, now).len() ==> valid_time(
                #[trigger] fired_in_tick(s, now)[i].event_time as int,
            ),
    decreases s.len(),
{
    if s.len() > 0 {
        let d = s.drop_last();
        assert forall|i: int| 0 <= i < d.len() implies times_well_formed(#[trigger] d[i].times) by {
            assert(d[i] == s[i]);
        }
        lemma_fired_valid(d, now);
        let n = s.last();
        assert(times_well_formed(s[s.len() - 1].times));
        let f = fired_in_tick(s, now);
        let fd = fired_in_tick(d, now);
        assert forall|i: int| 0 <= i < f.len() implies valid_time(
            #[trigger] f[i].event_time as int,
        ) by {
            if i < fd.len() {
                assert(f[i] == fd[i]);
            } else {
                assert(n.times.last() == n.times[n.times.len() - 1]);
            }
        }
    }
}

proof fn lemma_settle_keeps_well_formed(
    s: Seq<NotificationView>,
    sent: Seq<Seq<char>>,
    now: int,
    cut_short: bool,
)
    requires
        all_well_formed(s),
    ensures
        all_well_formed(kept_after_settle(s, sent, now, cut_short)),
    decreases s.len(),
{
    if s.len() > 0 {
        let d = s.drop_last();
        assert forall|i: int| 0 <= i < d.len() implies times_well_formed(#[trigger] d[i].times) by {
            assert(d[i] == s[i]);
        }
        lemma_settle_keeps_well_formed(d, sent, now, cut_short);
        let n = s.last();
        assert(times_well_formed(s[s.len() - 1].times));
        if n.times.len() > 1 {
            let t = n.times.drop_first();
            assert forall|i: int, j: int| 0 <= i < j < t.len() implies t[i] <= t[j] by {
                assert(t[i] == n.times[i + 1] && t[j] == n.times[j + 1]);
            }
            assert forall|i: int| 0 <= i < t.len() implies valid_time(#[trigger] t[i] as int) by {
                assert(t[i] == n.times[i + 1]);
            }
        }
        let k = kept_after_settle(s, sent, now, cut_short);
        let kd = kept_after_settle(d, sent, now, cut_short);
        assert forall|i: int| 0 <= i < k.len() implies times_well_formed(#[trigger] k[i].times) by {
            if i < kd.len() {
                assert(k[i] == kd[i]);
            }
        }
    }
}

/// The text values of a list of identifiers.
pub open spec fn id_views(s: Seq<String>) -> Seq<Seq<char>> {
    s.map_values(|i: String| i@)
}

fn listed_id(ids: &Vec<String>, id: &str) -> (r: bool)
    ensures
        r == id_views(ids@).contains(id@),
{
    let ghost v = id_views(ids@);
    let mut i: usize = 0;
    while i < ids.len()
        invariant
            v == id_views(ids@),
            i <= ids@.len(),
            forall|k: int| 0 <= k < i ==> v[k] != id@,
        decreases ids@.len() - i,
    {
        if crate::text::same_text(ids[i].as_str(), id) {
            assert(v[i as int] == id@);
            return true;
        }
        i += 1;
    }
    false
}

/// The identifiers of the notifications of `s`.
pub open spec fn stored_ids(s: Seq<NotificationView>) -> Seq<Seq<char>> {
    s.map_values(|n: NotificationView| n.id)
}

/// Whether the delivery times of `n` are representable and ascending.
pub fn times_are_well_formed(times: &Vec<i64>) -> (r: bool)
    ensures
        r == times_well_formed(times@),
{
    let mut i: usize = 0;
    while i < times.len()
        invariant
            i <= times@.len(),
            forall|k: int| 0 <= k < i ==> valid_time(#[trigger] times@[k] as int),
            forall|k: int, j: int| 0 <= k < j < i ==> times@[k] <= times@[j],
        decreases times@.len() - i,
    {
        if times[i] < crate::time::UTC_MIN_SECS || times[i] > crate::time::UTC_MAX_SECS {
            return false;
        }
        if i > 0 && times[i - 1] > times[i] {
            return false;
        }
        i += 1;
    }
    true
}

/// The persisted notifications, in the order in which they were created.
pub struct NotificationStore {
    entries: Vec<Notification>,
}

impl NotificationStore {
    /// The notifications as plain values.
    pub closed spec fn view(&self) -> Seq<NotificationView> {
        views(self.entries@)
    }

    /// Every stored notification has representable, ascending delivery times.
    pub open spec fn well_formed(&self) -> bool {
        all_well_formed(self@)
    }

    /// A store with no notification.
    pub fn new() -> (r: NotificationStore)
        ensures
            r@ == Seq::<NotificationView>::empty(),
            r.well_formed(),
    {
        let r = NotificationStore { entries: Vec::new() };
        assert(r@ =~= Seq::<NotificationView>::empty());
        r
    }

    /// A store holding `entries`, unless the delivery times of one of them are
    /// not representable or not in ascending order.
    pub fn from_notifications(entries: Vec<Notification>) -> (r: Option<NotificationStore>)
        ensures
            match r {
                Some(store) => store@ == views(entries@)
                    && store.well_formed(),
                None => !all_well_formed(views(entries@)),
            },
    {
        let ghost s = views(entries@);
        let mut i: usize = 0;
        while i < entries.len()
            invariant
                s == views(entries@),
                i <= entries@.len(),
                forall|k: int| 0 <= k < i ==> times_well_formed(#[trigger] s[k].times),
            decreases entries@.len() - i,
        {
            if !times_are_well_formed(&entries[i].notification_times) {
                assert(!times_well_formed(s[i as int].times));
                return None;
            }
            i += 1;
        }
        Some(NotificationStore { entries })
    }

    /// The stored notifications.
    pub fn notifications(&self) -> (r: &Vec<Notification>)
        ensures
            views(r@) == self@,
    {
        &self.entries
    }

    /// How many notifications are stored.
    pub fn len(&self) -> (r: usize)
        ensures
            r == self@.len(),
    {
        self.entries.len()
    }

    /// Whether a notification is stored under `id`.
    pub fn contains_id(&self, id: &str) -> (r: bool)
        ensures
            r == stored_ids(self@).contains(id@),
    {
        let ghost v = stored_ids(self@);
        let mut i: usize = 0;
        while i < self.entries.len()
            invariant
                v == stored_ids(self@),
                i <= self@.len(),
                forall|k: int| 0 <= k < i ==> v[k] != id@,
            decreases self@.len() - i,
        {
            assert(v[i as int] == self.entries@[i as int]@.id);
            if crate::text::same_text(self.entries[i].id.as_str(), id) {
                return true;
            }
            i += 1;
        }
        false
    }

    /// Stores a notification with identifier `id` about `content`, for the
    /// comma-separated recipients `notify_users`, due at `expires_at`, to be
    /// delivered to `channel`; `now` is the moment of creation. Refuses, and
    /// changes nothing, where a notification is already stored under `id`.
    pub fn create(
        &mut self,
        id: String,
        content: &str,
        notify_users: &str,
        expires_at: i64,
        channel: &str,
        now: i64,
    ) -> (r: bool)
        requires
            old(self).well_formed(),
            valid_time(expires_at as int),
        ensures
            final(self).well_formed(),
            r == !stored_ids(old(self)@).contains(id@),
            r ==> final(self)@ == old(self)@.push(
                NotificationView {
                    id: id@,
                    content: content@,
                    notify: split_commas(notify_users@),
                    times: notification_times_of(expires_at as int, now as int),
                    channel: channel@,
                },
            ),
            !r ==> final(self)@ == old(self)@,
    {
        if self.contains_id(id.as_str()) {
            return false;
        }
        proof {
            lemma_notification_times(expires_at as int, now as int);
        }
        let n = Notification {
            id,
            content: content.to_owned(),
            notify: split_recipients(notify_users),
            notification_times: notification_times(expires_at, now),
            channel: channel.to_owned(),
        };
        self.entries.push(n);
        assert(self@ =~= old(self)@.push(n@));
        true
    }

    /// Removes the notifications stored under `id`.
    pub fn retract(&mut self, id: &str)
        requires
            old(self).well_formed(),
        ensures
            final(self).well_formed(),
            final(self)@ == without_id(old(self)@, id@),
    {
        let ghost s = self@;
        let mut kept: Vec<Notification> = Vec::new();
        let mut rest: Vec<Notification> = Vec::new();
        std::mem::swap(&mut rest, &mut self.entries);
        let total = rest.len();
        let mut i: usize = 0;
        assert(views(kept@) =~= without_id(s.subrange(0, 0), id@));
        while i < total
            invariant
                total == s.len(),
                all_well_formed(s),
                i <= total,
                views(rest@) == s.subrange(i as int, total as int),
                views(kept@) == without_id(s.subrange(0, i as int), id@),
                forall|k: int| 0 <= k < kept@.len() ==> times_well_formed(#[trigger] kept@[k]@.times),
            decreases total - i,
        {
            let ghost kept_before = views(kept@);
            proof {
                assert(views(rest@).len() == rest@.len());
                assert(views(rest@)[0] == s[i as int]);
                assert(views(rest@)[0] == rest@[0]@);
            }
            let ghost rest_before = rest@;
            let n = rest.remove(0);
            let ghost nv = n@;
            proof {
                let next = s.subrange(0, i + 1);
                assert(next.drop_last() =~= s.subrange(0, i as int));
                assert(next.last() == nv);
                assert(times_well_formed(s[i as int].times));
                assert forall|k: int| 0 <= k < rest@.len() implies #[trigger] views(rest@)[k]
                    == s.subrange(i + 1, total as int)[k] by {
                    assert(rest@[k] == rest_before[k + 1]);
                    assert(views(rest_before)[k + 1] == s.subrange(i as int, total as int)[k + 1]);
                }
                assert(views(rest@) =~= s.subrange(i + 1, total as int));
            }
            if !crate::text::same_text(n.id.as_str(), id) {
                kept.push(n);
                assert(views(kept@) =~= kept_before.push(nv));
            }
            i += 1;
        }
        assert(s.subrange(0, total as int) =~= s);
        self.entries = kept;
        assert forall|k: int| 0 <= k < self@.len() implies times_well_formed(#[trigger] self@[k].times) by {
            assert(self@[k] == self.entries@[k]@);
        }
    }

    /// The deliveries due at `now`: one for each notification whose earliest
    /// delivery time has come, in store order. The store is left as it is;
    /// `settle` takes off the times whose messages went out.
    pub fn due_deliveries(&self, now: i64) -> (r: Vec<Delivery>)
        requires
            self.well_formed(),
        ensures
            delivery_views(r@) == fired_in_tick(self@, now as int),
            forall|i: int| 0 <= i < r@.len() ==> valid_time(#[trigger] r@[i].event_time as int),
    {
        let ghost s = self@;
        proof {
            lemma_fired_valid(s, now as int);
        }
        let mut fired: Vec<Delivery> = Vec::new();
        let mut i: usize = 0;
        assert(delivery_views(fired@) =~= fired_in_tick(s.subrange(0, 0), now as int));
        while i < self.entries.len()
            invariant
                s == self@,
                i <= s.len(),
                delivery_views(fired@) == fired_in_tick(s.subrange(0, i as int), now as int),
            decreases s.len() - i,
        {
            proof {
                let next = s.subrange(0, i + 1);
                assert(next.drop_last() =~= s.subrange(0, i as int));
                assert(next.last() == s[i as int]);
                assert(s[i as int] == self.entries@[i as int]@);
            }
            let n = &self.entries[i];
            let count = n.notification_times.len();
            if count > 0 && n.notification_times[0] <= now {
                let ghost before = delivery_views(fired@);
                let d = Delivery {
                    id: n.id.clone(),
                    channel: n.channel.clone(),
                    content: n.content.clone(),
                    due_at: n.notification_times[0],
                    event_time: n.notification_times[count - 1],
                };
                fired.push(d);
                assert(delivery_views(fired@) =~= before.push(delivery_of(s[i as int])));
            }
            i += 1;
        }
        assert(s.subrange(0, i as int) =~= s);
        assert forall|i: int| 0 <= i < fired@.len() implies valid_time(
            #[trigger] fired@[i].event_time as int,
        ) by {
            assert(delivery_views(fired@)[i] == fired@[i]@);
            assert(fired_in_tick(s, now as int)[i] == fired@[i]@);
            assert(valid_time(fired_in_tick(s, now as int)[i].event_time as int));
        }
        fired
    }

    /// Settles a tick at `now` once its deliveries were attempted: a due
    /// notification whose identifier is in `sent` loses its earliest time.
    /// Unless the tick was `cut_short` by a failed delivery, notifications
    /// left with no time are then deleted. Every other one stays as it is.
    pub fn settle(&mut self, sent: &Vec<String>, now: i64, cut_short: bool)
        requires
            old(self).well_formed(),
        ensures
            final(self).well_formed(),
            final(self)@ == kept_after_settle(old(self)@, id_views(sent@), now as int, cut_short),
    {
        let ghost orig = self@;
        let ghost ids = id_views(sent@);
        proof {
            lemma_settle_keeps_well_formed(orig, ids, now as int, cut_short);
        }
        let mut rest: Vec<Notification> = Vec::new();
        std::mem::swap(&mut rest, &mut self.entries);
        let total = rest.len();
        let mut kept: Vec<Notification> = Vec::new();
        let mut i: usize = 0;
        assert(views(kept@) =~= kept_after_settle(orig.subrange(0, 0), ids, now as int, cut_short));
        while i < total
            invariant
                total == orig.len(),
                ids == id_views(sent@),
                i <= total,
                views(rest@) == orig.subrange(i as int, total as int),
                views(kept@) == kept_after_settle(
                    orig.subrange(0, i as int),
                    ids,
                    now as int,
                    cut_short,
                ),
            decreases total - i,
        {
            let ghost kept_before = views(kept@);
            proof {
                assert(views(rest@).len() == rest@.len());
                assert(views(rest@)[0] == orig[i as int]);
                assert(views(rest@)[0] == rest@[0]@);
            }
            let ghost rest_before = rest@;
            let mut n = rest.remove(0);
            let ghost nv = n@;
            proof {
                let pre = orig.subrange(0, i as int);
                let next = orig.subrange(0, i + 1);
                assert(next.drop_last() =~= pre);
                assert(next.last() == nv);
                assert forall|k: int| 0 <= k < rest@.len() implies #[trigger] views(rest@)[k]
                    == orig.subrange(i + 1, total as int)[k] by {
                    assert(rest@[k] == rest_before[k + 1]);
                    assert(views(rest_before)[k + 1] == orig.subrange(i as int, total as int)[k
                        + 1]);
                }
                assert(views(rest@) =~= orig.subrange(i + 1, total as int));
            }
            let count = n.notification_times.len();
            if count > 0 && n.notification_times[0] <= now && listed_id(sent, n.id.as_str()) {
                n.notification_times.remove(0);
                assert(n@ == popped(nv)) by {
                    assert(n.notification_times@ =~= nv.times.drop_first());
                    assert(n@.notify =~= nv.notify);
                }
            }
            if cut_short || n.notification_times.len() > 0 {
                let ghost m = n@;
                kept.push(n);
                assert(views(kept@) =~= kept_before.push(m));
            }
            i += 1;
        }
        assert(orig.subrange(0, total as int) =~= orig);
        self.entries = kept;
    }
}

/// A notification due at `t` with delivery times two hours and one hour before
/// it, at a moment past both: the first tick has one delivery, for the earlier
/// time, and once it went out the later time is left; the second tick, still
/// past it, has one delivery for the later time, and once it went out the
/// notification is deleted.
pub proof fn lemma_overdue_times_fire_one_per_tick(n: NotificationView, t: i64, now: int)
    requires
        valid_time(t as int),
        n.times == seq![(t - 2 * HOUR) as i64, (t - HOUR) as i64],
        now > t - HOUR,
    ensures
        fired_in_tick(seq![n], now) == seq![delivery_of(n)],
        delivery_of(n).due_at == t - 2 * HOUR,
        kept_after_settle(seq![n], seq![n.id], now, false) == seq![popped(n)],
        popped(n).times == seq![(t - HOUR) as i64],
        fired_in_tick(seq![popped(n)], now) == seq![delivery_of(popped(n))],
        delivery_of(popped(n)).due_at == t - HOUR,
        kept_after_settle(seq![popped(n)], seq![n.id], now, false) == Seq::<NotificationView>::empty(),
{
    let s = seq![n];
    let sent = seq![n.id];
    assert(sent.contains(n.id)) by {
        assert(sent[0] == n.id);
    }
    assert(s.drop_last() =~= Seq::<NotificationView>::empty());
    assert(s.last() == n);
    assert(n.times[0] == (t - 2 * HOUR) as i64);
    assert(n.times.len() == 2);
    assert(fires(n, now));
    assert(fired_in_tick(s.drop_last(), now) == Seq::<DeliveryView>::empty());
    assert(kept_after_settle(s.drop_last(), sent, now, false) == Seq::<NotificationView>::empty());
    assert(popped(n).times =~= seq![(t - HOUR) as i64]);
    let s2 = seq![popped(n)];
    assert(s2.drop_last() =~= Seq::<NotificationView>::empty());
    assert(fired_in_tick(s, now) =~= seq![delivery_of(n)]);
    assert(kept_after_settle(s, sent, now, false) =~= s2);
    assert(fired_in_tick(s2, now) =~= seq![delivery_of(popped(n))]);
    assert(kept_after_settle(s2, sent, now, false) =~= Seq::<NotificationView>::empty());
}

/// A due notification whose delivery did not go out keeps all its times, and
/// a tick cut short by a failed delivery deletes no notification.
pub proof fn lemma_unsent_delivery_keeps_time(
    n: NotificationView,
    sent: Seq<Seq<char>>,
    now: int,
    cut_short: bool,
    s: Seq<NotificationView>,
)
    requires
        n.times.len() > 0,
        !sent.contains(n.id),
    ensures
        kept_after_settle(seq![n], sent, now, cut_short) == seq![n],
        kept_after_settle(s, sent, now, true).len() == s.len(),
    decreases s.len(),
{
    let one = seq![n];
    assert(one.drop_last() =~= Seq::<NotificationView>::empty());
    assert(one.last() == n);
    assert(kept_after_settle(one.drop_last(), sent, now, cut_short) == Seq::<
        NotificationView,
    >::empty());
    assert(after_settle(n, sent, now, cut_short) == Some(n));
    assert(kept_after_settle(one, sent, now, cut_short) =~= seq![n]);
    if s.len() > 0 {
        lemma_unsent_delivery_keeps_time(n, sent, now, cut_short, s.drop_last());
    }
}

/// The notifications of `s` without those stored under `id`.
pub open spec fn without_id(s: Seq<NotificationView>, id: Seq<char>) -> Seq<NotificationView>
    decreases s.len(),
{
    if s.len() == 0 {
        Seq::empty()
    } else {
        let r = without_id(s.drop_last(), id);
        if s.last().id == id {
            r
        } else {
            r.push(s.last())
        }
    }
}

/// Where no notification of `s` is stored under `id`, taking `id` out of `s`
/// leaves `s` as it is.
pub proof fn lemma_without_absent_id(s: Seq<NotificationView>, id: Seq<char>)
    requires
        !stored_ids(s).contains(id),
    ensures
        without_id(s, id) == s,
    decreases s.len(),
{
    if s.len() > 0 {
        let d = s.drop_last();
        assert forall|k: int| 0 <= k < d.len() implies stored_ids(d)[k] != id by {
            assert(stored_ids(d)[k] == stored_ids(s)[k]);
        }
        lemma_without_absent_id(d, id);
        assert(stored_ids(s)[s.len() - 1] == s.last().id);
        assert(d.push(s.last()) =~= s);
    }
}

/// Adding a notification under an identifier that is not stored, then taking
/// that identifier out, gives back the store as it was.
pub proof fn lemma_retract_undoes_create(s: Seq<NotificationView>, n: NotificationView)
    requires
        !stored_ids(s).contains(n.id),
    ensures
        without_id(s.push(n), n.id) == s,
{
    assert(s.push(n).drop_last() =~= s);
    lemma_without_absent_id(s, n.id);
}

/// The last-resort text of a delivery: `Notification: <content> at <time>`.
pub open spec fn fallback_message_of(content: Seq<char>, event_time: int) -> Seq<char> {
    "Notification: "@ + content + " at "@ + utc_text_of(event_time)
}

/// The text delivered for a notification about `content` with event time
/// `event_time`: the formatter's answer where it got one that is not blank,
/// the fallback text otherwise.
pub open spec fn delivery_message_of(
    reply: Option<Seq<char>>,
    content: Seq<char>,
    event_time: int,
) -> Seq<char> {
    match reply {
        Some(body) => if trim_of(body).len() > 0 {
            body
        } else {
            fallback_message_of(content, event_time)
        },
        None => fallback_message_of(content, event_time),
    }
}

/// The text of a delivery about `content` whose event time reads `when`:
/// the formatter's usable answer where there is one, else
/// `Notification: <content> at <when>`.
pub open spec fn delivery_text_of(answer: Option<Seq<char>>, content: Seq<char>, when: Seq<char>) -> Seq<
    char,
> {
    match answer {
        Some(body) => body,
        None => "Notification: "@ + content + " at "@ + when,
    }
}

/// Whole hours from `now` until `t`, rounded toward zero.
pub open spec fn hours_until_of(t: int, now: int) -> int {
    let d = t - now;
    if d >= 0 {
        d / HOUR as int
    } else {
        -((-d) / HOUR as int)
    }
}

/// Whole hours from `now` until `t`, rounded toward zero.
pub fn hours_until(t: i64, now: i64) -> (r: i64)
    requires
        valid_time(t as int),
        valid_time(now as int),
    ensures
        r == hours_until_of(t as int, now as int),
{
    if t >= now {
        let d = (t - now) as u64;
        (d / 3600) as i64
    } else {
        let d = (now - t) as u64;
        -((d / 3600) as i64)
    }
}

/// Composes the text of a delivery.
pub struct NotificationMessageService;

impl NotificationMessageService {
    /// The text of a delivery about `content` whose event time reads `when`,
    /// given the formatter's answer where it is usable (`None` otherwise).
    pub fn delivery_text(answer: Option<String>, content: &str, when: &str) -> (r: String)
        ensures
            r@ == delivery_text_of(
                match answer {
                    Some(b) => Some(b@),
                    None => None,
                },
                content@,
                when@,
            ),
    {
        match answer {
            Some(body) => body,
            None => {
                let mut text = String::from_str("Notification: ");
                text.append(content);
                text.append(" at ");
                text.append(when);
                text
            },
        }
    }

    /// The text to deliver for `delivery`, given the formatter's answer or
    /// the error of the call in `reply`.
    pub fn build_message(delivery: &Delivery, reply: &Result<String, String>) -> (r: String)
        requires
            valid_time(delivery.event_time as int),
        ensures
            r@ == delivery_message_of(
                match reply {
                    Ok(b) => Some(b@),
                    Err(_) => None,
                },
                delivery.content@,
                delivery.event_time as int,
            ),
    {
        let answer = match reply {
            Ok(body) => {
                let trimmed = trim_text(body.as_str());
                if trimmed.as_str().is_empty() {
                    None
                } else {
                    Some(body.clone())
                }
            },
            Err(_) => None,
        };
        let when = utc_text(delivery.event_time);
        Self::delivery_text(answer, delivery.content.as_str(), when.as_str())
    }
}

/// Creates confirmed notifications in the store.
pub struct NotificationService;

impl NotificationService {
    /// Stores a notification about `content` for the comma-separated
    /// recipients `notify_users`, due at `expires_at`, for `channel`, created
    /// at `now`, under a freshly drawn identifier, which is returned; see
    /// `NotificationStore::create`. Where the drawn identifier is already
    /// stored, nothing changes and `None` is returned; drawn identifiers have
    /// 36 characters, so where no stored identifier has that length the
    /// notification is always stored.
    pub fn create(
        store: &mut NotificationStore,
        content: &str,
        notify_users: &str,
        expires_at: i64,
        channel: &str,
        now: i64,
    ) -> (r: Option<String>)
        requires
            old(store).well_formed(),
            valid_time(expires_at as int),
        ensures
            final(store).well_formed(),
            match r {
                Some(id) => !stored_ids(old(store)@).contains(id@) && final(store)@ == old(
                    store,
                )@.push(
                    NotificationView {
                        id: id@,
                        content: content@,
                        notify: split_commas(notify_users@),
                        times: notification_times_of(expires_at as int, now as int),
                        channel: channel@,
                    },
                ),
                None => final(store)@ == old(store)@,
            },
            (forall|i: int| 0 <= i < old(store)@.len() ==> (#[trigger] old(store)@[i]).id.len()
                != 36) ==> r is Some,
    {
        let id = fresh_id();
        proof {
            if forall|i: int| 0 <= i < old(store)@.len() ==> (#[trigger] old(store)@[i]).id.len()
                != 36 {
                assert forall|k: int| 0 <= k < old(store)@.len() implies stored_ids(old(store)@)[k]
                    != id@ by {
                    assert(stored_ids(old(store)@)[k] == old(store)@[k].id);
                }
            }
        }
        let kept = id.clone();
        if store.create(id, content, notify_users, expires_at, channel, now) {
            Some(kept)
        } else {
            None
        }
    }
}

} // verus!
