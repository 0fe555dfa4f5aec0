//! Actions awaiting human approval, their store, and the approval workflow:
//! a notification request becomes a draft, which the user confirms, cancels
//! or corrects.
use vstd::prelude::*;
use crate::ids::fresh_id;
use crate::json::{json_text_field, json_text_field_of};
use crate::keyed::{
    last_index_of, lemma_last_index, lemma_last_index_bounds, lemma_map_of_lookup,
    lemma_map_of_upsert, map_of, upsert,
};
use crate::notification::{
    notification_times_of, split_commas, stored_ids, without_id, lemma_retract_undoes_create,
    NotificationStore, NotificationView,
};
use crate::text::{same_text, trim_of, trim_text};
use crate::time::{parse_utc, parsed_utc_of, utc_text, utc_text_of, valid_time, MINUTE};

verus! {

/// Identifier of an action.
pub type ActionId = String;

/// What an action does once approved.
#[derive(Debug, Clone, Copy, PartialEq, Eq, Structural)]
pub enum ActionType {
    Unknown,
    CreateNotification,
    CreateTodo,
    ToolUse,
}

/// Where an action stands in the approval workflow.
#[derive(Debug, Clone, Copy, PartialEq, Eq, Structural)]
pub enum ActionStatus {
    Pending,
    AwaitingApproval,
    Approved,
    Rejected,
    Completed,
    Failed,
}

/// The editable content of a notification request.
#[derive(Debug, Clone)]
pub struct NotificationDraft {
    pub user_id: String,
    pub channel_id: String,
    pub content: String,
    pub time: i64,
    pub original_text: String,
    pub extra_context: Option<String>,
    pub expires_at: i64,
    pub message_id: Option<u64>,
}

/// What an action carries.
#[derive(Debug, Clone)]
pub enum ActionPayload {
    NotificationDraft(NotificationDraft),
}

/// A unit of work awaiting human approval.
#[derive(Debug, Clone)]
pub struct Action {
    pub id: ActionId,
    pub action_type: ActionType,
    pub status: ActionStatus,
    pub user_id: String,
    pub channel_id: String,
    pub payload: Option<ActionPayload>,
    pub created_at: i64,
    pub updated_at: i64,
}

/// An event that drives the approval workflow.
#[derive(Debug)]
pub enum ActionEvent {
    NotifyRequested { text: String, user_id: String, channel_id: String },
    ApprovalConfirmed { action_id: String, user_id: String },
    ApprovalCanceled { action_id: String, user_id: String },
    ContextSubmitted { action_id: String, user_id: String, context: String },
}

/// The notification draft that `a` carries, if any.
pub open spec fn draft_of(a: Action) -> Option<NotificationDraft> {
    match a.payload {
        Some(ActionPayload::NotificationDraft(d)) => Some(d),
        None => None,
    }
}

/// The draft time of `a`, where it has one, is a representable time.
pub open spec fn action_well_formed(a: Action) -> bool {
    match draft_of(a) {
        Some(d) => valid_time(d.time as int),
        None => true,
    }
}

/// `a` with status `s`.
pub open spec fn with_status(a: Action, s: ActionStatus) -> Action {
    Action { status: s, ..a }
}

/// `a` with status `s`, last updated at `now`.
pub open spec fn moved_to(a: Action, s: ActionStatus, now: int) -> Action {
    Action { status: s, updated_at: now as i64, ..a }
}

impl NotificationDraft {
    /// A copy of the draft.
    pub fn duplicate(&self) -> (r: NotificationDraft)
        ensures
            r == *self,
    {
        NotificationDraft {
            user_id: self.user_id.clone(),
            channel_id: self.channel_id.clone(),
            content: self.content.clone(),
            time: self.time,
            original_text: self.original_text.clone(),
            extra_context: match &self.extra_context {
                Some(c) => Some(c.clone()),
                None => None,
            },
            expires_at: self.expires_at,
            message_id: self.message_id,
        }
    }
}

impl Action {
    /// A copy of the action.
    pub fn duplicate(&self) -> (r: Action)
        ensures
            r == *self,
    {
        Action {
            id: self.id.clone(),
            action_type: self.action_type,
            status: self.status,
            user_id: self.user_id.clone(),
            channel_id: self.channel_id.clone(),
            payload: match &self.payload {
                Some(ActionPayload::NotificationDraft(d)) => Some(
                    ActionPayload::NotificationDraft(d.duplicate()),
                ),
                None => None,
            },
            created_at: self.created_at,
            updated_at: self.updated_at,
        }
    }

    /// The notification draft that the action carries, if any.
    pub fn notification_draft(&self) -> (r: Option<&NotificationDraft>)
        ensures
            match r {
                Some(d) => draft_of(*self) == Some(*d),
                None => draft_of(*self) is None,
            },
    {
        match &self.payload {
            Some(ActionPayload::NotificationDraft(draft)) => Some(draft),
            None => None,
        }
    }

    /// The notification draft that the action carries, if any, for editing.
    pub fn notification_draft_mut(&mut self) -> (r: Option<&mut NotificationDraft>)
        ensures
            match r {
                Some(d) => draft_of(*old(self)) == Some(*d) && *final(self) == Action {
                    payload: Some(ActionPayload::NotificationDraft(*final(d))),
                    ..*old(self)
                },
                None => draft_of(*old(self)) is None && *final(self) == *old(self),
            },
    {
        match &mut self.payload {
            Some(ActionPayload::NotificationDraft(draft)) => Some(draft),
            None => None,
        }
    }

    /// Whether the draft time, where there is a draft, is a representable time.
    pub fn is_well_formed(&self) -> (r: bool)
        ensures
            r == action_well_formed(*self),
    {
        match &self.payload {
            Some(ActionPayload::NotificationDraft(d)) => crate::time::UTC_MIN_SECS <= d.time
                && d.time <= crate::time::UTC_MAX_SECS,
            None => true,
        }
    }
}

/// The actions keyed by their identifiers.
pub open spec fn keyed_actions(s: Seq<Action>) -> Seq<(Seq<char>, Action)> {
    s.map_values(|a: Action| (a.id@, a))
}

/// Each stored action sits under its own identifier and is well formed.
pub open spec fn store_well_formed(m: Map<Seq<char>, Action>) -> bool {
    forall|k: Seq<char>| #[trigger]
        m.contains_key(k) ==> m[k].id@ == k && action_well_formed(m[k])
}

/// The actions of the workflow, kept after they end for audit.
pub struct ActionStore {
    actions: Vec<Action>,
}

impl ActionStore {
    /// The actions as a map from identifier to action.
    pub closed spec fn view(&self) -> Map<Seq<char>, Action> {
        map_of(keyed_actions(self.actions@))
    }

    /// The store's invariant.
    pub open spec fn well_formed(&self) -> bool {
        store_well_formed(self@)
    }

    /// A store with no action.
    pub fn new() -> (r: ActionStore)
        ensures
            r@ == Map::<Seq<char>, Action>::empty(),
            r.well_formed(),
    {
        let r = ActionStore { actions: Vec::new() };
        assert(keyed_actions(r.actions@) =~= Seq::<(Seq<char>, Action)>::empty());
        r
    }

    fn find(&self, id: &str) -> (r: Option<usize>)
        ensures
            match r {
                Some(j) => last_index_of(keyed_actions(self.actions@), id@) == j && j
                    < self.actions@.len(),
                None => last_index_of(keyed_actions(self.actions@), id@) == -1,
            },
    {
        let ghost s = keyed_actions(self.actions@);
        let mut i: usize = self.actions.len();
        while i > 0
            invariant
                s == keyed_actions(self.actions@),
                i <= self.actions@.len(),
                forall|j: int| i <= j < s.len() ==> s[j].0 != id@,
            decreases i,
        {
            if same_text(self.actions[i - 1].id.as_str(), id) {
                proof {
                    lemma_last_index(s, id@, i - 1);
                }
                return Some(i - 1);
            }
            i -= 1;
        }
        proof {
            lemma_last_index(s, id@, -1);
        }
        None
    }

    /// Stores `action` under its identifier, replacing an action stored there.
    pub fn insert(&mut self, action: Action)
        requires
            old(self).well_formed(),
            action_well_formed(action),
        ensures
            final(self)@ == old(self)@.insert(action.id@, action),
            final(self).well_formed(),
    {
        let ghost s = keyed_actions(self.actions@);
        let ghost k = action.id@;
        let found = self.find(action.id.as_str());
        let ghost a = action;
        match found {
            Some(i) => {
                self.actions.set(i, action);
            },
            None => {
                self.actions.push(action);
            },
        }
        proof {
            assert(keyed_actions(self.actions@) =~= upsert(s, k, a));
            lemma_map_of_upsert(s, k, a);
        }
    }

    /// The action stored under `id`, if any.
    pub fn get(&self, id: &str) -> (r: Option<&Action>)
        ensures
            match r {
                Some(a) => self@.contains_key(id@) && self@[id@] == *a,
                None => !self@.contains_key(id@),
            },
    {
        proof {
            lemma_map_of_lookup(keyed_actions(self.actions@), id@);
        }
        match self.find(id) {
            Some(i) => Some(&self.actions[i]),
            None => None,
        }
    }

    /// The identifiers of the stored actions.
    pub fn ids(&self) -> (r: Vec<ActionId>)
        ensures
            forall|i: int| 0 <= i < r@.len() ==> self@.contains_key(#[trigger] r@[i]@),
            forall|k: Seq<char>|
                #[trigger] self@.contains_key(k) ==> exists|i: int|
                    0 <= i < r@.len() && r@[i]@ == k,
    {
        let ghost s = keyed_actions(self.actions@);
        let mut r: Vec<ActionId> = Vec::new();
        let mut i: usize = 0;
        while i < self.actions.len()
            invariant
                s == keyed_actions(self.actions@),
                i <= self.actions@.len(),
                r@.len() == i,
                forall|j: int| 0 <= j < i ==> #[trigger] r@[j]@ == s[j].0,
            decreases self.actions@.len() - i,
        {
            r.push(self.actions[i].id.clone());
            i += 1;
        }
        assert forall|j: int| 0 <= j < r@.len() implies self@.contains_key(#[trigger] r@[j]@) by {
            lemma_last_index_bounds(s, r@[j]@);
            lemma_map_of_lookup(s, r@[j]@);
            if last_index_of(s, r@[j]@) < j {
                assert(s[j].0 == r@[j]@);
            }
        }
        assert forall|k: Seq<char>| #[trigger] self@.contains_key(k) implies exists|j: int|
            0 <= j < r@.len() && r@[j]@ == k by {
            lemma_map_of_lookup(s, k);
            lemma_last_index_bounds(s, k);
            let j = last_index_of(s, k);
            assert(r@[j]@ == k);
        }
        r
    }
}

/// The approval prompt for `d`: its content and time, and the extra context
/// where it is not blank.
pub open spec fn pending_message_of(d: NotificationDraft) -> Seq<char> {
    let base = "Please confirm your notification:\nContent: "@ + d.content@ + "\nTime: "@
        + utc_text_of(d.time as int);
    match d.extra_context {
        Some(c) => if trim_of(c@).len() > 0 {
            base + "\nAdditional context: "@ + trim_of(c@)
        } else {
            base
        },
        None => base,
    }
}

/// The text of the approval prompt for `pending`.
pub fn render_pending_message(pending: &NotificationDraft) -> (r: String)
    requires
        valid_time(pending.time as int),
    ensures
        r@ == pending_message_of(*pending),
{
    let mut body = String::from_str("Please confirm your notification:\nContent: ");
    body.append(pending.content.as_str());
    body.append("\nTime: ");
    let when = utc_text(pending.time);
    body.append(when.as_str());
    if let Some(ctx) = &pending.extra_context {
        let note = trim_text(ctx.as_str());
        if !note.as_str().is_empty() {
            body.append("\nAdditional context: ");
            body.append(note.as_str());
        }
    }
    body
}

/// How long a drafted notification waits for approval, in seconds.
pub const APPROVAL_WINDOW: i64 = 5 * MINUTE;

/// The content and time that the model's answer `payload`
/// (`{"content": ..., "time": <RFC 3339>}`) holds, when it can be read.
pub open spec fn ai_notification_of(payload: Seq<char>) -> Option<(Seq<char>, int)> {
    match json_text_field_of(payload, "content"@) {
        Some(c) => match json_text_field_of(payload, "time"@) {
            Some(t) => match parsed_utc_of(t) {
                Some(secs) => Some((c, secs)),
                None => None,
            },
            None => None,
        },
        None => None,
    }
}

/// The answer of a model call: its text, or nothing where the call failed.
pub open spec fn reply_text(reply: Result<String, String>) -> Option<Seq<char>> {
    match reply {
        Ok(p) => Some(p@),
        Err(_) => None,
    }
}

/// The content and time read from the answer of a model call.
pub open spec fn reply_notification(reply: Option<Seq<char>>) -> Option<(Seq<char>, int)> {
    match reply {
        Some(p) => ai_notification_of(p),
        None => None,
    }
}

/// Reads the content and time out of the model's answer `payload`.
pub fn parse_ai_notification(payload: &str) -> (r: Option<(String, i64)>)
    ensures
        match r {
            Some((c, t)) => ai_notification_of(payload@) == Some((c@, t as int)) && valid_time(
                t as int,
            ),
            None => ai_notification_of(payload@) is None,
        },
{
    let content = match json_text_field(payload, "content") {
        Some(c) => c,
        None => return None,
    };
    let time_text = match json_text_field(payload, "time") {
        Some(t) => t,
        None => return None,
    };
    match parse_utc(time_text.as_str()) {
        Some(t) => Some((content, t)),
        None => None,
    }
}

/// `a` is the fresh action `id` that drafts a notification about `content`
/// at `time` for `user` in `channel`, from the request `text` made at `now`.
pub open spec fn drafted(
    a: Action,
    id: Seq<char>,
    user: Seq<char>,
    channel: Seq<char>,
    text: Seq<char>,
    content: Seq<char>,
    time: int,
    now: int,
) -> bool {
    &&& a.id@ == id
    &&& a.action_type == ActionType::CreateNotification
    &&& a.status == ActionStatus::AwaitingApproval
    &&& a.user_id@ == user
    &&& a.channel_id@ == channel
    &&& a.created_at == now
    &&& a.updated_at == now
    &&& match draft_of(a) {
        Some(d) => {
            &&& d.user_id@ == user
            &&& d.channel_id@ == channel
            &&& d.content@ == content
            &&& d.time == time
            &&& d.original_text@ == text
            &&& d.extra_context is None
            &&& d.expires_at == now + APPROVAL_WINDOW
            &&& d.message_id is None
        },
        None => false,
    }
}

/// What the user is told when a notification request cannot be drafted.
pub open spec fn draft_failure_of(reply: Result<String, String>) -> Seq<char> {
    match reply {
        Ok(_) => "Failed to parse notification JSON."@,
        Err(e) => "Failed to call OpenAI for notification: "@ + e@,
    }
}

/// Drafts the action `id` for the notification request `text` of `user_id`
/// in `channel_id` at `now`, from the model's answer `reply` to it. Where the
/// call failed or its answer cannot be read, returns the text to tell the user.
pub fn draft_action(
    text: &str,
    user_id: &str,
    channel_id: &str,
    reply: &Result<String, String>,
    id: String,
    now: i64,
) -> (r: Result<Action, String>)
    requires
        valid_time(now as int),
        valid_time(now + APPROVAL_WINDOW),
    ensures
        match reply_notification(reply_text(*reply)) {
            Some((content, time)) => match r {
                Ok(a) => drafted(a, id@, user_id@, channel_id@, text@, content, time, now as int)
                    && action_well_formed(a),
                Err(_) => false,
            },
            None => match r {
                Ok(_) => false,
                Err(m) => m@ == draft_failure_of(*reply),
            },
        },
{
    let payload = match reply {
        Ok(p) => p,
        Err(e) => {
            let mut message = String::from_str("Failed to call OpenAI for notification: ");
            message.append(e.as_str());
            return Err(message);
        },
    };
    let (content, time) = match parse_ai_notification(payload.as_str()) {
        Some(parsed) => parsed,
        None => return Err(String::from_str("Failed to parse notification JSON.")),
    };
    let draft = NotificationDraft {
        user_id: user_id.to_owned(),
        channel_id: channel_id.to_owned(),
        content,
        time,
        original_text: text.to_owned(),
        extra_context: None,
        expires_at: now + APPROVAL_WINDOW,
        message_id: None,
    };
    Ok(
        Action {
            id,
            action_type: ActionType::CreateNotification,
            status: ActionStatus::AwaitingApproval,
            user_id: user_id.to_owned(),
            channel_id: channel_id.to_owned(),
            payload: Some(ActionPayload::NotificationDraft(draft)),
            created_at: now,
            updated_at: now,
        },
    )
}

/// Drafts an action under a freshly drawn identifier of 36 characters, as
/// `draft_action` does.
pub fn draft_new_action(
    text: &str,
    user_id: &str,
    channel_id: &str,
    reply: &Result<String, String>,
    now: i64,
) -> (r: Result<Action, String>)
    requires
        valid_time(now as int),
        valid_time(now + APPROVAL_WINDOW),
    ensures
        match reply_notification(reply_text(*reply)) {
            Some((content, time)) => match r {
                Ok(a) => drafted(a, a.id@, user_id@, channel_id@, text@, content, time, now as int)
                    && action_well_formed(a) && a.id@.len() == 36,
                Err(_) => false,
            },
            None => match r {
                Ok(_) => false,
                Err(m) => m@ == draft_failure_of(*reply),
            },
        },
{
    let id = fresh_id();
    draft_action(text, user_id, channel_id, reply, id, now)
}

/// The action `id` exists, belongs to `user` and awaits approval: the guard
/// of every user response.
pub open spec fn open_for(m: Map<Seq<char>, Action>, id: Seq<char>, user: Seq<char>) -> bool {
    m.contains_key(id) && m[id].user_id@ == user && m[id].status == ActionStatus::AwaitingApproval
}

/// The notification that confirming `a` at `now` persists under `id`: its
/// content, the requester as recipient, the draft time as due time, and the
/// channel of the request.
pub open spec fn confirmed_notification(a: Action, id: Seq<char>, now: int) -> NotificationView {
    let d = draft_of(a)->Some_0;
    NotificationView {
        id: id,
        content: d.content@,
        notify: split_commas(a.user_id@),
        times: notification_times_of(d.time as int, now),
        channel: a.channel_id@,
    }
}

/// The first step of a confirmation.
#[derive(Debug)]
pub enum ConfirmStep {
    /// The guard failed: nothing changed.
    Ignored,
    /// The action has no notification draft: it is stored as failed.
    Unsupported(Action),
    /// The notification, whose identifier is carried along, was added to the
    /// store in memory; the action, now approved, is settled once the store
    /// has been saved.
    Saving(Action, String),
    /// A notification is already stored under the identifier given for the
    /// new one: nothing was added; the approved action is to be settled as
    /// not saved.
    NotStored(Action),
}

/// The actions after the first step of confirming `id` for `user` at `now`.
pub open spec fn begin_confirm_store(
    m: Map<Seq<char>, Action>,
    id: Seq<char>,
    user: Seq<char>,
    now: int,
) -> Map<Seq<char>, Action> {
    if open_for(m, id, user) && draft_of(m[id]) is None {
        m.insert(id, moved_to(m[id], ActionStatus::Failed, now))
    } else {
        m
    }
}

/// The status that settles an approved action once persisting succeeded or not.
pub open spec fn settled_status(saved: bool) -> ActionStatus {
    if saved {
        ActionStatus::Completed
    } else {
        ActionStatus::Failed
    }
}

/// The actions after the approved action `a` is settled at `now`.
pub open spec fn finish_confirm_store(
    m: Map<Seq<char>, Action>,
    a: Action,
    saved: bool,
    now: int,
) -> Map<Seq<char>, Action> {
    m.insert(a.id@, moved_to(a, settled_status(saved), now))
}

/// What the user is told once the approved action `a` is settled.
pub open spec fn confirm_message_of(a: Action, saved: bool) -> Seq<char> {
    if saved {
        match draft_of(a) {
            Some(d) => "Confirmed! I'll notify you: \""@ + d.content@ + "\" at "@ + utc_text_of(
                d.time as int,
            ),
            None => "Confirmed notification."@,
        }
    } else {
        "Failed to persist notification."@
    }
}

/// The text handed back to the model to correct a draft of `original`: the
/// request alone, or the request and the trimmed note where there is one.
pub open spec fn correction_prompt_of(original: Seq<char>, context: Seq<char>) -> Seq<char> {
    if trim_of(context).len() > 0 {
        "Original request: "@ + original + "\nCorrection note: "@ + trim_of(context)
    } else {
        original
    }
}

/// `a` is `o` after the note `context` and the model's answer `reply` at
/// `now`: the trimmed note, where not blank, becomes the extra context; a
/// readable answer replaces content and time; the rest stays.
pub open spec fn corrected_from(
    o: Action,
    a: Action,
    context: Seq<char>,
    reply: Option<Seq<char>>,
    now: int,
) -> bool {
    &&& a.id == o.id
    &&& a.action_type == o.action_type
    &&& a.status == o.status
    &&& a.user_id == o.user_id
    &&& a.channel_id == o.channel_id
    &&& a.created_at == o.created_at
    &&& a.updated_at == now
    &&& match (draft_of(o), draft_of(a)) {
        (Some(d), Some(e)) => {
            &&& e.user_id == d.user_id
            &&& e.channel_id == d.channel_id
            &&& e.original_text == d.original_text
            &&& e.expires_at == d.expires_at
            &&& e.message_id == d.message_id
            &&& if trim_of(context).len() > 0 {
                match e.extra_context {
                    Some(x) => x@ == trim_of(context),
                    None => false,
                }
            } else {
                e.extra_context == d.extra_context
            }
            &&& match reply_notification(reply) {
                Some((c, t)) => e.content@ == c && e.time == t,
                None => e.content == d.content && e.time == d.time,
            }
        },
        _ => false,
    }
}

/// The actions after recording the new action `a`, its prompt shown or not:
/// unchanged where `a`'s identifier is already taken.
pub open spec fn recorded_new(m: Map<Seq<char>, Action>, a: Action, prompt_ok: bool) -> Map<
    Seq<char>,
    Action,
> {
    if m.contains_key(a.id@) {
        m
    } else {
        m.insert(
            a.id@,
            if prompt_ok {
                a
            } else {
                with_status(a, ActionStatus::Failed)
            },
        )
    }
}

impl ActionStore {
    /// Stores a freshly drafted action once the approval prompt was shown,
    /// or as failed where showing it failed. Refuses, and changes nothing,
    /// where an action is already stored under its identifier.
    pub fn record_new(&mut self, action: Action, prompt_ok: bool) -> (r: bool)
        requires
            old(self).well_formed(),
            action_well_formed(action),
        ensures
            final(self).well_formed(),
            r == !old(self)@.contains_key(action.id@),
            final(self)@ == recorded_new(old(self)@, action, prompt_ok),
    {
        if self.get(action.id.as_str()).is_some() {
            return false;
        }
        let mut action = action;
        if !prompt_ok {
            action.status = ActionStatus::Failed;
        }
        self.insert(action);
        true
    }

    /// The action `id` when it belongs to `user` and awaits approval.
    fn open_action(&self, id: &str, user: &str) -> (r: Option<&Action>)
        ensures
            match r {
                Some(a) => open_for(self@, id@, user@) && self@[id@] == *a,
                None => !open_for(self@, id@, user@),
            },
    {
        match self.get(id) {
            Some(a) => if same_text(a.user_id.as_str(), user) && a.status
                == ActionStatus::AwaitingApproval {
                Some(a)
            } else {
                None
            },
            None => None,
        }
    }

    /// First step of the user `user_id` confirming the action `action_id` at
    /// `now`. Where the action is open and drafts a notification, that
    /// notification is added to `notifications` under `notification_id` and
    /// the approved action is handed back, to be settled by `finish_confirm`.
    pub fn begin_confirm(
        &mut self,
        action_id: &str,
        user_id: &str,
        notifications: &mut NotificationStore,
        notification_id: String,
        now: i64,
    ) -> (r: ConfirmStep)
        requires
            old(self).well_formed(),
            old(notifications).well_formed(),
        ensures
            final(self).well_formed(),
            final(notifications).well_formed(),
            final(self)@ == begin_confirm_store(old(self)@, action_id@, user_id@, now as int),
            !open_for(old(self)@, action_id@, user_id@) ==> r is Ignored && final(notifications)@
                == old(notifications)@,
            open_for(old(self)@, action_id@, user_id@) && draft_of(old(self)@[action_id@]) is None
                ==> r == ConfirmStep::Unsupported(
                moved_to(old(self)@[action_id@], ActionStatus::Failed, now as int),
            ) && final(notifications)@ == old(notifications)@,
            open_for(old(self)@, action_id@, user_id@) && draft_of(old(self)@[action_id@]) is Some
                && !stored_ids(old(notifications)@).contains(notification_id@) ==> r
                == ConfirmStep::Saving(
                moved_to(old(self)@[action_id@], ActionStatus::Approved, now as int),
                notification_id,
            ) && final(notifications)@ == old(notifications)@.push(
                confirmed_notification(old(self)@[action_id@], notification_id@, now as int),
            ),
            open_for(old(self)@, action_id@, user_id@) && draft_of(old(self)@[action_id@]) is Some
                && stored_ids(old(notifications)@).contains(notification_id@) ==> r
                == ConfirmStep::NotStored(
                moved_to(old(self)@[action_id@], ActionStatus::Approved, now as int),
            ) && final(notifications)@ == old(notifications)@,
    {
        let mut action = match self.open_action(action_id, user_id) {
            Some(a) => a.duplicate(),
            None => return ConfirmStep::Ignored,
        };
        action.status = ActionStatus::Approved;
        action.updated_at = now;
        let kept_id = notification_id.clone();
        match action.notification_draft() {
            Some(draft) => {
                let added = notifications.create(
                    notification_id,
                    draft.content.as_str(),
                    action.user_id.as_str(),
                    draft.time,
                    action.channel_id.as_str(),
                    now,
                );
                if !added {
                    return ConfirmStep::NotStored(action);
                }
            },
            None => {
                action.status = ActionStatus::Failed;
                action.updated_at = now;
                let stored = action.duplicate();
                self.insert(stored);
                return ConfirmStep::Unsupported(action);
            },
        }
        ConfirmStep::Saving(action, kept_id)
    }

    /// `begin_confirm` with a freshly drawn identifier for the notification.
    /// Drawn identifiers have 36 characters, so where no stored notification
    /// has an identifier of that length the notification is always added.
    pub fn confirm_request(
        &mut self,
        action_id: &str,
        user_id: &str,
        notifications: &mut NotificationStore,
        now: i64,
    ) -> (r: ConfirmStep)
        requires
            old(self).well_formed(),
            old(notifications).well_formed(),
        ensures
            final(self).well_formed(),
            final(notifications).well_formed(),
            final(self)@ == begin_confirm_store(old(self)@, action_id@, user_id@, now as int),
            !open_for(old(self)@, action_id@, user_id@) ==> r is Ignored && final(notifications)@
                == old(notifications)@,
            open_for(old(self)@, action_id@, user_id@) && draft_of(old(self)@[action_id@]) is None
                ==> r == ConfirmStep::Unsupported(
                moved_to(old(self)@[action_id@], ActionStatus::Failed, now as int),
            ) && final(notifications)@ == old(notifications)@,
            open_for(old(self)@, action_id@, user_id@) && draft_of(old(self)@[action_id@]) is Some
                ==> match r {
                ConfirmStep::Saving(a, nid) => a == moved_to(
                    old(self)@[action_id@],
                    ActionStatus::Approved,
                    now as int,
                ) && !stored_ids(old(notifications)@).contains(nid@) && final(notifications)@
                    == old(notifications)@.push(
                    confirmed_notification(old(self)@[action_id@], nid@, now as int),
                ),
                ConfirmStep::NotStored(a) => a == moved_to(
                    old(self)@[action_id@],
                    ActionStatus::Approved,
                    now as int,
                ) && final(notifications)@ == old(notifications)@,
                _ => false,
            },
            open_for(old(self)@, action_id@, user_id@) && draft_of(old(self)@[action_id@]) is Some
                && (forall|i: int|
                0 <= i < old(notifications)@.len() ==> (#[trigger] old(notifications)@[i]).id.len()
                    != 36) ==> r is Saving,
    {
        let id = fresh_id();
        let ghost idv = id@;
        let r = self.begin_confirm(action_id, user_id, notifications, id, now);
        proof {
            if forall|i: int|
                0 <= i < old(notifications)@.len() ==> (#[trigger] old(notifications)@[i]).id.len()
                    != 36 {
                assert forall|k: int| 0 <= k < old(notifications)@.len() implies stored_ids(
                    old(notifications)@,
                )[k] != idv by {
                    assert(stored_ids(old(notifications)@)[k] == old(notifications)@[k].id);
                }
            }
        }
        r
    }

    /// Settles the approved action `action` at `now`: completed where the
    /// notification store was saved, failed otherwise. Where it was not saved,
    /// the notification that the confirmation `added` to `notifications` is
    /// taken out again. Returns what the user is told.
    pub fn finish_confirm(
        &mut self,
        action: Action,
        notifications: &mut NotificationStore,
        added: Option<String>,
        saved: bool,
        now: i64,
    ) -> (r: String)
        requires
            old(self).well_formed(),
            old(notifications).well_formed(),
            action_well_formed(action),
        ensures
            final(self).well_formed(),
            final(notifications).well_formed(),
            final(self)@ == finish_confirm_store(old(self)@, action, saved, now as int),
            r@ == confirm_message_of(action, saved),
            final(notifications)@ == match added {
                Some(id) => if saved {
                    old(notifications)@
                } else {
                    without_id(old(notifications)@, id@)
                },
                None => old(notifications)@,
            },
    {
        let mut action = action;
        let message = if saved {
            match action.notification_draft() {
                Some(draft) => {
                    let mut m = String::from_str("Confirmed! I'll notify you: \"");
                    m.append(draft.content.as_str());
                    m.append("\" at ");
                    let when = utc_text(draft.time);
                    m.append(when.as_str());
                    m
                },
                None => String::from_str("Confirmed notification."),
            }
        } else {
            String::from_str("Failed to persist notification.")
        };
        action.status = if saved {
            ActionStatus::Completed
        } else {
            ActionStatus::Failed
        };
        action.updated_at = now;
        self.insert(action);
        if !saved {
            if let Some(id) = added {
                notifications.retract(id.as_str());
            }
        }
        message
    }

    /// The user `user_id` cancels the action `action_id` at `now`: an open
    /// action is stored as rejected and handed back.
    pub fn cancel(&mut self, action_id: &str, user_id: &str, now: i64) -> (r: Option<Action>)
        requires
            old(self).well_formed(),
        ensures
            final(self).well_formed(),
            !open_for(old(self)@, action_id@, user_id@) ==> r is None && final(self)@ == old(
                self,
            )@,
            open_for(old(self)@, action_id@, user_id@) ==> r == Some(
                moved_to(old(self)@[action_id@], ActionStatus::Rejected, now as int),
            ) && final(self)@ == old(self)@.insert(
                action_id@,
                moved_to(old(self)@[action_id@], ActionStatus::Rejected, now as int),
            ),
    {
        let mut action = match self.open_action(action_id, user_id) {
            Some(a) => a.duplicate(),
            None => return None,
        };
        action.status = ActionStatus::Rejected;
        action.updated_at = now;
        let stored = action.duplicate();
        self.insert(stored);
        Some(action)
    }

    /// The text to hand the model for the user `user_id` correcting the open
    /// action `action_id` with the note `context`.
    pub fn correction_prompt(&self, action_id: &str, user_id: &str, context: &str) -> (r: Option<
        String,
    >)
        ensures
            match r {
                Some(p) => open_for(self@, action_id@, user_id@) && draft_of(
                    self@[action_id@],
                ) is Some && p@ == correction_prompt_of(
                    draft_of(self@[action_id@])->Some_0.original_text@,
                    context@,
                ),
                None => !open_for(self@, action_id@, user_id@) || draft_of(
                    self@[action_id@],
                ) is None,
            },
    {
        let action = match self.open_action(action_id, user_id) {
            Some(a) => a,
            None => return None,
        };
        let draft = match action.notification_draft() {
            Some(d) => d,
            None => return None,
        };
        let note = trim_text(context);
        if note.as_str().is_empty() {
            Some(draft.original_text.clone())
        } else {
            let mut p = String::from_str("Original request: ");
            p.append(draft.original_text.as_str());
            p.append("\nCorrection note: ");
            p.append(note.as_str());
            Some(p)
        }
    }

    /// The open action `action_id` of `user_id` corrected at `now` with the
    /// note `context` and the model's answer `reply` to the correction prompt.
    /// The caller shows it again and stores it.
    pub fn corrected(
        &self,
        action_id: &str,
        user_id: &str,
        context: &str,
        reply: &Result<String, String>,
        now: i64,
    ) -> (r: Option<Action>)
        requires
            self.well_formed(),
        ensures
            match r {
                Some(a) => open_for(self@, action_id@, user_id@) && corrected_from(
                    self@[action_id@],
                    a,
                    context@,
                    reply_text(*reply),
                    now as int,
                ) && action_well_formed(a),
                None => !open_for(self@, action_id@, user_id@) || draft_of(
                    self@[action_id@],
                ) is None,
            },
    {
        let action = match self.open_action(action_id, user_id) {
            Some(a) => a,
            None => return None,
        };
        let mut draft = match action.notification_draft() {
            Some(d) => d.duplicate(),
            None => return None,
        };
        let note = trim_text(context);
        if !note.as_str().is_empty() {
            draft.extra_context = Some(note);
        }
        if let Ok(payload) = reply {
            if let Some((content, time)) = parse_ai_notification(payload.as_str()) {
                draft.content = content;
                draft.time = time;
            }
        }
        let mut updated = action.duplicate();
        updated.payload = Some(ActionPayload::NotificationDraft(draft));
        updated.updated_at = now;
        Some(updated)
    }
}

/// A notification request whose model answer can be read, once its action
/// is recorded with the prompt shown, adds exactly one action: recording
/// succeeds exactly when the identifier is new, and then the action sits under
/// it, awaits approval, belongs to the requester and the channel, and carries
/// the content and time of the answer, while no other action changes. Where
/// recording is refused, no action changes at all. Drafted identifiers have
/// 36 characters, so where no stored identifier has that length recording
/// succeeds.
pub proof fn lemma_request_creates_one_action(
    m: Map<Seq<char>, Action>,
    a: Action,
    user: Seq<char>,
    channel: Seq<char>,
    text: Seq<char>,
    payload: Seq<char>,
    now: int,
)
    requires
        m.dom().finite(),
        a.id@.len() == 36,
        ai_notification_of(payload) is Some,
        drafted(
            a,
            a.id@,
            user,
            channel,
            text,
            ai_notification_of(payload)->Some_0.0,
            ai_notification_of(payload)->Some_0.1,
            now,
        ),
    ensures
        ({
            let after = recorded_new(m, a, true);
            let id = a.id@;
            let (content, time) = ai_notification_of(payload)->Some_0;
            &&& (forall|k: Seq<char>| #[trigger] m.contains_key(k) ==> k.len() != 36)
                ==> !m.contains_key(id)
            &&& m.contains_key(id) ==> after == m
            &&& !m.contains_key(id) ==> {
                &&& after.dom() == m.dom().insert(id)
                &&& after.dom().len() == m.dom().len() + 1
                &&& after[id].status == ActionStatus::AwaitingApproval
                &&& after[id].user_id@ == user
                &&& after[id].channel_id@ == channel
                &&& draft_of(after[id]) is Some
                &&& draft_of(after[id])->Some_0.content@ == content
                &&& draft_of(after[id])->Some_0.time == time
                &&& forall|k: Seq<char>|
                    k != id ==> (#[trigger] after.contains_key(k) == m.contains_key(k)) && (
                    m.contains_key(k) ==> after[k] == m[k])
            }
        }),
{
    let after = recorded_new(m, a, true);
    if !m.contains_key(a.id@) {
        assert(after.dom() =~= m.dom().insert(a.id@));
    }
}

/// A confirmation from anyone but the requester, or of an action that no
/// longer awaits approval, changes no action (and `begin_confirm` then
/// persists nothing).
pub proof fn lemma_confirm_guard(
    m: Map<Seq<char>, Action>,
    id: Seq<char>,
    user: Seq<char>,
    now: int,
)
    requires
        m.contains_key(id),
        m[id].user_id@ != user || m[id].status != ActionStatus::AwaitingApproval,
    ensures
        !open_for(m, id, user),
        begin_confirm_store(m, id, user, now) == m,
{
}

/// Confirming an open action settles it in a terminal status, `Completed` or
/// `Failed`, whether or not it carries a draft and whether or not persisting
/// succeeds; a second confirmation of it, by anyone and at any time, then
/// changes nothing.
pub proof fn lemma_confirm_once(
    m: Map<Seq<char>, Action>,
    id: Seq<char>,
    user: Seq<char>,
    saved: bool,
    now: int,
    later: int,
    again_user: Seq<char>,
    again_at: int,
)
    requires
        store_well_formed(m),
        open_for(m, id, user),
    ensures
        ({
            let first = begin_confirm_store(m, id, user, now);
            let settled = if draft_of(m[id]) is Some {
                finish_confirm_store(
                    first,
                    moved_to(m[id], ActionStatus::Approved, now),
                    saved,
                    later,
                )
            } else {
                first
            };
            &&& settled.contains_key(id)
            &&& settled[id].status == ActionStatus::Completed || settled[id].status
                == ActionStatus::Failed
            &&& !open_for(settled, id, again_user)
            &&& begin_confirm_store(settled, id, again_user, again_at) == settled
        }),
{
    assert(m.contains_key(id));
    assert(m[id].id@ == id);
}

/// A correction whose model answer can be read, once stored, is what a
/// following confirmation persists: the notification gets the corrected
/// content and delivery times derived from the corrected time.
pub proof fn lemma_correction_then_confirm(
    m: Map<Seq<char>, Action>,
    id: Seq<char>,
    user: Seq<char>,
    a: Action,
    context: Seq<char>,
    payload: Seq<char>,
    notification_id: Seq<char>,
    now: int,
    later: int,
)
    requires
        open_for(m, id, user),
        ai_notification_of(payload) is Some,
        corrected_from(m[id], a, context, Some(payload), now),
    ensures
        ({
            let stored = m.insert(id, a);
            let (content, time) = ai_notification_of(payload)->Some_0;
            let n = confirmed_notification(stored[id], notification_id, later);
            &&& open_for(stored, id, user)
            &&& draft_of(stored[id]) is Some
            &&& n.content == content
            &&& n.times == notification_times_of(time, later)
            &&& n.channel == m[id].channel_id@
        }),
{
}

/// A confirmation whose save fails leaves the notification store as it was
/// before the confirmation: the notification that `begin_confirm` added under
/// an identifier not stored before is taken out again by `finish_confirm`,
/// and the action ends `Failed`.
pub proof fn lemma_failed_save_leaves_no_notification(
    m: Map<Seq<char>, Action>,
    id: Seq<char>,
    user: Seq<char>,
    notifications: Seq<NotificationView>,
    notification_id: Seq<char>,
    now: int,
    later: int,
)
    requires
        store_well_formed(m),
        open_for(m, id, user),
        draft_of(m[id]) is Some,
        !stored_ids(notifications).contains(notification_id),
    ensures
        ({
            let added = notifications.push(confirmed_notification(m[id], notification_id, now));
            let settled = finish_confirm_store(
                begin_confirm_store(m, id, user, now),
                moved_to(m[id], ActionStatus::Approved, now),
                false,
                later,
            );
            &&& without_id(added, notification_id) == notifications
            &&& settled[id].status == ActionStatus::Failed
        }),
{
    lemma_retract_undoes_create(notifications, confirmed_notification(m[id], notification_id, now));
    assert(m[id].id@ == id);
}

} // verus!
