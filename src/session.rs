//! Per-(user, channel) clarification sessions that stitch a follow-up message
//! onto an earlier one that could not be classified.
use vstd::prelude::*;
use crate::keyed::{
    last_index_of, lemma_last_index, lemma_map_of_lookup, lemma_map_of_upsert, map_of, upsert,
};
use crate::routing::{heuristic_intent, HeuristicRouter, Intent, IntentResult};
use crate::text::{same_text, trim_of};
use crate::time::MINUTE;

verus! {

/// A session is keyed by the user and the channel of the conversation.
pub type SessionKey = (String, String);

/// What the last routed message of a session resolved to.
#[derive(Debug, Clone, Copy, PartialEq, Eq, Structural)]
pub enum SessionState {
    Unknown,
    PendingNotification,
}

/// The conversational state of one (user, channel) pair.
#[derive(Debug, Clone)]
pub struct PendingSession {
    pub state: SessionState,
    pub original_text: String,
    pub last_prompt_at: i64,
}

/// What the caller does after a message has been routed.
#[derive(Debug, Clone)]
pub enum NotifyDecision {
    EmitNotify { normalized_text: String },
    NeedClarification,
}

/// How long a session stays live after its last message, in seconds.
pub const CLARIFICATION_WINDOW: i64 = 5 * MINUTE;

/// A session key as plain text values.
pub type KeyView = (Seq<char>, Seq<char>);

/// A session as plain values: its state, its accumulated text and when it was
/// last routed.
pub type SessionView = (SessionState, Seq<char>, int);

pub open spec fn key_view(k: SessionKey) -> KeyView {
    (k.0@, k.1@)
}

pub open spec fn session_view(s: PendingSession) -> SessionView {
    (s.state, s.original_text@, s.last_prompt_at as int)
}

pub open spec fn entry_view(e: (SessionKey, PendingSession)) -> (KeyView, SessionView) {
    (key_view(e.0), session_view(e.1))
}

/// The session of `k` at time `now`, unless it is absent or older than the
/// clarification window.
pub open spec fn live_session(m: Map<KeyView, SessionView>, k: KeyView, now: int) -> Option<
    SessionView,
> {
    if m.contains_key(k) && now - m[k].2 <= CLARIFICATION_WINDOW {
        Some(m[k])
    } else {
        None
    }
}

/// The text handed to the classifier: a live session still in `Unknown`
/// puts its text, a space, then the new text; otherwise the new text alone.
pub open spec fn classifier_input_of(
    m: Map<KeyView, SessionView>,
    k: KeyView,
    text: Seq<char>,
    now: int,
) -> Seq<char> {
    match live_session(m, k, now) {
        Some(s) => if s.0 == SessionState::Unknown {
            s.1 + " "@ + text
        } else {
            text
        },
        None => text,
    }
}

/// The session state that an intent leaves behind.
pub open spec fn state_after(intent: Intent) -> SessionState {
    match intent {
        Intent::Notification => SessionState::PendingNotification,
        Intent::Unknown => SessionState::Unknown,
    }
}

/// The sessions after a message with classifier input `combined` got `intent`.
pub open spec fn recorded(
    m: Map<KeyView, SessionView>,
    k: KeyView,
    combined: Seq<char>,
    intent: Intent,
    now: int,
) -> Map<KeyView, SessionView> {
    m.insert(k, (state_after(intent), combined, now))
}

/// The sessions of all (user, channel) pairs.
pub struct SessionStore {
    entries: Vec<(SessionKey, PendingSession)>,
}

impl SessionStore {
    /// The sessions as a map from key to session.
    pub closed spec fn view(&self) -> Map<KeyView, SessionView> {
        map_of(self.entries@.map_values(|e: (SessionKey, PendingSession)| entry_view(e)))
    }

    /// A store with no session.
    pub fn new() -> (r: SessionStore)
        ensures
            r@ == Map::<KeyView, SessionView>::empty(),
    {
        let r = SessionStore { entries: Vec::new() };
        assert(r.entries@.map_values(|e: (SessionKey, PendingSession)| entry_view(e)) =~= Seq::<
            (KeyView, SessionView),
        >::empty());
        r
    }

    fn find(&self, user_id: &str, channel_id: &str) -> (r: Option<usize>)
        ensures
            ({
                let s = self.entries@.map_values(|e: (SessionKey, PendingSession)| entry_view(e));
                let i = last_index_of(s, (user_id@, channel_id@));
                match r {
                    Some(j) => i == j && j < self.entries@.len(),
                    None => i == -1,
                }
            }),
    {
        let ghost s = self.entries@.map_values(|e: (SessionKey, PendingSession)| entry_view(e));
        let ghost k = (user_id@, channel_id@);
        let mut i: usize = self.entries.len();
        while i > 0
            invariant
                s == self.entries@.map_values(|e: (SessionKey, PendingSession)| entry_view(e)),
                k == (user_id@, channel_id@),
                i <= self.entries@.len(),
                forall|j: int| i <= j < s.len() ==> s[j].0 != k,
            decreases i,
        {
            let e = &self.entries[i - 1];
            if same_text(e.0.0.as_str(), user_id) && same_text(e.0.1.as_str(), channel_id) {
                proof {
                    lemma_last_index(s, k, i - 1);
                }
                return Some(i - 1);
            }
            i -= 1;
        }
        proof {
            lemma_last_index(s, k, -1);
        }
        None
    }

    /// The session of a key, live or not.
    pub fn get(&self, key: &SessionKey) -> (r: Option<&PendingSession>)
        ensures
            match r {
                Some(s) => self@.contains_key(key_view(*key)) && self@[key_view(*key)]
                    == session_view(*s),
                None => !self@.contains_key(key_view(*key)),
            },
    {
        let ghost s = self.entries@.map_values(|e: (SessionKey, PendingSession)| entry_view(e));
        proof {
            lemma_map_of_lookup(s, key_view(*key));
        }
        match self.find(key.0.as_str(), key.1.as_str()) {
            Some(i) => Some(&self.entries[i].1),
            None => None,
        }
    }

    /// The text to classify for `text` arriving under `key` at `now`: a live
    /// session still in `Unknown` gets the new text appended to its own.
    pub fn classifier_input(&self, key: &SessionKey, text: &str, now: i64) -> (r: String)
        ensures
            r@ == classifier_input_of(self@, key_view(*key), text@, now as int),
    {
        match self.get(key) {
            Some(session) => {
                let age: i128 = now as i128 - session.last_prompt_at as i128;
                if age <= CLARIFICATION_WINDOW as i128 && session.state == SessionState::Unknown {
                    let mut combined = session.original_text.clone();
                    combined.append(" ");
                    combined.append(text);
                    combined
                } else {
                    text.to_owned()
                }
            },
            None => text.to_owned(),
        }
    }

    /// Records the outcome of classifying `combined` under `key` at `now`,
    /// and says whether a notification is to be requested.
    pub fn record_route(
        &mut self,
        key: SessionKey,
        combined: String,
        routing: IntentResult,
        now: i64,
    ) -> (r: NotifyDecision)
        ensures
            final(self)@ == recorded(old(self)@, key_view(key), combined@, routing.intent, now as int),
            match r {
                NotifyDecision::EmitNotify { normalized_text } => routing.intent
                    == Intent::Notification && normalized_text@ == routing.normalized_text@,
                NotifyDecision::NeedClarification => routing.intent == Intent::Unknown,
            },
    {
        let state = match routing.intent {
            Intent::Notification => SessionState::PendingNotification,
            Intent::Unknown => SessionState::Unknown,
        };
        let ghost old_s = self.entries@.map_values(|e: (SessionKey, PendingSession)| entry_view(e));
        let ghost kv = key_view(key);
        let session = PendingSession { state, original_text: combined, last_prompt_at: now };
        let ghost sv = session_view(session);
        let found = self.find(key.0.as_str(), key.1.as_str());
        match found {
            Some(i) => {
                self.entries.set(i, (key, session));
            },
            None => {
                self.entries.push((key, session));
            },
        }
        proof {
            let new_s = self.entries@.map_values(|e: (SessionKey, PendingSession)| entry_view(e));
            assert(new_s =~= upsert(old_s, kv, sv));
            lemma_map_of_upsert(old_s, kv, sv);
        }
        match routing.intent {
            Intent::Notification => NotifyDecision::EmitNotify {
                normalized_text: routing.normalized_text,
            },
            Intent::Unknown => NotifyDecision::NeedClarification,
        }
    }
}

/// Routes `text` from the conversation `key` at `now` with the keyword
/// classifier: the text is merged with a live unresolved session, classified,
/// and the session is overwritten with the outcome.
pub fn route_notify(
    router: &HeuristicRouter,
    sessions: &mut SessionStore,
    key: SessionKey,
    text: String,
    now: i64,
) -> (r: NotifyDecision)
    ensures
        ({
            let combined = classifier_input_of(old(sessions)@, key_view(key), text@, now as int);
            let intent = heuristic_intent(combined);
            &&& final(sessions)@ == recorded(old(sessions)@, key_view(key), combined, intent, now as int)
            &&& match r {
                NotifyDecision::EmitNotify { normalized_text } => intent == Intent::Notification
                    && normalized_text@ == trim_of(combined),
                NotifyDecision::NeedClarification => intent == Intent::Unknown,
            }
        }),
{
    let combined = sessions.classifier_input(&key, text.as_str(), now);
    let routing = router.route(combined.as_str());
    sessions.record_route(key, combined, routing, now)
}

/// A message that the classifier left `Unknown` is merged with a follow-up on
/// the same key within the clarification window: the classifier then gets both
/// texts joined by a space. One second past the window the earlier session is
/// ignored and the follow-up is classified alone.
pub proof fn lemma_follow_up_merges(
    m: Map<KeyView, SessionView>,
    k: KeyView,
    first: Seq<char>,
    follow_up: Seq<char>,
    t0: int,
    now: int,
)
    requires
        live_session(m, k, t0) is None,
        t0 <= now <= t0 + CLARIFICATION_WINDOW,
    ensures
        ({
            let combined = classifier_input_of(m, k, first, t0);
            let after = recorded(m, k, combined, Intent::Unknown, t0);
            &&& combined == first
            &&& classifier_input_of(after, k, follow_up, now) == first + " "@ + follow_up
            &&& classifier_input_of(after, k, follow_up, t0 + CLARIFICATION_WINDOW + 1) == follow_up
        }),
{
}

} // verus!
