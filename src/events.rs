//! The events that request handlers put on the bus for the workflow.
use vstd::prelude::*;
use crate::action::ActionEvent;
use crate::text::{chars_of, first_index_of, lemma_first_index, same_text};

verus! {

/// An event on the bus, as request handlers name them.
#[derive(Debug)]
pub enum Event {
    NotifyRequested { text: String, user_id: String, channel_id: String },
    PendingConfirmed { pending_id: String, user_id: String },
    PendingCanceled { pending_id: String, user_id: String },
    ContextSubmitted { pending_id: String, user_id: String, context: String },
}

impl Event {
    /// The workflow event that this bus event stands for: the pending item is
    /// the action, and every other field is carried over.
    pub fn into_action_event(self) -> (r: ActionEvent)
        ensures
            match (self, r) {
                (
                    Event::NotifyRequested { text, user_id, channel_id },
                    ActionEvent::NotifyRequested { text: t, user_id: u, channel_id: c },
                ) => t == text && u == user_id && c == channel_id,
                (
                    Event::PendingConfirmed { pending_id, user_id },
                    ActionEvent::ApprovalConfirmed { action_id: a, user_id: u },
                ) => a == pending_id && u == user_id,
                (
                    Event::PendingCanceled { pending_id, user_id },
                    ActionEvent::ApprovalCanceled { action_id: a, user_id: u },
                ) => a == pending_id && u == user_id,
                (
                    Event::ContextSubmitted { pending_id, user_id, context },
                    ActionEvent::ContextSubmitted { action_id: a, user_id: u, context: c },
                ) => a == pending_id && u == user_id && c == context,
                _ => false,
            },
    {
        match self {
            Event::NotifyRequested { text, user_id, channel_id } => ActionEvent::NotifyRequested {
                text,
                user_id,
                channel_id,
            },
            Event::PendingConfirmed { pending_id, user_id } => ActionEvent::ApprovalConfirmed {
                action_id: pending_id,
                user_id,
            },
            Event::PendingCanceled { pending_id, user_id } => ActionEvent::ApprovalCanceled {
                action_id: pending_id,
                user_id,
            },
            Event::ContextSubmitted { pending_id, user_id, context } => {
                ActionEvent::ContextSubmitted { action_id: pending_id, user_id, context }
            },
        }
    }
}

/// A button of an approval prompt.
#[derive(Debug, Clone, Copy, PartialEq, Eq, Structural)]
pub enum PromptButton {
    Confirm,
    AddContext,
    Cancel,
}

/// The name that the identifier of a button starts with.
pub open spec fn button_prefix(b: PromptButton) -> Seq<char> {
    match b {
        PromptButton::Confirm => "action_confirm"@,
        PromptButton::AddContext => "action_context"@,
        PromptButton::Cancel => "action_cancel"@,
    }
}

/// The identifier of button `b` on the prompt of the action `id`: the
/// button's name, a colon, then the action.
pub open spec fn button_id_of(b: PromptButton, id: Seq<char>) -> Seq<char> {
    button_prefix(b) + ":"@ + id
}

/// The button and action that the component identifier `custom` names: the
/// text before its first colon picks the button, the text after it is the
/// action.
pub open spec fn pressed_of(custom: Seq<char>) -> Option<(PromptButton, Seq<char>)> {
    let i = first_index_of(custom, ':');
    if i < 0 {
        None
    } else {
        let kind = custom.subrange(0, i);
        let rest = custom.subrange(i + 1, custom.len() as int);
        if kind == "action_confirm"@ {
            Some((PromptButton::Confirm, rest))
        } else if kind == "action_context"@ {
            Some((PromptButton::AddContext, rest))
        } else if kind == "action_cancel"@ {
            Some((PromptButton::Cancel, rest))
        } else {
            None
        }
    }
}

/// The identifier of the correction form of the action `id`.
pub open spec fn modal_id_of(id: Seq<char>) -> Seq<char> {
    "action_context_modal"@ + ":"@ + id
}

/// The action that the identifier of a submitted form names: the text after
/// its first colon.
pub open spec fn modal_target_of(custom: Seq<char>) -> Option<Seq<char>> {
    let i = first_index_of(custom, ':');
    if i < 0 {
        None
    } else {
        Some(custom.subrange(i + 1, custom.len() as int))
    }
}

fn prefix_text(b: PromptButton) -> (r: &'static str)
    ensures
        r@ == button_prefix(b),
{
    match b {
        PromptButton::Confirm => "action_confirm",
        PromptButton::AddContext => "action_context",
        PromptButton::Cancel => "action_cancel",
    }
}

/// The identifier of button `b` on the prompt of the action `action_id`.
pub fn button_id(b: PromptButton, action_id: &str) -> (r: String)
    ensures
        r@ == button_id_of(b, action_id@),
{
    let mut r = String::from_str(prefix_text(b));
    r.append(":");
    r.append(action_id);
    r
}

/// The identifier of the correction form of the action `action_id`.
pub fn modal_id(action_id: &str) -> (r: String)
    ensures
        r@ == modal_id_of(action_id@),
{
    let mut r = String::from_str("action_context_modal");
    r.append(":");
    r.append(action_id);
    r
}

fn first_colon(s: &str) -> (r: Option<usize>)
    ensures
        match r {
            Some(i) => first_index_of(s@, ':') == i as int && i < s@.len(),
            None => first_index_of(s@, ':') == -1,
        },
{
    let chars = chars_of(s);
    let mut i: usize = 0;
    while i < chars.len() && chars[i] != ':'
        invariant
            chars@ == s@,
            i <= chars@.len(),
            forall|j: int| 0 <= j < i ==> chars@[j] != ':',
        decreases chars@.len() - i,
    {
        i += 1;
    }
    if i == chars.len() {
        proof {
            lemma_first_index(s@, ':', -1);
        }
        None
    } else {
        proof {
            lemma_first_index(s@, ':', i as int);
        }
        Some(i)
    }
}

/// The button and action named by a pressed component's identifier.
pub fn parse_button(custom_id: &str) -> (r: Option<(PromptButton, String)>)
    ensures
        match r {
            Some((b, id)) => pressed_of(custom_id@) == Some((b, id@)),
            None => pressed_of(custom_id@) is None,
        },
{
    let i = match first_colon(custom_id) {
        Some(i) => i,
        None => return None,
    };
    let n = custom_id.unicode_len();
    let kind = custom_id.substring_char(0, i);
    let rest = String::from_str(custom_id.substring_char(i + 1, n));
    if same_text(kind, "action_confirm") {
        Some((PromptButton::Confirm, rest))
    } else if same_text(kind, "action_context") {
        Some((PromptButton::AddContext, rest))
    } else if same_text(kind, "action_cancel") {
        Some((PromptButton::Cancel, rest))
    } else {
        None
    }
}

/// The action named by a submitted form's identifier.
pub fn modal_target(custom_id: &str) -> (r: Option<String>)
    ensures
        match r {
            Some(id) => modal_target_of(custom_id@) == Some(id@),
            None => modal_target_of(custom_id@) is None,
        },
{
    match first_colon(custom_id) {
        Some(i) => {
            let n = custom_id.unicode_len();
            Some(String::from_str(custom_id.substring_char(i + 1, n)))
        },
        None => None,
    }
}

/// Reading back the identifier of a prompt button gives the button and the
/// action it was made for, whatever the action identifier holds.
pub proof fn lemma_button_round_trip(b: PromptButton, id: Seq<char>)
    ensures
        pressed_of(button_id_of(b, id)) == Some((b, id)),
{
    reveal_strlit("action_confirm");
    reveal_strlit("action_context");
    reveal_strlit("action_cancel");
    reveal_strlit(":");
    let p = button_prefix(b);
    let s = button_id_of(b, id);
    assert(s[p.len() as int] == ':');
    assert forall|j: int| 0 <= j < p.len() implies s[j] != ':' by {
        assert(s[j] == p[j]);
    }
    lemma_first_index(s, ':', p.len() as int);
    assert(s.subrange(0, p.len() as int) =~= p);
    assert(s.subrange(p.len() as int + 1, s.len() as int) =~= id);
    assert("action_context"@[10] != "action_confirm"@[10]);
}

/// Reading back the identifier of a correction form gives its action.
pub proof fn lemma_modal_round_trip(id: Seq<char>)
    ensures
        modal_target_of(modal_id_of(id)) == Some(id),
{
    reveal_strlit("action_context_modal");
    reveal_strlit(":");
    let p = "action_context_modal"@;
    let s = modal_id_of(id);
    assert(s[p.len() as int] == ':');
    assert forall|j: int| 0 <= j < p.len() implies s[j] != ':' by {
        assert(s[j] == p[j]);
    }
    lemma_first_index(s, ':', p.len() as int);
    assert(s.subrange(p.len() as int + 1, s.len() as int) =~= id);
}

} // verus!
