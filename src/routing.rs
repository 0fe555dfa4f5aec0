//! Classifying free text as a notification request or not.
use vstd::prelude::*;
use crate::json::{json_text_field, json_text_field_of};
use crate::text::{
    chars_of, contains_char, contains_digit, contains_seq, contains_text, has_char, has_digit,
    is_ascii_letter, lower_of, same_text, lowercase, trim_of, trim_text,
};

verus! {

/// What a piece of text asks for.
#[derive(Debug, Clone, Copy, PartialEq, Eq, Structural)]
pub enum Intent {
    Notification,
    Unknown,
}

/// A classification together with the text it was made on.
#[derive(Debug, Clone)]
pub struct IntentResult {
    pub intent: Intent,
    pub normalized_text: String,
}

/// A standalone `am` or `pm` starts at position `i` of `l`: neither the
/// character before it nor the one after it is an ASCII letter.
pub open spec fn am_pm_at(l: Seq<char>, i: int) -> bool {
    &&& 0 <= i && i + 1 < l.len()
    &&& (l[i] == 'a' || l[i] == 'p')
    &&& l[i + 1] == 'm'
    &&& (i == 0 || !is_ascii_letter(l[i - 1]))
    &&& (i + 2 >= l.len() || !is_ascii_letter(l[i + 2]))
}

/// `l` holds a standalone `am` or `pm`.
pub open spec fn mentions_am_pm(l: Seq<char>) -> bool {
    exists|i: int| am_pm_at(l, i)
}

/// `l` holds a word that points at a day or a part of one.
pub open spec fn names_time_word(l: Seq<char>) -> bool {
    ||| contains_seq(l, "today"@)
    ||| contains_seq(l, "tomorrow"@)
    ||| contains_seq(l, "tonight"@)
    ||| contains_seq(l, "morning"@)
    ||| contains_seq(l, "afternoon"@)
    ||| contains_seq(l, "evening"@)
    ||| contains_seq(l, "next "@)
    ||| contains_seq(l, "this "@)
    ||| contains_seq(l, "at "@)
    ||| contains_seq(l, "in "@)
    ||| contains_seq(l, "on "@)
}

/// `l` holds the name of a weekday.
pub open spec fn names_weekday(l: Seq<char>) -> bool {
    ||| contains_seq(l, "monday"@)
    ||| contains_seq(l, "tuesday"@)
    ||| contains_seq(l, "wednesday"@)
    ||| contains_seq(l, "thursday"@)
    ||| contains_seq(l, "friday"@)
    ||| contains_seq(l, "saturday"@)
    ||| contains_seq(l, "sunday"@)
}

/// `l` holds the name of a month.
pub open spec fn names_month(l: Seq<char>) -> bool {
    ||| contains_seq(l, "january"@)
    ||| contains_seq(l, "february"@)
    ||| contains_seq(l, "march"@)
    ||| contains_seq(l, "april"@)
    ||| contains_seq(l, "may"@)
    ||| contains_seq(l, "june"@)
    ||| contains_seq(l, "july"@)
    ||| contains_seq(l, "august"@)
    ||| contains_seq(l, "september"@)
    ||| contains_seq(l, "october"@)
    ||| contains_seq(l, "november"@)
    ||| contains_seq(l, "december"@)
}

/// The lower-case text `l` mentions a time: a time word, a weekday or a
/// month; else, where it holds `/` or `:`, a digit; else a standalone am/pm.
pub open spec fn mentions_time(l: Seq<char>) -> bool {
    ||| names_time_word(l)
    ||| names_weekday(l)
    ||| names_month(l)
    ||| if has_char(l, '/') || has_char(l, ':') {
        has_digit(l)
    } else {
        mentions_am_pm(l)
    }
}

/// The intent that the keyword heuristic gives to `text`.
pub open spec fn heuristic_intent(text: Seq<char>) -> Intent {
    let n = trim_of(text);
    if n.len() > 0 && mentions_time(lower_of(n)) {
        Intent::Notification
    } else {
        Intent::Unknown
    }
}

/// Whether the lower-case text `lower` holds a standalone `am` or `pm`.
pub fn has_am_pm(lower: &str) -> (r: bool)
    ensures
        r == mentions_am_pm(lower@),
{
    let l = chars_of(lower);
    let n = l.len();
    if n < 2 {
        return false;
    }
    let mut i: usize = 0;
    while i + 1 < n
        invariant
            l@ == lower@,
            n == l@.len(),
            n >= 2,
            i + 1 <= n,
            forall|k: int| 0 <= k < i ==> !am_pm_at(lower@, k),
        decreases n - i,
    {
        let first = l[i];
        let second = l[i + 1];
        if (first == 'a' || first == 'p') && second == 'm' {
            let boundary_before = i == 0 || !(('a' <= l[i - 1] && l[i - 1] <= 'z') || ('A' <= l[i
                - 1] && l[i - 1] <= 'Z'));
            let boundary_after = i + 2 >= n || !(('a' <= l[i + 2] && l[i + 2] <= 'z') || ('A'
                <= l[i + 2] && l[i + 2] <= 'Z'));
            if boundary_before && boundary_after {
                assert(am_pm_at(lower@, i as int));
                return true;
            }
        }
        i += 1;
    }
    assert forall|k: int| !am_pm_at(lower@, k) by {
        if 0 <= k < i {
        }
    }
    false
}

/// Whether `text`, once folded to lower case, mentions a time.
pub fn has_time_tokens(text: &str) -> (r: bool)
    ensures
        r == mentions_time(lower_of(text@)),
{
    let lower = lowercase(text);
    mentions_time_lower(lower.as_str())
}

/// Whether the lower-case text `lower` mentions a time.
pub fn mentions_time_lower(lower: &str) -> (r: bool)
    ensures
        r == mentions_time(lower@),
{
    if contains_text(lower, "today") || contains_text(lower, "tomorrow") || contains_text(
        lower,
        "tonight",
    ) || contains_text(lower, "morning") || contains_text(lower, "afternoon") || contains_text(
        lower,
        "evening",
    ) || contains_text(lower, "next ") || contains_text(lower, "this ") || contains_text(
        lower,
        "at ",
    ) || contains_text(lower, "in ") || contains_text(lower, "on ") {
        return true;
    }
    if contains_text(lower, "monday") || contains_text(lower, "tuesday") || contains_text(
        lower,
        "wednesday",
    ) || contains_text(lower, "thursday") || contains_text(lower, "friday") || contains_text(
        lower,
        "saturday",
    ) || contains_text(lower, "sunday") {
        return true;
    }
    if contains_text(lower, "january") || contains_text(lower, "february") || contains_text(
        lower,
        "march",
    ) || contains_text(lower, "april") || contains_text(lower, "may") || contains_text(
        lower,
        "june",
    ) || contains_text(lower, "july") || contains_text(lower, "august") || contains_text(
        lower,
        "september",
    ) || contains_text(lower, "october") || contains_text(lower, "november") || contains_text(
        lower,
        "december",
    ) {
        return true;
    }
    let chars = chars_of(lower);
    if contains_char(&chars, '/') || contains_char(&chars, ':') {
        return contains_digit(&chars);
    }
    has_am_pm(lower)
}

/// The intent of the trimmed text `normalized`, whose lower-case form is
/// `lowered`: a notification request where it is not empty and mentions a
/// time, unknown otherwise.
pub fn intent_of_normalized(normalized: &str, lowered: &str) -> (r: Intent)
    ensures
        r == if normalized@.len() > 0 && mentions_time(lowered@) {
            Intent::Notification
        } else {
            Intent::Unknown
        },
{
    if !normalized.is_empty() && mentions_time_lower(lowered) {
        Intent::Notification
    } else {
        Intent::Unknown
    }
}

/// Classifies `text` by keywords: a trimmed, non-empty text that mentions a
/// time is a notification request; anything else is unknown.
pub fn route_intent(text: &str) -> (r: IntentResult)
    ensures
        r.intent == heuristic_intent(text@),
        r.normalized_text@ == trim_of(text@),
{
    let normalized = trim_text(text);
    let lowered = lowercase(normalized.as_str());
    let intent = intent_of_normalized(normalized.as_str(), lowered.as_str());
    IntentResult { intent, normalized_text: normalized }
}

/// The classifier that works by keywords alone.
pub struct HeuristicRouter;

impl HeuristicRouter {
    /// Classifies `text` as `route_intent` does.
    pub fn route(&self, text: &str) -> (r: IntentResult)
        ensures
            r.intent == heuristic_intent(text@),
            r.normalized_text@ == trim_of(text@),
    {
        route_intent(text)
    }
}

/// The intent that a label of the model's answer stands for.
pub open spec fn intent_of_label(label: Seq<char>) -> Intent {
    if label == "notification"@ {
        Intent::Notification
    } else {
        Intent::Unknown
    }
}

/// The classification written in the model's answer `payload`
/// (`{"intent": ..., "normalized_text": ...}`), when it holds both texts.
pub open spec fn router_reply_of(payload: Seq<char>) -> Option<(Intent, Seq<char>)> {
    match (json_text_field_of(payload, "intent"@), json_text_field_of(payload, "normalized_text"@)) {
        (Some(label), Some(text)) => Some((intent_of_label(label), trim_of(text))),
        _ => None,
    }
}

/// Reads the model's classification out of `payload`.
pub fn parse_router_payload(payload: &str) -> (r: Option<IntentResult>)
    ensures
        match r {
            Some(res) => router_reply_of(payload@) == Some((res.intent, res.normalized_text@)),
            None => router_reply_of(payload@) is None,
        },
{
    let label = match json_text_field(payload, "intent") {
        Some(l) => l,
        None => return None,
    };
    let text = match json_text_field(payload, "normalized_text") {
        Some(t) => t,
        None => return None,
    };
    let intent = if same_text(label.as_str(), "notification") {
        Intent::Notification
    } else {
        Intent::Unknown
    };
    Some(IntentResult { intent, normalized_text: trim_text(text.as_str()) })
}

/// The classification of `text` given the model's answer to it: what the
/// answer says when it can be read, the keyword heuristic otherwise.
pub open spec fn model_route(text: Seq<char>, reply: Option<Seq<char>>) -> (Intent, Seq<char>) {
    match reply {
        Some(p) => match router_reply_of(p) {
            Some(res) => res,
            None => (heuristic_intent(text), trim_of(text)),
        },
        None => (heuristic_intent(text), trim_of(text)),
    }
}

/// Classifies `text` from the language model's answer to it; `reply` is the
/// answer, or the error of the call.
pub fn route_from_reply(text: &str, reply: &Result<String, String>) -> (r: IntentResult)
    ensures
        (r.intent, r.normalized_text@) == model_route(
            text@,
            match reply {
                Ok(p) => Some(p@),
                Err(_) => None,
            },
        ),
{
    match reply {
        Ok(payload) => match parse_router_payload(payload.as_str()) {
            Some(res) => res,
            None => route_intent(text),
        },
        Err(_) => route_intent(text),
    }
}

} // verus!
