//! Fresh identifiers for actions, notifications and todo items.
use vstd::prelude::*;

verus! {

/// Relies on uuid: `Uuid::new_v4` draws a random identifier, and its
/// `Display` writes the hyphenated form of 36 characters.
#[verifier::external_body]
pub(crate) fn fresh_id() -> (r: String)
    ensures
        r@.len() == 36,
{
    uuid::Uuid::new_v4().to_string()
}

} // verus!
