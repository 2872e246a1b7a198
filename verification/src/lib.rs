//! Chat-channel interaction bridge: routes an agent's request for human input
//! to a named chat channel, tracks the human's option toggles and free text
//! through a polling session, and renders the structured result.

pub mod classify;
pub mod formatter;
pub mod registry;
pub mod router;
pub mod session;
pub mod strutil;
pub mod tools;
pub mod types;

use vstd::prelude::*;

verus! {

/// Default for a request's markdown flag: messages are markdown unless said otherwise.
pub fn default_is_markdown() -> (r: bool)
    ensures
        r == true,
{
    true
}

} // verus!
