//! Fresh identifiers for sessions, jobs and agent messages.

use vstd::prelude::*;

verus! {

/// Relies on uuid::Uuid::new_v4: a fresh random identifier. Nothing is
/// assumed of its text.
#[verifier::external_body]
pub fn new_uuid() -> (r: String)
{
    uuid::Uuid::new_v4().to_string()
}

} // verus!
