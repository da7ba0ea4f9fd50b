//! Fresh identifiers for newly created rows.

use vstd::prelude::*;

verus! {

/// Relies on `uuid::Uuid::new_v4` and its `Display` rendering: a fresh random
/// identifier in the hyphenated textual form, which is exactly 36 characters.
/// The value is random, so nothing more is promised of it.
#[verifier::external_body]
pub(crate) fn new_id() -> (r: String)
    ensures
        r@.len() == 36,
{
    uuid::Uuid::new_v4().to_string()
}

} // verus!
