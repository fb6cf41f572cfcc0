//! Fresh identifiers for bookings and records.

use vstd::prelude::*;

verus! {

/// Relies on `uuid::Uuid::new_v4` rendered through `Display`: a fresh
/// random identifier in the hyphenated form, which is always 36
/// characters long.  Nothing further can be promised of a random
/// value.
#[verifier::external_body]
pub(crate) fn new_uuid() -> (r: String)
    ensures
        r@.len() == 36,
{
    uuid::Uuid::new_v4().to_string()
}

} // verus!
