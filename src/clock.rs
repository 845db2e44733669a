//! The wall clock and the id generator, as seen by the library.
use vstd::prelude::*;

verus! {

/// Relies on chrono::Utc::now and DateTime::timestamp: seconds since the Unix epoch.
/// `Utc::now` panics on a system clock set before the epoch, so a reading that comes
/// back is never negative; nothing more is promised of it.
#[verifier::external_body]
pub(crate) fn now_timestamp() -> (r: i64)
    ensures
        r >= 0,
{
    chrono::Utc::now().timestamp()
}

/// Relies on uuid::Uuid::new_v4 and its hyphenated text form (8-4-4-4-12 hex digits).
#[verifier::external_body]
pub(crate) fn fresh_id() -> (r: String)
    ensures
        r@.len() == 36,
{
    uuid::Uuid::new_v4().to_string()
}

} // verus!
