//! What the engine takes from its surroundings: the clock, fresh identifiers
//! and the file system. Nothing here is proved; each function states the
//! little that holds of every answer.

use vstd::prelude::*;

verus! {

/// The current time as `chrono::Utc::now()` reports it, in milliseconds since
/// the Unix epoch (`DateTime::timestamp_millis`). Nothing is claimed about
/// the value: the clock may stand still or step back between two calls.
/// `Utc::now()` does not return on a machine whose clock is set before the
/// epoch.
#[verifier::external_body]
pub(crate) fn current_time_millis() -> (now: i64) {
    chrono::Utc::now().timestamp_millis()
}

/// A random identifier: `uuid::Uuid::new_v4()` in its default text form,
/// which is the hyphenated one of 36 characters. Two calls may return the
/// same identifier as far as this contract goes. `Uuid::new_v4()` does not
/// return on a machine whose source of random numbers fails.
#[verifier::external_body]
pub(crate) fn fresh_identifier() -> (id: String)
    ensures
        id@.len() == 36,
{
    uuid::Uuid::new_v4().to_string()
}

/// Whether `std::path::Path::exists` finds something at `path`. The answer
/// depends on the file system at the moment of the call.
#[verifier::external_body]
pub(crate) fn path_exists(path: &str) -> (present: bool) {
    std::path::Path::new(path).exists()
}

} // verus!
