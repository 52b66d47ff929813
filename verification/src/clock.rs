//! The wall clock.

use vstd::prelude::*;

verus! {

/// Reads the clock with `chrono::Utc::now()` and gives its `timestamp()`:
/// whole seconds since the start of 1970.
///
/// Trusted: a reading is never negative, because `now()` takes the time that
/// has passed since the start of 1970 and panics where the system clock
/// stands before that, or beyond the dates that `chrono` can hold. Nothing
/// else is promised: two readings may differ in either direction.
#[verifier::external_body]
pub(crate) fn unix_now() -> (now: i64)
    ensures
        0 <= now,
{
    chrono::Utc::now().timestamp()
}

} // verus!
