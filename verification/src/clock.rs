//! The one reading the library takes from the outside world's clock: the
//! local wall-clock time of day, for the rotation scheduler.

use vstd::prelude::*;

use chrono::Timelike;

verus! {

/// The local wall-clock time of day as (hour, minute, second).
///
/// Relies on `chrono::Local::now` and `chrono::Timelike`: `hour` returns
/// 0 to 23, `minute` and `second` return 0 to 59.
#[verifier::external_body]
pub fn now_local_hms() -> (r: (u32, u32, u32))
    ensures
        r.0 < 24,
        r.1 < 60,
        r.2 < 60,
{
    let now = chrono::Local::now();
    (now.hour(), now.minute(), now.second())
}

} // verus!
