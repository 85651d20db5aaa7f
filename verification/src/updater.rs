//! When to look for a newer error taxonomy.
use vstd::prelude::*;

verus! {

/// How long a check for a taxonomy update stays fresh: one day, in seconds.
pub const UPDATE_CHECK_INTERVAL_SECS: u64 = 86400;

/// Whether to look for a taxonomy update: never when offline, otherwise
/// unless the last check, when its age is known, is less than a day old.
pub fn update_check_due(offline: bool, last_check_age_secs: Option<u64>) -> (r: bool)
    ensures
        r == (!offline && match last_check_age_secs {
            Some(age) => age >= UPDATE_CHECK_INTERVAL_SECS,
            None => true,
        }),
{
    if offline {
        return false;
    }
    match last_check_age_secs {
        Some(age) => age >= UPDATE_CHECK_INTERVAL_SECS,
        None => true,
    }
}

} // verus!
