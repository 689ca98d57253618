//! One launcher at a time.

use vstd::prelude::*;

verus! {

/// The name of the mutex that the running launcher holds.
pub const MUTEX_NAME: &'static str = "Local\\IssenSingleInstanceMutex";

/// The error that is left where the mutex existed before.
pub const ERROR_ALREADY_EXISTS: u32 = 183;

/// Whether another launcher runs, by the error that making the mutex left.
pub fn is_already_running(last_error: u32) -> (r: bool)
    ensures
        r == (last_error == ERROR_ALREADY_EXISTS),
{
    last_error == ERROR_ALREADY_EXISTS
}

/// The mutex belongs to the session of the user, and the error is that of an object that
/// exists already.
pub proof fn law_mutex_of_the_session()
    ensures
        MUTEX_NAME@ == "Local\\IssenSingleInstanceMutex"@,
        ERROR_ALREADY_EXISTS == 183,
{
}

} // verus!
