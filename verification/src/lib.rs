//! Login-session state and a cancellable change monitor.
//!
//! The library models the decision logic of a watcher over an OS
//! session-tracking service: which keyword a watch category selects, how the
//! multiplexer wait timeout is computed from the service's deadline hint, in
//! what order a batch of ready descriptors is dispatched, and how the
//! monitor handle is torn down. The raw descriptor plumbing that cannot be
//! verified lives with the embedding application.

use vstd::prelude::*;

pub mod login;

verus! {

/// An error code reported by the operating system, as a positive `errno`
/// value.
#[derive(Clone, Copy, Debug, PartialEq, Eq, Structural)]
pub struct OsError {
    pub errno: i32,
}

/// Turns the return convention of the session-directory calls — a negative
/// value is a negated `errno`, anything else is success — into a `Result`.
pub fn to_result(result: i32) -> (r: Result<i32, OsError>)
    requires
        result > i32::MIN,
    ensures
        result >= 0 ==> r == Result::<i32, OsError>::Ok(result),
        result < 0 ==> (r matches Err(e) && e.errno == -result),
{
    if result < 0 {
        Err(OsError { errno: -result })
    } else {
        Ok(result)
    }
}

} // verus!
