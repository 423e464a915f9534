//! What taking an advisory lock comes to.
use vstd::prelude::*;

verus! {

/// What taking a lock came to.
#[derive(Debug, Clone, Copy, PartialEq, Eq, Structural)]
pub enum LockOutcome {
    /// The lock is held.
    Held,
    /// Another holds it, and it was not to be waited for.
    Busy,
    Failed,
}

/// What a call to lock a file comes to, by whether it succeeded and, where it failed, whether that
/// was for another holder: no failure where the call was not to wait.
pub fn lock_outcome(succeeded: bool, nonblocking: bool, would_block: bool) -> (r: LockOutcome)
    ensures
        r is Held <==> succeeded,
        r is Busy <==> !succeeded && nonblocking && would_block,
{
    if succeeded {
        LockOutcome::Held
    } else if nonblocking && would_block {
        LockOutcome::Busy
    } else {
        LockOutcome::Failed
    }
}

/// A lock that was not to be waited for and that another holds is no failure; every other lock that
/// was not taken is one.
pub proof fn law_a_lock_is_held_busy_or_failed(
    succeeded: bool,
    nonblocking: bool,
    would_block: bool,
    r: LockOutcome,
)
    requires
        call_ensures(lock_outcome, (succeeded, nonblocking, would_block), r),
    ensures
        succeeded ==> r is Held,
        !succeeded && nonblocking && would_block ==> r is Busy,
        !succeeded && !(nonblocking && would_block) ==> r is Failed,
{
}

} // verus!
