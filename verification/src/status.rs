//! The exit status of the process.

use vstd::prelude::*;

verus! {

/// The status of a run that found nothing wrong.
pub const EXIT_CLEAN: i32 = 0;

/// The status of a run that could not begin, could not go on, or found
/// something wrong.
pub const EXIT_FAILED: i32 = 1;

/// The status of a run that counted this many errors.
pub open spec fn status_of(errors: nat) -> i32 {
    if errors == 0 {
        EXIT_CLEAN
    } else {
        EXIT_FAILED
    }
}

/// The status of a run that came to its end and counted this many errors:
/// clean if there are none, failed otherwise.
pub fn exit_status(errors: u64) -> (code: i32)
    ensures
        code == status_of(errors as nat),
{
    if errors == 0 {
        EXIT_CLEAN
    } else {
        EXIT_FAILED
    }
}

} // verus!
