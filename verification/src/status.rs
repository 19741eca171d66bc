//! The rule that tells an accepted response from a refused one, and the
//! codes with which the program ends.

use vstd::prelude::*;
use crate::sync::Outcome;

verus! {

/// Whether a status code lies in the 2xx range.
pub open spec fn is_success(code: u16) -> bool {
    200 <= code < 300
}

/// Accepts a response exactly when its status code is 2xx; every other
/// status is a fatal transport error.
pub fn status_ok(code: u16) -> (ok: bool)
    ensures
        ok == is_success(code),
{
    200 <= code && code < 300
}

/// The exit code after a configuration that is missing or malformed.
pub const EXIT_CONFIG: u8 = 1;

/// The exit code after a pass that was abandoned.
pub const EXIT_SYNC: u8 = 2;

/// The exit code after a pass: zero where it ended well, be it with
/// nothing to do, and the code of a failed pass otherwise.
pub fn exit_code(outcome: &Outcome) -> (code: u8)
    ensures
        code == (if outcome is Failed {
            EXIT_SYNC
        } else {
            0u8
        }),
        code != EXIT_CONFIG,
{
    match outcome {
        Outcome::Failed(_) => EXIT_SYNC,
        _ => 0,
    }
}

} // verus!
