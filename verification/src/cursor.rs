//! Cursor-position selection. Querying the system pointer is edge work;
//! the caller hands in the query's outcome and the last position it
//! cached, and the selection rule is verified here.

use vstd::prelude::*;

verus! {

/// The cursor position to report: the system-reported position when the
/// query succeeded, else the cached one.
pub fn get_cursor_position(system: Option<(i32, i32)>, cached: (i32, i32)) -> (p: (i32, i32))
    ensures
        p == (match system {
            Some(s) => s,
            None => cached,
        }),
{
    match system {
        Some(s) => s,
        None => cached,
    }
}

} // verus!
