//! The result of one blocking read or write, shared by both backends.
use vstd::prelude::*;

verus! {

/// What a transfer that moved `moved` bytes of a `requested`-byte buffer
/// reports: the count, or `None` where nothing moved although something was
/// asked for. A read whose timer ran out with no data thus reports `None`,
/// just as a failed one does.
pub open spec fn transfer_result(requested: usize, moved: usize) -> Option<usize> {
    if moved == 0 && requested > 0 {
        None
    } else {
        Some(moved)
    }
}

/// The result of a transfer that completed having moved `moved` bytes of a
/// `requested`-byte buffer.
pub fn transfer_count(requested: usize, moved: usize) -> (r: Option<usize>)
    ensures
        r == transfer_result(requested, moved),
{
    if moved == 0 && requested > 0 {
        None
    } else {
        Some(moved)
    }
}

} // verus!
