//! Borrow scopes: one long-lived integer is borrowed twice in disjoint
//! blocks, and both borrows read the same value. The observations are
//! collected instead of printed, so their values can be pinned down.

use vstd::prelude::*;

verus! {

/// Reads one integer through two disjoint borrows and records what each
/// borrow saw. `i` outlives both borrows, so both see 3. A third block
/// once tried to keep a borrow of a value that was dropped before the
/// read; the borrow checker rejects such a dangling borrow outright, so
/// no observation of it can exist here.
fn scoped_borrows() -> (seen: Vec<i32>)
    ensures
        seen@ =~= seq![3i32, 3i32],
{
    let i: i32 = 3;
    let mut seen: Vec<i32> = Vec::new();
    {
        let borrow1 = &i;
        seen.push(*borrow1);
    }
    {
        let borrow2 = &i;
        seen.push(*borrow2);
    }
    seen
}

/// Runs the borrow-scope demonstration and hands back the two values
/// that were read, in the order they were read.
pub fn start() -> (seen: Vec<i32>)
    ensures
        seen@ =~= seq![3i32, 3i32],
{
    scoped_borrows()
}

} // verus!
