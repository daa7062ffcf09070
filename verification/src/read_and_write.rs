//! Shared against exclusive borrows: one value is only ever read, the
//! other is handed out for writing and comes back changed.

use vstd::prelude::*;

verus! {

/// Writes 100 through an exclusive borrow, whatever was there before.
pub fn person_write(write: &mut i32)
    ensures
        *final(write) == 100,
{
    *write = 100;
}

/// The borrowing demonstration: a readable value is observed through a
/// shared borrow, a writable one is changed through an exclusive borrow.
/// Returns what the reader saw, the readable value afterwards, and the
/// writable value afterwards.
pub fn read_write_demo() -> (r: (i32, i32, i32))
    ensures
        r.0 == 10,
        r.1 == 10,
        r.2 == 100,
{
    let can_read_data: i32 = 10;
    let mut can_write_data: i32 = 20;

    let readable = &can_read_data;
    let reader_saw = *readable;
    let writable = &mut can_write_data;
    person_write(writable);

    (reader_saw, can_read_data, can_write_data)
}

} // verus!
