//! Lifetimes on functions and on a struct that borrows: a value carrying
//! a borrowed integer is handed out of the function that made it, which
//! is only possible because the borrowed integer lives for the whole
//! program.

use vstd::prelude::*;

verus! {

/// Holds a borrow of an integer; a value of this type cannot outlive
/// the integer it borrows.
pub struct OnlyStep1<'step1> {
    pub data: &'step1 i32,
}

/// Hands out a borrow of a constant that lives for the whole program,
/// so the returned value is good for any lifetime the caller asks for.
pub fn step1<'step1>() -> (r: OnlyStep1<'step1>)
    ensures
        *r.data == 10,
{
    OnlyStep1 { data: &10 }
}

/// A step that borrows nothing and does nothing; its lifetime parameter
/// constrains no caller.
pub fn step2<'step2>() {
}

/// Runs both steps and reports the integer read through the borrow.
pub fn start<'start>() -> (shown: i32)
    ensures
        shown == 10,
{
    let may1 = step1();
    let shown = *may1.data;
    step2();
    shown
}

} // verus!
