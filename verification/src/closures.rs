//! Functions passed as values, one kind on the stack and one on the
//! heap: each goes through a wrapper whose contract ties the wrapper's
//! result to the callable's own contract. The wrappers stay generic over
//! the callable, which keeps that contract visible at every call site.

use vstd::prelude::*;

verus! {

/// A plain function returning 1.
pub fn fn1() -> (r: i32)
    ensures
        r == 1,
{
    1
}

/// A plain function returning 2.
pub fn fn2() -> (r: i32)
    ensures
        r == 2,
{
    2
}

/// A function meant to be boxed; returns the text "1".
pub fn fn_box_1() -> (r: &'static str)
    ensures
        r@ == "1"@,
{
    "1"
}

/// A function meant to be boxed; returns the text "2".
pub fn fn_box_2() -> (r: &'static str)
    ensures
        r@ == "2"@,
{
    "2"
}

/// Runs a plain stack function value and hands its result back; the
/// caller learns exactly what the callee's own contract promises.
pub fn wrap_fn(f: impl Fn() -> i32) -> (r: i32)
    requires
        call_requires(f, ()),
    ensures
        call_ensures(f, (), r),
{
    f()
}

/// Runs a heap-allocated callable and hands its result back. A trait
/// object would hide which callable is inside; a generic box keeps the
/// callable's contract visible while still placing it on the heap.
pub fn wrap_fn_box<F: Fn() -> &'static str>(fns: Box<F>) -> (r: &'static str)
    requires
        call_requires(*fns, ()),
    ensures
        call_ensures(*fns, (), r),
{
    fns()
}

/// The whole demonstration: a function returning 1 and one returning 2
/// go through the plain wrapper, and the two boxed functions through the
/// boxed one. The results come back in call order, ready to be shown.
pub fn function_wrapper_demo() -> (r: (i32, i32, &'static str, &'static str))
    ensures
        r.0 == 1,
        r.1 == 2,
        r.2@ == "1"@,
        r.3@ == "2"@,
{
    let a = wrap_fn(fn1);
    let b = wrap_fn(fn2);
    let c = wrap_fn_box(Box::new(fn_box_1));
    let d = wrap_fn_box(Box::new(fn_box_2));
    (a, b, c, d)
}

} // verus!
