//! Static against dynamic dispatch over a shape trait: a generic
//! rectangle implements `Shape`, a pair of areas is computed through
//! compile-time dispatch, and a lemma shows that every route that ends
//! in the same `area` method must report the same area.

use vstd::prelude::*;

verus! {

/// Something with a measurable area. `wf` bounds the shape's numbers so
/// that `area` cannot overflow, and `spec_area` pins down exactly what
/// `area` must return.
pub trait Shape {
    type T;

    /// The shape's numbers are small enough for its area to be computed.
    spec fn wf(&self) -> bool;

    /// The area the shape is required to report.
    spec fn spec_area(&self) -> Self::T;

    /// Reports the shape's area.
    fn area(&self) -> (r: Self::T)
        requires
            self.wf(),
        ensures
            r == self.spec_area(),
    ;
}

/// A corner of a rectangle.
pub struct Point<T> {
    pub x: T,
    pub y: T,
}

/// A rectangle given by its top-left and bottom-right corners. The
/// coordinate type must support subtraction and multiplication; the
/// integer instantiation below is the one whose arithmetic is checked.
pub struct Rectangle<T> {
    pub top_left: Point<T>,
    pub bottom_right: Point<T>,
}

/// Largest coordinate magnitude for which a rectangle's area is known
/// to fit in an `i64`.
pub const COORD_LIMIT: i64 = 1_000_000_000;

impl Shape for Rectangle<i64> {
    type T = i64;

    open spec fn wf(&self) -> bool {
        &&& -COORD_LIMIT <= self.top_left.x <= COORD_LIMIT
        &&& -COORD_LIMIT <= self.top_left.y <= COORD_LIMIT
        &&& -COORD_LIMIT <= self.bottom_right.x <= COORD_LIMIT
        &&& -COORD_LIMIT <= self.bottom_right.y <= COORD_LIMIT
    }

    open spec fn spec_area(&self) -> i64 {
        ((self.bottom_right.x - self.top_left.x) * (self.top_left.y
            - self.bottom_right.y)) as i64
    }

    fn area(&self) -> (r: i64) {
        let w = self.bottom_right.x - self.top_left.x;
        let h = self.top_left.y - self.bottom_right.y;
        proof {
            assert(-4_000_000_000_000_000_000 <= h * w <= 4_000_000_000_000_000_000)
                by (nonlinear_arith)
                requires
                    -2_000_000_000 <= w <= 2_000_000_000,
                    -2_000_000_000 <= h <= 2_000_000_000,
            ;
        }
        h * w
    }
}

/// The areas of two shapes, resolved by compile-time dispatch: code is
/// generated anew for each pair of concrete shape types.
pub fn area_pair_static<A: Shape<T = i64>, B: Shape<T = i64>>(a: A, b: B) -> (r: (i64, i64))
    requires
        a.wf(),
        b.wf(),
    ensures
        r.0 == a.spec_area(),
        r.1 == b.spec_area(),
{
    (a.area(), b.area())
}

/// Fixes the shapes to concrete rectangles, so the call underneath is
/// resolved entirely at compile time.
pub fn static_dispatch_pair(a: Rectangle<i64>, b: Rectangle<i64>) -> (r: (i64, i64))
    requires
        a.wf(),
        b.wf(),
    ensures
        r.0 == a.spec_area(),
        r.1 == b.spec_area(),
{
    area_pair_static(a, b)
}

/// Any two calls of `area` on the same valid rectangle return the same
/// value, namely the rectangle's width times its height. The statically
/// dispatched pair and a call routed through a dispatch table both end
/// in this one method, so the two routes must agree.
pub proof fn lemma_dispatch_paths_agree(a: Rectangle<i64>, r_first: i64, r_second: i64)
    requires
        a.wf(),
        call_ensures(Rectangle::<i64>::area, (&a,), r_first),
        call_ensures(Rectangle::<i64>::area, (&a,), r_second),
    ensures
        r_first == r_second,
        r_first == a.spec_area(),
{
}

} // verus!
