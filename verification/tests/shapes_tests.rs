use mechanics::shapes::{area_pair_static, static_dispatch_pair, Point, Rectangle, Shape};

fn rect(tlx: i64, tly: i64, brx: i64, bry: i64) -> Rectangle<i64> {
    Rectangle {
        top_left: Point { x: tlx, y: tly },
        bottom_right: Point { x: brx, y: bry },
    }
}

#[test]
fn rectangle_with_corners_0_0_and_4_3_has_area_twelve() {
    // Corners (0,0) and (4,3): top-left (0,3), bottom-right (4,0).
    let a = rect(0, 3, 4, 0);
    assert_eq!(a.area(), 12);
}

#[test]
fn static_and_generic_paths_agree() {
    let a = rect(0, 3, 4, 0);
    let b = rect(0, 3, 4, 0);
    let via_generic = area_pair_static(rect(0, 3, 4, 0), rect(0, 3, 4, 0));
    let via_concrete = static_dispatch_pair(a, b);
    assert_eq!(via_generic, (12, 12));
    assert_eq!(via_concrete, (12, 12));
    assert_eq!(via_generic, via_concrete);
}

#[test]
fn dynamic_path_agrees_with_static_path() {
    let a = rect(0, 3, 4, 0);
    let b = rect(0, 3, 4, 0);
    let via_static = static_dispatch_pair(rect(0, 3, 4, 0), rect(0, 3, 4, 0));
    let dyn_a: &dyn Shape<T = i64> = &a;
    let dyn_b: &dyn Shape<T = i64> = &b;
    let via_dynamic = (dyn_a.area(), dyn_b.area());
    assert_eq!(via_dynamic, (12, 12));
    assert_eq!(via_static, via_dynamic);
}

#[test]
fn pair_of_distinct_rectangles() {
    let r = static_dispatch_pair(rect(0, 3, 4, 0), rect(-1, 2, 5, -2));
    assert_eq!(r, (12, 24));
}

#[test]
fn inverted_corners_give_negative_area() {
    // Handing the corners the other way round flips the area's sign.
    let a = rect(0, 0, 4, 3);
    assert_eq!(a.area(), -12);
}

#[test]
fn degenerate_rectangle_has_zero_area() {
    let a = rect(2, 5, 2, 1);
    assert_eq!(a.area(), 0);
}
