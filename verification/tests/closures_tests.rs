use mechanics::closures::{fn1, fn2, fn_box_1, fn_box_2, function_wrapper_demo, wrap_fn, wrap_fn_box};

#[test]
fn wrap_fn_returns_callee_value() {
    assert_eq!(wrap_fn(fn1), 1);
    assert_eq!(wrap_fn(fn2), 2);
}

#[test]
fn wrap_fn_box_returns_boxed_value() {
    assert_eq!(wrap_fn_box(Box::new(fn_box_1)), "1");
    assert_eq!(wrap_fn_box(Box::new(fn_box_2)), "2");
}

#[test]
fn wrapper_demo_reports_values_in_call_order() {
    let (a, b, c, d) = function_wrapper_demo();
    assert_eq!(a, 1);
    assert_eq!(b, 2);
    assert_eq!(c, "1");
    assert_eq!(d, "2");
}

#[test]
fn wrap_fn_takes_a_closure_too() {
    let seven = || 7;
    assert_eq!(wrap_fn(seven), 7);
}
