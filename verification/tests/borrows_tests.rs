use mechanics::life;
use mechanics::practice;
use mechanics::read_and_write::{person_write, read_write_demo};

#[test]
fn life_start_reads_ten_through_the_borrow() {
    assert_eq!(life::start(), 10);
}

#[test]
fn step1_borrows_a_ten() {
    let held = life::step1();
    assert_eq!(*held.data, 10);
}

#[test]
fn practice_start_sees_three_through_both_borrows() {
    assert_eq!(practice::start(), vec![3, 3]);
}

#[test]
fn person_write_overwrites_with_one_hundred() {
    let mut value = 20;
    person_write(&mut value);
    assert_eq!(value, 100);
}

#[test]
fn read_write_demo_reads_ten_and_writes_one_hundred() {
    assert_eq!(read_write_demo(), (10, 10, 100));
}
