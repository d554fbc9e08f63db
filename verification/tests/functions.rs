use rust_primer::functions::{get_thousand, plus_one};

#[test]
fn get_thousand_is_1000() {
    assert_eq!(get_thousand(), 1000);
}

#[test]
fn plus_one_of_a_thousand_is_1001() {
    assert_eq!(plus_one(get_thousand()), 1001);
}

#[test]
fn plus_one_adds_one() {
    assert_eq!(plus_one(0), 1);
    assert_eq!(plus_one(-1), 0);
    assert_eq!(plus_one(5), 6);
    assert_eq!(plus_one(i32::MIN), i32::MIN + 1);
    assert_eq!(plus_one(i32::MAX - 1), i32::MAX);
}
