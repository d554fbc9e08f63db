use rust_primer::variables::{shadowing, Shadowed, RAISE, SECONDS_IN_HOUR};

#[test]
fn an_hour_has_3600_seconds() {
    assert_eq!(SECONDS_IN_HOUR, 3600);
}

#[test]
fn shadowing_55_shows_61_then_122_then_61() {
    assert_eq!(RAISE, 6);
    let seen = shadowing(55);
    assert_eq!(seen.outer, 61);
    assert_eq!(seen.inner, 122);
    assert_eq!(seen.after, 61);
}

#[test]
fn shadowing_brings_the_first_shadow_back() {
    for value in [-1000, -7, -6, -1, 0, 1, 55, 1000] {
        let seen = shadowing(value);
        assert_eq!(
            seen,
            Shadowed { outer: value + 6, inner: 2 * (value + 6), after: value + 6 }
        );
    }
}

#[test]
fn shadowing_at_the_ends_of_its_range() {
    let high = i32::MAX / 2 - 6;
    assert_eq!(shadowing(high).inner, i32::MAX - 1);
    let low = i32::MIN / 2 - 6;
    assert_eq!(shadowing(low).inner, i32::MIN);
    assert_eq!(shadowing(low).after, i32::MIN / 2);
}
