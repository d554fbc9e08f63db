use rust_primer::control_flow::{choose_number, divisibility, is_small, Divisor, SMALL_BOUND};

#[test]
fn three_is_small() {
    assert!(is_small(3));
}

#[test]
fn is_small_means_below_five() {
    assert_eq!(SMALL_BOUND, 5);
    assert!(is_small(4));
    assert!(!is_small(5));
    assert!(!is_small(6));
    assert!(is_small(0));
    assert!(is_small(-5));
    assert!(is_small(i32::MIN));
    assert!(!is_small(i32::MAX));
}

#[test]
fn six_is_divisible_by_three() {
    assert_eq!(divisibility(6), Divisor::Three);
}

#[test]
fn divisibility_names_the_first_divisor_that_fits() {
    assert_eq!(divisibility(0), Divisor::Four);
    assert_eq!(divisibility(4), Divisor::Four);
    assert_eq!(divisibility(8), Divisor::Four);
    assert_eq!(divisibility(12), Divisor::Four);
    assert_eq!(divisibility(3), Divisor::Three);
    assert_eq!(divisibility(9), Divisor::Three);
    assert_eq!(divisibility(18), Divisor::Three);
    assert_eq!(divisibility(2), Divisor::Two);
    assert_eq!(divisibility(10), Divisor::Two);
    assert_eq!(divisibility(14), Divisor::Two);
    assert_eq!(divisibility(1), Divisor::Neither);
    assert_eq!(divisibility(5), Divisor::Neither);
    assert_eq!(divisibility(7), Divisor::Neither);
    assert_eq!(divisibility(11), Divisor::Neither);
}

#[test]
fn divisibility_of_negative_numbers() {
    assert_eq!(divisibility(-4), Divisor::Four);
    assert_eq!(divisibility(-6), Divisor::Three);
    assert_eq!(divisibility(-3), Divisor::Three);
    assert_eq!(divisibility(-2), Divisor::Two);
    assert_eq!(divisibility(-1), Divisor::Neither);
    assert_eq!(divisibility(-7), Divisor::Neither);
    assert_eq!(divisibility(i32::MIN), Divisor::Four);
    assert_eq!(divisibility(i32::MAX), Divisor::Neither);
    assert_eq!(divisibility(i32::MAX - 1), Divisor::Three);
}

#[test]
fn divisibility_agrees_with_the_remainders() {
    for number in -1000..1000 {
        let expected = if number % 4 == 0 {
            Divisor::Four
        } else if number % 3 == 0 {
            Divisor::Three
        } else if number % 2 == 0 {
            Divisor::Two
        } else {
            Divisor::Neither
        };
        assert_eq!(divisibility(number), expected, "{}", number);
    }
}

#[test]
fn choose_number_gives_five_or_six() {
    assert_eq!(choose_number(true), 5);
    assert_eq!(choose_number(false), 6);
}
