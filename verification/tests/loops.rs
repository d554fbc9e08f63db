use rust_primer::loops::{
    count_then_double, countdown_for, countdown_while, counting_up, visit_for, visit_while, Step,
    FIRST_REMAINING, LAST_COUNT, LAST_REMAINING,
};

#[test]
fn counting_to_ten_gives_twenty() {
    assert_eq!(count_then_double(10), 20);
}

#[test]
fn count_then_double_doubles_the_limit() {
    assert_eq!(count_then_double(0), 0);
    assert_eq!(count_then_double(1), 2);
    assert_eq!(count_then_double(7), 14);
    assert_eq!(count_then_double(12345), 24690);
}

#[test]
fn counting_up_ends_at_count_two() {
    assert_eq!(LAST_COUNT, 2);
    assert_eq!(FIRST_REMAINING, 10);
    assert_eq!(LAST_REMAINING, 5);
    let (steps, count) = counting_up(LAST_COUNT, FIRST_REMAINING, LAST_REMAINING);
    assert_eq!(count, 2);
    let expected = vec![
        Step::Count(0),
        Step::Remaining(10),
        Step::Remaining(9),
        Step::Remaining(8),
        Step::Remaining(7),
        Step::Remaining(6),
        Step::Remaining(5),
        Step::Count(1),
        Step::Remaining(10),
        Step::Remaining(9),
        Step::Remaining(8),
        Step::Remaining(7),
        Step::Remaining(6),
        Step::Remaining(5),
        Step::Count(2),
        Step::Remaining(10),
    ];
    assert_eq!(steps, expected);
}

#[test]
fn counting_up_that_stops_at_once() {
    let (steps, count) = counting_up(0, 3, 1);
    assert_eq!(count, 0);
    assert_eq!(steps, vec![Step::Count(0), Step::Remaining(3)]);
}

#[test]
fn counting_up_with_the_shortest_round() {
    let (steps, count) = counting_up(1, -4, -5);
    assert_eq!(count, 1);
    assert_eq!(
        steps,
        vec![
            Step::Count(0),
            Step::Remaining(-4),
            Step::Remaining(-5),
            Step::Count(1),
            Step::Remaining(-4),
        ]
    );
}

#[test]
fn counting_up_reports_every_round_in_full_but_the_last() {
    for stop in 0..6 {
        for until in 0..4 {
            for from in (until + 1)..(until + 5) {
                let (steps, count) = counting_up(stop, from, until);
                assert_eq!(count, stop);
                let mut expected: Vec<Step> = Vec::new();
                for round in 0..stop {
                    expected.push(Step::Count(round));
                    for remaining in (until..=from).rev() {
                        expected.push(Step::Remaining(remaining));
                    }
                }
                expected.push(Step::Count(stop));
                expected.push(Step::Remaining(from));
                assert_eq!(steps, expected);
                let length = stop * (from - until + 2) + 2;
                assert_eq!(steps.len() as i32, length);
            }
        }
    }
}

#[test]
fn countdown_from_five() {
    assert_eq!(countdown_while(5), vec![5, 4, 3, 2, 1]);
    assert_eq!(countdown_for(5), vec![5, 4, 3, 2, 1]);
}

#[test]
fn countdown_from_zero_is_empty() {
    assert_eq!(countdown_while(0), Vec::<i32>::new());
    assert_eq!(countdown_for(0), Vec::<i32>::new());
}

#[test]
fn both_countdowns_agree() {
    for from in 0..50 {
        let expected: Vec<i32> = (1..from + 1).rev().collect();
        assert_eq!(countdown_while(from), expected);
        assert_eq!(countdown_for(from), expected);
    }
}

#[test]
fn visiting_an_array_meets_each_element_in_order() {
    let arr: [i32; 5] = [10, 20, 30, 40, 50];
    assert_eq!(visit_while(&arr), vec![10, 20, 30, 40, 50]);
    assert_eq!(visit_for(&arr), vec![10, 20, 30, 40, 50]);
}

#[test]
fn visiting_slices_of_any_length() {
    let empty: [i32; 0] = [];
    assert_eq!(visit_while(&empty), Vec::<i32>::new());
    assert_eq!(visit_for(&empty), Vec::<i32>::new());
    let arr: [i32; 5] = [10, 20, 30, 40, 50];
    assert_eq!(visit_while(&arr[1..3]), vec![20, 30]);
    assert_eq!(visit_for(&arr[1..3]), vec![20, 30]);
    let mixed = vec![i32::MIN, -1, 0, 1, i32::MAX, 0, 0];
    assert_eq!(visit_while(&mixed), mixed);
    assert_eq!(visit_for(&mixed), mixed);
}
