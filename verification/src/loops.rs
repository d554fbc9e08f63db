//! Loops: counting up to a limit, counting with a labelled outer loop,
//! counting down, and walking over the elements of a slice.
//!
//! Each function returns what its loop went through, in order, so that a
//! caller can show it.

use vstd::prelude::*;

verus! {

/// The count at which the labelled loop stops.
pub const LAST_COUNT: i32 = 2;

/// The number from which each round of the labelled loop counts down.
pub const FIRST_REMAINING: i32 = 10;

/// The number at which a round of the labelled loop ends.
pub const LAST_REMAINING: i32 = 5;

/// One thing that the labelled loop reports.
#[derive(Clone, Copy, Debug, PartialEq, Eq, Structural)]
pub enum Step {
    /// A round starts with this count.
    Count(i32),
    /// Within a round, this much remains.
    Remaining(i32),
}

/// The numbers from `from` down to `until`, each as what remains.
pub open spec fn remaining_steps(from: int, until: int) -> Seq<Step> {
    Seq::new((from - until + 1) as nat, |i: int| Step::Remaining((from - i) as i32))
}

/// One full round: its count, then what remains from `from` down to `until`.
pub open spec fn round_steps(count: int, from: int, until: int) -> Seq<Step> {
    seq![Step::Count(count as i32)] + remaining_steps(from, until)
}

/// The full rounds with the counts from 0 up to, and without, `rounds`.
pub open spec fn full_rounds(rounds: int, from: int, until: int) -> Seq<Step>
    decreases rounds,
{
    if rounds <= 0 {
        Seq::empty()
    } else {
        full_rounds(rounds - 1, from, until) + round_steps(rounds - 1, from, until)
    }
}

/// Everything that the labelled loop reports: a full round for each count
/// below `stop`, then the round of `stop`, which is left as soon as it has
/// reported `from`.
pub open spec fn counting_up_steps(stop: int, from: int, until: int) -> Seq<Step> {
    full_rounds(stop, from, until) + seq![Step::Count(stop as i32), Step::Remaining(from as i32)]
}

/// The numbers from `from` down to 1.
pub open spec fn countdown_of(from: nat) -> Seq<i32> {
    Seq::new(from, |i: int| (from - i) as i32)
}

/// Counts from zero up to `limit` and returns twice the count at which the
/// loop was left.
pub fn count_then_double(limit: i32) -> (result: i32)
    requires
        0 <= limit,
        2 * limit <= i32::MAX,
    ensures
        result == 2 * limit,
{
    let mut counter: i32 = 0;
    let mut result: i32 = 0;
    loop
        invariant
            0 <= counter <= limit,
            2 * limit <= i32::MAX,
        ensures
            result == 2 * limit,
        decreases limit - counter,
    {
        if counter == limit {
            result = counter * 2;
            break;
        }
        counter += 1;
    }
    result
}

/// Counts up in rounds. Each round reports its count and then counts down
/// from `from`, reporting what remains; it ends when `until` remains. The
/// round whose count is `stop` leaves both loops at once, right after it has
/// reported `from`. Returns the reports and the count at the end.
pub fn counting_up(stop: i32, from: i32, until: i32) -> (end: (Vec<Step>, i32))
    requires
        0 <= stop,
        until < from,
    ensures
        end.0@ == counting_up_steps(stop as int, from as int, until as int),
        end.1 == stop,
{
    let mut steps: Vec<Step> = Vec::new();
    let mut count: i32 = 0;
    'counting_up: loop
        invariant_except_break
            steps@ == full_rounds(count as int, from as int, until as int),
        invariant
            0 <= count <= stop,
            until < from,
        ensures
            count == stop,
            steps@ == counting_up_steps(stop as int, from as int, until as int),
        decreases stop - count,
    {
        let ghost before = steps@;
        steps.push(Step::Count(count));
        let mut remaining: i32 = from;
        loop
            invariant_except_break
                until <= remaining <= from,
                count == stop ==> remaining == from,
                steps@ == before + seq![Step::Count(count)] + remaining_steps(
                    from as int,
                    remaining + 1,
                ),
            invariant
                0 <= count <= stop,
                until < from,
                before == full_rounds(count as int, from as int, until as int),
            ensures
                count < stop,
                steps@ == before + round_steps(count as int, from as int, until as int),
            decreases remaining - until,
        {
            steps.push(Step::Remaining(remaining));
            assert(steps@ =~= before + seq![Step::Count(count)] + remaining_steps(
                from as int,
                remaining as int,
            ));
            if remaining == until {
                assert(steps@ =~= before + round_steps(count as int, from as int, until as int));
                break;
            }
            if count == stop {
                assert(steps@ =~= counting_up_steps(stop as int, from as int, until as int));
                break 'counting_up;
            }
            remaining -= 1;
        }
        count += 1;
    }
    (steps, count)
}

/// Counts down from `from` with a `while` loop, and returns the numbers it
/// went through: `from`, then one less each time, down to 1.
pub fn countdown_while(from: i32) -> (numbers: Vec<i32>)
    requires
        0 <= from,
    ensures
        numbers@ == countdown_of(from as nat),
{
    let mut numbers: Vec<i32> = Vec::new();
    let mut number: i32 = from;
    while number != 0
        invariant
            0 <= number <= from,
            numbers@ == Seq::new((from - number) as nat, |i: int| (from - i) as i32),
        decreases number,
    {
        numbers.push(number);
        number -= 1;
        assert(numbers@ =~= Seq::new((from - number) as nat, |i: int| (from - i) as i32));
    }
    assert(numbers@ =~= countdown_of(from as nat));
    numbers
}

/// Counts down from `from` with a `for` loop over a reversed range, and
/// returns the numbers it went through: the same as [`countdown_while`].
///
/// The range ends at `from + 1`, which `i32::MAX` does not have.
pub fn countdown_for(from: i32) -> (numbers: Vec<i32>)
    requires
        0 <= from < i32::MAX,
    ensures
        numbers@ == countdown_of(from as nat),
{
    let mut numbers: Vec<i32> = Vec::new();
    for num in it: (1..from + 1).rev()
        invariant
            numbers@.len() == it.index(),
            it.seq().len() == from,
            forall|k: int| 0 <= k < it.seq().len() ==> it.seq()[k] == from - k,
            forall|k: int| 0 <= k < numbers@.len() ==> numbers@[k] == it.seq()[k],
    {
        numbers.push(num);
    }
    assert(numbers@ =~= countdown_of(from as nat));
    numbers
}

/// Walks over `values` with a `while` loop and an index, and returns the
/// elements in the order in which it met them.
pub fn visit_while(values: &[i32]) -> (seen: Vec<i32>)
    ensures
        seen@ == values@,
{
    let mut seen: Vec<i32> = Vec::new();
    let mut index: usize = 0;
    while index < values.len()
        invariant
            index <= values.len(),
            seen@ == values@.take(index as int),
        decreases values.len() - index,
    {
        seen.push(values[index]);
        index += 1;
        assert(seen@ =~= values@.take(index as int));
    }
    assert(values@.take(index as int) =~= values@);
    seen
}

/// Walks over `values` with a `for` loop, and returns the elements in the
/// order in which it met them.
pub fn visit_for(values: &[i32]) -> (seen: Vec<i32>)
    ensures
        seen@ == values@,
{
    let mut seen: Vec<i32> = Vec::new();
    for el in it: values.iter()
        invariant
            it.seq().len() == values@.len(),
            seen@.len() == it.index(),
            forall|k: int| 0 <= k < values@.len() ==> *it.seq()[k] == values@[k],
            forall|k: int| 0 <= k < seen@.len() ==> seen@[k] == values@[k],
    {
        seen.push(*el);
    }
    assert(seen@ =~= values@);
    seen
}

} // verus!
