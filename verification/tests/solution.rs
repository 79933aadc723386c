//! Declaring and running solutions.

use elvish::solution::{run, run_day, run_day_part, select_day, Part};

struct Solutions;

impl Part<1, 1> for Solutions {
    fn solve(input: &str) -> String {
        format!("len {}", input.len())
    }
}

impl Part<2, 1> for Solutions {
    fn solve(input: &str) -> String {
        format!("rev {}", input.chars().rev().collect::<String>())
    }
}

#[test]
fn run_one_part() {
    assert_eq!(run_day_part::<Solutions, 1, 1>("abc"), "len 3");
    assert_eq!(run_day_part::<Solutions, 1, 2>("abc"), "rev cba");
}

#[test]
fn run_both_parts_of_a_day() {
    let [part1, part2] = run_day::<Solutions, 1>("abcd");
    assert_eq!(part1, "len 4");
    assert_eq!(part2, "rev dcba");
}

struct Full;

impl<const PART: u8, const DAY: u8> Part<PART, DAY> for Full {
    fn solve(input: &str) -> String {
        format!("day {} part {} on {}", DAY, PART, input)
    }
}

#[test]
fn run_dispatches_on_the_day() {
    let [part1, part2] = run::<Full>("x", 17);
    assert_eq!(part1, "day 17 part 1 on x");
    assert_eq!(part2, "day 17 part 2 on x");
    let [part1, _] = run::<Full>("y", 1);
    assert_eq!(part1, "day 1 part 1 on y");
    let [_, part2] = run::<Full>("z", 25);
    assert_eq!(part2, "day 25 part 2 on z");
}

#[test]
fn single_runnable_day_wins_over_the_request() {
    let available = vec![17u8];
    assert_eq!(select_day(&available, Some(3)), Some(17));
    assert_eq!(select_day(&available, None), Some(17));
}

#[test]
fn requested_day_must_be_runnable() {
    let available = vec![1u8, 2, 3];
    assert_eq!(select_day(&available, Some(2)), Some(2));
    assert_eq!(select_day(&available, Some(9)), None);
}

#[test]
fn no_request_among_many_days_selects_nothing() {
    let available = vec![1u8, 2, 3];
    assert_eq!(select_day(&available, None), None);
}
