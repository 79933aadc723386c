//! Declaring solutions of puzzles, and running them.
//!
//! A solution type implements [`Part`] for each part of each day it solves;
//! [`Day`] is implemented automatically for any type that solves both parts
//! of a day. What a solution computes is its own business -- the framework
//! only runs it -- so the trait carries no contract; the day-selection
//! logic below does.

use vstd::prelude::*;

verus! {

/// A solution of a part of a puzzle.
///
/// It takes the input as a string slice and returns the answer as a string.
pub trait Part<const PART: u8, const DAY: u8> {
    /// Solves the puzzle for that part.
    fn solve(input: &str) -> String;
}

/// Solution for both parts of a day.
///
/// It is auto-implemented for any type that implements [`Part`] for both
/// parts of a day.
pub trait Day<const DAY: u8>: Part<1, DAY> + Part<2, DAY> {
    /// Solves part 1 of the day.
    fn part1(input: &str) -> String;

    /// Solves part 2 of the day.
    fn part2(input: &str) -> String;
}

impl<T, const DAY: u8> Day<DAY> for T where T: Part<1, DAY> + Part<2, DAY> {
    fn part1(input: &str) -> String {
        <T as Part<1, DAY>>::solve(input)
    }

    fn part2(input: &str) -> String {
        <T as Part<2, DAY>>::solve(input)
    }
}

/// Run the solution of a given part for the given day.
///
/// See also [`run_day`] to run the entire day.
pub fn run_day_part<Solutions: Part<PART, DAY>, const DAY: u8, const PART: u8>(
    input: &str,
) -> String {
    Solutions::solve(input)
}

/// Run the solution of both parts for a given day.
///
/// See also [`run_day_part`] to run an individual part.
pub fn run_day<Solutions: Day<DAY>, const DAY: u8>(input: &str) -> [String; 2] {
    let part1 = run_day_part::<Solutions, DAY, 1>(input);
    let part2 = run_day_part::<Solutions, DAY, 2>(input);
    [part1, part2]
}

/// Run a day dynamically (with the day itself specified at runtime).
///
/// Assumes there is a solution for every day of the puzzle calendar.
pub fn run<
    Solutions: Day<1>
        + Day<2>
        + Day<3>
        + Day<4>
        + Day<5>
        + Day<6>
        + Day<7>
        + Day<8>
        + Day<9>
        + Day<10>
        + Day<11>
        + Day<12>
        + Day<13>
        + Day<14>
        + Day<15>
        + Day<16>
        + Day<17>
        + Day<18>
        + Day<19>
        + Day<20>
        + Day<21>
        + Day<22>
        + Day<23>
        + Day<24>
        + Day<25>,
>(input: &str, day: u8) -> [String; 2]
    requires
        1 <= day <= 25,
{
    match day {
        1 => run_day::<Solutions, 1>(input),
        2 => run_day::<Solutions, 2>(input),
        3 => run_day::<Solutions, 3>(input),
        4 => run_day::<Solutions, 4>(input),
        5 => run_day::<Solutions, 5>(input),
        6 => run_day::<Solutions, 6>(input),
        7 => run_day::<Solutions, 7>(input),
        8 => run_day::<Solutions, 8>(input),
        9 => run_day::<Solutions, 9>(input),
        10 => run_day::<Solutions, 10>(input),
        11 => run_day::<Solutions, 11>(input),
        12 => run_day::<Solutions, 12>(input),
        13 => run_day::<Solutions, 13>(input),
        14 => run_day::<Solutions, 14>(input),
        15 => run_day::<Solutions, 15>(input),
        16 => run_day::<Solutions, 16>(input),
        17 => run_day::<Solutions, 17>(input),
        18 => run_day::<Solutions, 18>(input),
        19 => run_day::<Solutions, 19>(input),
        20 => run_day::<Solutions, 20>(input),
        21 => run_day::<Solutions, 21>(input),
        22 => run_day::<Solutions, 22>(input),
        23 => run_day::<Solutions, 23>(input),
        24 => run_day::<Solutions, 24>(input),
        _ => run_day::<Solutions, 25>(input),
    }
}

/// Picks the day to run: with exactly one runnable day, that day, whatever
/// was asked; otherwise the requested day exactly when it is runnable.
pub open spec fn spec_select_day(available: Seq<u8>, requested: Option<u8>) -> Option<u8> {
    if available.len() == 1 {
        Some(available[0])
    } else {
        match requested {
            Some(d) => if available.contains(d) {
                Some(d)
            } else {
                None
            },
            None => None,
        }
    }
}

/// Picks the day to run from the runnable days and the request.
pub fn select_day(available: &Vec<u8>, requested: Option<u8>) -> (r: Option<u8>)
    ensures
        r == spec_select_day(available@, requested),
{
    if available.len() == 1 {
        return Some(available[0]);
    }
    match requested {
        Some(d) => {
            let mut i: usize = 0;
            while i < available.len()
                invariant
                    0 <= i <= available@.len(),
                    available@.len() != 1,
                    requested == Some(d),
                    forall|k: int| 0 <= k < i ==> available@[k] != d,
                decreases available@.len() - i,
            {
                if available[i] == d {
                    assert(available@.contains(d)) by {
                        assert(available@[i as int] == d);
                    }
                    return Some(d);
                }
                i = i + 1;
            }
            assert(!available@.contains(d));
            None
        },
        None => None,
    }
}

} // verus!
