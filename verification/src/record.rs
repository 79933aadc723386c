//! The record that the subsystem produces and caches: one day's puzzle data.

use vstd::prelude::*;

verus! {

/// Data for a day's puzzle.
#[derive(Debug)]
pub struct Day {
    /// The puzzle's input, which is generated uniquely for each user.
    pub input: String,

    /// The description for part one of the puzzle.
    pub description_1: String,

    /// Description for part two of the puzzle. It is `None` while part one
    /// has not been completed yet.
    pub description_2: Option<String>,
}

/// The mathematical value of a [`Day`]: its three fields as character
/// sequences.
#[verifier::ext_equal]
pub struct DayView {
    /// View of [`Day::input`].
    pub input: Seq<char>,
    /// View of [`Day::description_1`].
    pub description_1: Seq<char>,
    /// View of [`Day::description_2`].
    pub description_2: Option<Seq<char>>,
}

impl View for Day {
    type V = DayView;

    open spec fn view(&self) -> DayView {
        DayView {
            input: self.input@,
            description_1: self.description_1@,
            description_2: match self.description_2 {
                Some(d) => Some(d@),
                None => None,
            },
        }
    }
}

} // verus!
