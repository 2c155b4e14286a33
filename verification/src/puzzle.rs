//! Which puzzle a run is for: a year and a day.

use vstd::prelude::*;
use crate::decimal::{parse_i32, parsed_i32};
use crate::error::ArgError;

verus! {

/// Whether `year` is a year that has puzzles.
pub open spec fn valid_year(year: int) -> bool {
    2000 <= year <= 3000
}

/// Whether `day` is a day that has a puzzle.
pub open spec fn valid_day(day: int) -> bool {
    1 <= day <= 25
}

/// A year and a day as plain values.
pub struct PuzzleView {
    pub year: nat,
    pub day: nat,
}

impl PuzzleView {
    /// Whether the year and the day name a puzzle.
    pub open spec fn valid(self) -> bool {
        valid_year(self.year as int) && valid_day(self.day as int)
    }
}

/// A year and a day that name a puzzle. There is no puzzle value for a year
/// or a day out of range.
#[derive(Clone, Copy, Debug, PartialEq, Eq)]
pub struct Puzzle {
    year: u32,
    day: u32,
}

impl View for Puzzle {
    type V = PuzzleView;

    closed spec fn view(&self) -> PuzzleView {
        PuzzleView { year: self.year as nat, day: self.day as nat }
    }
}

impl Puzzle {
    #[verifier::type_invariant]
    spec fn holds(self) -> bool {
        self@.valid()
    }

    /// The year of the puzzle.
    pub fn year(&self) -> (year: u32)
        ensures
            year == self@.year,
            self@.valid(),
    {
        proof {
            use_type_invariant(self);
        }
        self.year
    }

    /// The day of the puzzle.
    pub fn day(&self) -> (day: u32)
        ensures
            day == self@.day,
            self@.valid(),
    {
        proof {
            use_type_invariant(self);
        }
        self.day
    }
}

/// The puzzle that two words name. Both must be written as integers; then
/// the year must be one that has puzzles, and then the day. The first of
/// these that fails is the error.
pub open spec fn validated(year: Seq<char>, day: Seq<char>) -> Result<PuzzleView, ArgError> {
    match parsed_i32(year) {
        None => Err(ArgError::YearNotANumber),
        Some(y) => match parsed_i32(day) {
            None => Err(ArgError::DayNotANumber),
            Some(d) => if !valid_year(y as int) {
                Err(ArgError::InvalidYear)
            } else if !valid_day(d as int) {
                Err(ArgError::InvalidDay)
            } else {
                Ok(PuzzleView { year: y as nat, day: d as nat })
            },
        },
    }
}

/// A puzzle, or why there is none, as plain values.
pub open spec fn validation_view(r: Result<Puzzle, ArgError>) -> Result<PuzzleView, ArgError> {
    match r {
        Ok(puzzle) => Ok(puzzle@),
        Err(e) => Err(e),
    }
}

/// Reads the year and the day of a puzzle from two words of the command
/// line.
pub fn validate(year: &str, day: &str) -> (r: Result<Puzzle, ArgError>)
    ensures
        validation_view(r) == validated(year@, day@),
{
    let y: i32 = match parse_i32(year) {
        Some(y) => y,
        None => {
            return Err(ArgError::YearNotANumber);
        },
    };
    let d: i32 = match parse_i32(day) {
        Some(d) => d,
        None => {
            return Err(ArgError::DayNotANumber);
        },
    };
    if y < 2000 || y > 3000 {
        return Err(ArgError::InvalidYear);
    }
    if d < 1 || d > 25 {
        return Err(ArgError::InvalidDay);
    }
    Ok(Puzzle { year: y as u32, day: d as u32 })
}

/// A year outside 2000 to 3000, or a day outside 1 to 25, names no puzzle.
pub proof fn lemma_out_of_range_is_invalid(year: Seq<char>, day: Seq<char>)
    requires
        (parsed_i32(year) matches Some(y) && !valid_year(y as int)) || (parsed_i32(
            day,
        ) matches Some(d) && !valid_day(d as int)),
    ensures
        !(validated(year, day) is Ok),
{
}

/// Whatever is read as a puzzle is one.
pub proof fn lemma_validated_is_valid(year: Seq<char>, day: Seq<char>)
    ensures
        validated(year, day) matches Ok(puzzle) ==> puzzle.valid(),
{
}

} // verus!
