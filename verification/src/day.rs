//! The day that every new day starts from: it parses its input into lines,
//! and has no solution yet.

use crate::aocday::{AoCDay, DayPart};
use crate::error_handling::DayError;
use crate::parsing::{content_lines, from_lines_with};
use crate::text::views;
use vstd::prelude::*;
use vstd::string::*;

verus! {

/// A day without a solution.
#[derive(Debug, Clone, Copy)]
pub struct Day {
    /// The day's number.
    pub number: u8,
}

impl AoCDay for Day {
    type Data<'i> = Vec<String>;

    type Answer = usize;

    open spec fn numbered(&self, n: u8) -> bool {
        n == self.number
    }

    /// The data are the lines of the input that have content, trimmed.
    open spec fn parsed(&self, input: Seq<char>, data: Vec<String>) -> bool {
        Seq::new(data@.len(), |i: int| data@[i]@) == content_lines(input)
    }

    /// Every input is parsed.
    open spec fn refuses(&self, input: Seq<char>, error: DayError) -> bool {
        false
    }

    /// Neither part has a solution.
    open spec fn answers(
        &self,
        part: DayPart,
        input: Seq<char>,
        outcome: Result<usize, DayError>,
    ) -> bool {
        outcome == Err::<usize, DayError>(DayError::Unimplemented)
    }

    fn day(&self) -> (n: u8) {
        self.number
    }

    fn parse<'i>(&self, input: &'i str) -> (r: Result<Vec<String>, DayError>) {
        let owned = |line: &str| -> (s: String)
            ensures
                s@ == line@,
            { String::from_str(line) };
        let lines = from_lines_with(input, owned);
        proof {
            let given = choose|given: Seq<&str>|
                {
                    &&& #[trigger] views(given) == content_lines(input@)
                    &&& lines@.len() == given.len()
                    &&& forall|i: int|
                        0 <= i < given.len() ==> call_ensures(owned, (given[i],), #[trigger] lines@[i])
                };
            assert forall|i: int| 0 <= i < lines@.len() implies lines@[i]@ == content_lines(
                input@,
            )[i] by {
                assert(call_ensures(owned, (given[i],), lines@[i]));
                assert(views(given)[i] == given[i]@);
            }
            assert(Seq::new(lines@.len(), |i: int| lines@[i]@) =~= content_lines(input@));
        }
        Ok(lines)
    }

    fn part1(&self, data: &mut Vec<String>) -> (r: Result<usize, DayError>) {
        Err(DayError::Unimplemented)
    }

    fn part2(&self, data: &mut Vec<String>) -> (r: Result<usize, DayError>) {
        Err(DayError::Unimplemented)
    }
}

} // verus!
