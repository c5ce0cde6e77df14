//! What a day's solution offers, so that every day can be run and tested alike.

use crate::error_handling::DayError;
use crate::text::decimal;
use vstd::prelude::*;
use vstd::string::*;

verus! {

/// One of the two answers a puzzle day asks for.
#[derive(Debug, Clone, Copy, PartialEq, Eq, Structural, PartialOrd, Ord)]
pub enum DayPart {
    Part1,
    Part2,
}

impl DayPart {
    /// The part's number: 1 or 2.
    pub open spec fn number(self) -> nat {
        match self {
            DayPart::Part1 => 1,
            DayPart::Part2 => 2,
        }
    }

    /// The part's name: `Part 1` or `Part 2`.
    pub open spec fn name(self) -> Seq<char> {
        "Part "@ + decimal(self.number())
    }

    /// The part's name.
    pub fn label(self) -> (text: String)
        ensures
            text@ == self.name(),
    {
        proof {
            reveal_strlit("Part ");
            reveal_strlit("Part 1");
            reveal_strlit("Part 2");
            assert("Part 1"@ =~= "Part "@ + decimal(1));
            assert("Part 2"@ =~= "Part "@ + decimal(2));
        }
        match self {
            DayPart::Part1 => String::from_str("Part 1"),
            DayPart::Part2 => String::from_str("Part 2"),
        }
    }
}

/// A day's solution: it parses the puzzle input, and solves each of the two
/// parts on what it parsed.
///
/// An implementation may say what it computes through `parsed`, `refuses`
/// and `answers`. A part may fill caches in the parsed data, but its answer
/// depends on the input alone: whichever part ran before, the data still
/// stands for the same input, and the answer is one that `answers` allows
/// for that input. One that says nothing allows everything.
pub trait AoCDay: core::fmt::Debug + Sized + Clone + Copy {
    type Data<'i>: core::fmt::Debug;

    type Answer: core::fmt::Debug + core::fmt::Display + PartialEq + Eq;

    /// Whether `n` can be the day's number.
    open spec fn numbered(&self, n: u8) -> bool {
        true
    }

    /// Whether `data` stands for `input`: what `parse` made of it, in any
    /// state of its caches.
    open spec fn parsed(&self, input: Seq<char>, data: Self::Data<'_>) -> bool {
        true
    }

    /// Whether `parse` may refuse `input` with `error`.
    open spec fn refuses(&self, input: Seq<char>, error: DayError) -> bool {
        true
    }

    /// Whether `outcome` may come of solving `part` for `input`.
    open spec fn answers(
        &self,
        part: DayPart,
        input: Seq<char>,
        outcome: Result<Self::Answer, DayError>,
    ) -> bool {
        true
    }

    /// The day's number.
    fn day(&self) -> (n: u8)
        ensures
            self.numbered(n),
    ;

    /// Parses the raw input into a useable format.
    fn parse<'i>(&self, input: &'i str) -> (r: Result<Self::Data<'i>, DayError>)
        ensures
            match r {
                Ok(data) => self.parsed(input@, data),
                Err(error) => self.refuses(input@, error),
            },
    ;

    /// Part 1 implementation.
    fn part1(&self, data: &mut Self::Data<'_>) -> (r: Result<Self::Answer, DayError>)
        ensures
            forall|input: Seq<char>| #[trigger]
                self.parsed(input, *old(data)) ==> self.parsed(input, *final(data))
                    && self.answers(DayPart::Part1, input, r),
    ;

    /// Part 2 implementation.
    ///
    /// If the result of part 1 is needed for part 2, then it is recomputed, or
    /// stored in the data.
    fn part2(&self, data: &mut Self::Data<'_>) -> (r: Result<Self::Answer, DayError>)
        ensures
            forall|input: Seq<char>| #[trigger]
                self.parsed(input, *old(data)) ==> self.parsed(input, *final(data))
                    && self.answers(DayPart::Part2, input, r),
    ;
}

/// Solves `part` of `day` on `data`.
pub fn solve<D: AoCDay>(day: &D, part: DayPart, data: &mut D::Data<'_>) -> (r: Result<
    D::Answer,
    DayError,
>)
    ensures
        forall|input: Seq<char>| #[trigger]
            day.parsed(input, *old(data)) ==> day.parsed(input, *final(data)) && day.answers(
                part,
                input,
                r,
            ),
{
    match part {
        DayPart::Part1 => day.part1(data),
        DayPart::Part2 => day.part2(data),
    }
}

/// Whether `day` allows one outcome at most for `part` of `input`.
pub open spec fn determined<D: AoCDay>(day: D, part: DayPart, input: Seq<char>) -> bool {
    forall|a: Result<D::Answer, DayError>, b: Result<D::Answer, DayError>|
        #![trigger day.answers(part, input, a), day.answers(part, input, b)]
        day.answers(part, input, a) && day.answers(part, input, b) ==> a == b
}

/// Solves part two of `day` for `input` both ways: on data on which part one
/// ran before, and on data that was parsed anew. Both outcomes are among
/// those the day allows for `input`, so where it allows one only, they are
/// the same: part two does not depend on part one.
pub fn part_two_both_ways<D: AoCDay>(day: D, input: &str) -> (r: Result<
    (Result<D::Answer, DayError>, Result<D::Answer, DayError>),
    DayError,
>)
    ensures
        match r {
            Ok((after_one, alone)) => {
                &&& day.answers(DayPart::Part2, input@, after_one)
                &&& day.answers(DayPart::Part2, input@, alone)
                &&& determined(day, DayPart::Part2, input@) ==> after_one == alone
            },
            Err(error) => day.refuses(input@, error),
        },
{
    match day.parse(input) {
        Err(error) => Err(error),
        Ok(mut used) => {
            assert(day.parsed(input@, used));
            let _ = day.part1(&mut used);
            assert(day.parsed(input@, used));
            let after_one = day.part2(&mut used);
            match day.parse(input) {
                Err(error) => Err(error),
                Ok(mut fresh) => {
                    assert(day.parsed(input@, fresh));
                    let alone = day.part2(&mut fresh);
                    Ok((after_one, alone))
                },
            }
        },
    }
}

} // verus!
