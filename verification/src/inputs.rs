//! The files that hold the inputs of the days, one for each day.

use crate::text::{parse_small, small_number, two_digit_string, two_digits};
use vstd::prelude::*;
use vstd::string::*;

verus! {

/// What a file in the folder of inputs is.
#[derive(Debug, Clone, Copy, PartialEq, Eq, Structural)]
pub enum InputSlot {
    /// Not the input of a day: it is skipped.
    NotAnInput,
    /// The input of the day with this index: the day's number less one.
    Day(usize),
    /// Named like the input of this day, which is none of the 25 days.
    OutOfRange(u8),
}

/// The days with a puzzle.
pub const DAYS: u8 = 25;

/// What the file called `name` is: the input of a day if the name is the
/// day's number followed by `.txt`.
pub open spec fn slot_of(name: Seq<char>) -> InputSlot {
    if name.len() > 4 && name.subrange(name.len() - 4, name.len() as int) == ".txt"@ {
        match small_number(name.subrange(0, name.len() - 4)) {
            Some(day) => if 1 <= day <= DAYS {
                InputSlot::Day((day - 1) as usize)
            } else {
                InputSlot::OutOfRange(day)
            },
            None => InputSlot::NotAnInput,
        }
    } else {
        InputSlot::NotAnInput
    }
}

/// Decides what the file called `name` in the folder of inputs is.
pub fn input_slot(name: &str) -> (slot: InputSlot)
    ensures
        slot == slot_of(name@),
{
    let total = name.unicode_len();
    if total <= 4 {
        return InputSlot::NotAnInput;
    }
    let extension = String::from_str(name.substring_char(total - 4, total));
    let wanted = String::from_str(".txt");
    if extension != wanted {
        return InputSlot::NotAnInput;
    }
    match parse_small(name.substring_char(0, total - 4)) {
        Some(day) => {
            if 1 <= day && day <= DAYS {
                InputSlot::Day((day - 1) as usize)
            } else {
                InputSlot::OutOfRange(day)
            }
        },
        None => InputSlot::NotAnInput,
    }
}

/// Why a file cannot be taken as the input of a day.
#[derive(Debug, Clone, Copy, PartialEq, Eq, Structural)]
pub enum InputError {
    /// It is named like the input of this day, which is none of the days.
    OutOfRange(u8),
    /// The day with this number has an input already.
    Duplicate(u8),
}

/// What comes of taking the file called `name` where the inputs `found` are
/// there already: the index of its day, nothing where it is no input, or
/// the reason why it cannot be taken.
pub open spec fn claimed(found: Seq<Option<String>>, name: Seq<char>) -> Result<
    Option<usize>,
    InputError,
> {
    match slot_of(name) {
        InputSlot::NotAnInput => Ok(None),
        InputSlot::OutOfRange(day) => Err(InputError::OutOfRange(day)),
        InputSlot::Day(index) => if found[index as int] is Some {
            Err(InputError::Duplicate((index + 1) as u8))
        } else {
            Ok(Some(index))
        },
    }
}

/// Decides where the contents of the file called `name` go, given the
/// inputs found so far, one place for each day.
pub fn claim_slot(found: &[Option<String>; 25], name: &str) -> (r: Result<Option<usize>, InputError>)
    ensures
        r == claimed(found@, name@),
        r matches Ok(Some(index)) ==> index < DAYS && found@[index as int] is None,
{
    match input_slot(name) {
        InputSlot::NotAnInput => Ok(None),
        InputSlot::OutOfRange(day) => Err(InputError::OutOfRange(day)),
        InputSlot::Day(index) => {
            if found[index].is_some() {
                Err(InputError::Duplicate((index + 1) as u8))
            } else {
                Ok(Some(index))
            }
        },
    }
}

/// The name of the type of day number `day`.
pub open spec fn day_type_name(day: u8) -> Seq<char> {
    "Day"@ + two_digits(day as nat)
}

/// The name of the type that solves day number `day`: `Day07` for 7.
pub fn day_type(day: u8) -> (name: String)
    ensures
        name@ == day_type_name(day),
{
    let mut name = String::from_str("Day");
    name.append(two_digit_string(day).as_str());
    name
}

} // verus!
