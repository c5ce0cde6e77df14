//! What is logged of the memory that a day asks for.

use crate::text::{contains_text, decimal, decimal_string, found};
use vstd::prelude::*;
use vstd::string::*;

verus! {

/// Whether memory that the function called `function` asked for is logged:
/// whether its name holds `day`.
pub fn logs_frame(function: &str) -> (r: bool)
    ensures
        r == found(function@, "day"@),
{
    proof {
        reveal_strlit("day");
    }
    contains_text(function, "day")
}

/// The label of a frame of the call stack: the function's name, then, as far
/// as they are known, the file, the line and the column.
pub open spec fn frame_text(
    function: Seq<char>,
    file: Option<Seq<char>>,
    line: Option<u32>,
    column: Option<u32>,
) -> Seq<char> {
    match (file, line, column) {
        (Some(file), Some(line), Some(column)) => function + "@"@ + file + ":"@ + decimal(
            line as nat,
        ) + ":"@ + decimal(column as nat),
        (Some(file), Some(line), None) => function + "@"@ + file + ":"@ + decimal(line as nat),
        (Some(file), None, _) => function + "@"@ + file,
        (None, _, _) => function,
    }
}

/// The label of a frame of the call stack.
pub fn frame_label(function: &str, file: Option<&str>, line: Option<u32>, column: Option<u32>) -> (label: String)
    ensures
        label@ == frame_text(
            function@,
            match file {
                Some(file) => Some(file@),
                None => None,
            },
            line,
            column,
        ),
{
    let mut label = String::from_str(function);
    match file {
        None => {},
        Some(file) => {
            label.append("@");
            label.append(file);
            match line {
                None => {},
                Some(line) => {
                    label.append(":");
                    label.append(decimal_string(line as u64).as_str());
                    match column {
                        None => {},
                        Some(column) => {
                            label.append(":");
                            label.append(decimal_string(column as u64).as_str());
                        },
                    }
                },
            }
        },
    }
    assert(label@ =~= frame_text(
        function@,
        match file {
            Some(file) => Some(file@),
            None => None,
        },
        line,
        column,
    ));
    label
}

/// The line that logs memory asked for at `address` by the frame number
/// `frame` of the call stack, which `label` describes.
pub open spec fn note_text(address: Seq<char>, frame: nat, label: Seq<char>) -> Seq<char> {
    "memory allocation @"@ + address + " (frame idx["@ + decimal(frame) + "]) "@ + label
}

/// The line that logs memory asked for at `address`.
pub fn allocation_note(address: &str, frame: usize, label: &str) -> (note: String)
    ensures
        note@ == note_text(address@, frame as nat, label@),
{
    let mut note = String::from_str("memory allocation @");
    note.append(address);
    note.append(" (frame idx[");
    note.append(decimal_string(frame as u64).as_str());
    note.append("]) ");
    note.append(label);
    assert(note@ =~= note_text(address@, frame as nat, label@));
    note
}

} // verus!
