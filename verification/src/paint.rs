//! Text made to stand out on a terminal.

use colored::Colorize;
use vstd::prelude::*;

verus! {

/// The escape sequence that switches the style `code` on.
pub open spec fn switch(code: Seq<char>) -> Seq<char> {
    seq!['\u{1b}', '['] + code + seq!['m']
}

/// `inner` between the escape sequence for `code` and the one that resets
/// every style.
pub open spec fn framed(code: Seq<char>, inner: Seq<char>) -> Seq<char> {
    switch(code) + inner + switch(seq!['0'])
}

/// Whether `out` can be `text` written in the style `code`. Where styles are
/// switched off, by the environment or by the program, it is `text` itself;
/// else it is framed by escape sequences, and between them stands `text`,
/// unchanged where it holds no escape character.
pub open spec fn painted(code: Seq<char>, text: Seq<char>, out: Seq<char>) -> bool {
    ||| out == text
    ||| exists|inner: Seq<char>|
        out == #[trigger] framed(code, inner) && (!text.contains('\u{1b}') ==> inner == text)
}

/// The code of the style bold.
pub open spec fn bold_code() -> Seq<char> {
    seq!['1']
}

/// The code of the colour red.
pub open spec fn red_code() -> Seq<char> {
    seq!['3', '1']
}

/// The code of the colour green.
pub open spec fn green_code() -> Seq<char> {
    seq!['3', '2']
}

/// What the `Debug` of a `ColoredString` writes that holds `text` in bold.
pub uninterp spec fn bold_debug(text: Seq<char>) -> Seq<char>;

/// `Colorize::red` on a string slice, written by the `Display` of the
/// `ColoredString`: `text` in red, or plain where colours are off.
#[verifier::external_body]
pub(crate) fn red(text: &str) -> (out: String)
    ensures
        painted(red_code(), text@, out@),
{
    text.red().to_string()
}

/// `Colorize::green` on a string slice, written by the `Display` of the
/// `ColoredString`: `text` in green, or plain where colours are off.
#[verifier::external_body]
pub(crate) fn green(text: &str) -> (out: String)
    ensures
        painted(green_code(), text@, out@),
{
    text.green().to_string()
}

/// `Colorize::bold` on a string slice, written by the `Display` of the
/// `ColoredString`: `text` in bold, or plain where styles are off.
#[verifier::external_body]
pub(crate) fn bold(text: &str) -> (out: String)
    ensures
        painted(bold_code(), text@, out@),
{
    text.bold().to_string()
}

/// `Colorize::bold` on a string slice, written by the derived `Debug` of the
/// `ColoredString`: its fields by name, the same for the same `text`.
#[verifier::external_body]
pub(crate) fn bold_debug_text(text: &str) -> (out: String)
    ensures
        out@ == bold_debug(text@),
{
    format!("{:?}", text.bold())
}

} // verus!
