//! Strings as sequences of characters: what trimming, splitting into lines and
//! writing a number in decimal mean, and the executable functions that do them.

use vstd::prelude::*;
use vstd::string::*;

verus! {

/// Whether `c` is white space in the sense of `char::is_whitespace`: whether it
/// has the Unicode property `White_Space`.
pub uninterp spec fn is_whitespace(c: char) -> bool;

/// Whether `c` is numeric in the sense of `char::is_numeric`: whether it has
/// one of the Unicode general categories `Nd`, `Nl` and `No`.
pub uninterp spec fn is_numeric(c: char) -> bool;

/// `s` without the white space it begins with.
pub open spec fn trim_start(s: Seq<char>) -> Seq<char>
    decreases s.len(),
{
    if s.len() > 0 && is_whitespace(s.first()) {
        trim_start(s.drop_first())
    } else {
        s
    }
}

/// `s` without the white space it ends with.
pub open spec fn trim_end(s: Seq<char>) -> Seq<char>
    decreases s.len(),
{
    if s.len() > 0 && is_whitespace(s.last()) {
        trim_end(s.drop_last())
    } else {
        s
    }
}

/// `s` without the white space at either end.
pub open spec fn trim(s: Seq<char>) -> Seq<char> {
    trim_end(trim_start(s))
}

/// The views of the strings of `items`, in their order.
pub open spec fn views(items: Seq<&str>) -> Seq<Seq<char>> {
    Seq::new(items.len(), |i: int| items[i]@)
}

/// The strings of `items` that hold more than white space, each trimmed, in
/// their order.
pub open spec fn content(items: Seq<Seq<char>>) -> Seq<Seq<char>>
    decreases items.len(),
{
    if items.len() == 0 {
        Seq::empty()
    } else {
        let before = content(items.drop_last());
        let last = trim(items.last());
        if last.len() > 0 {
            before.push(last)
        } else {
            before
        }
    }
}

/// The number of characters of `s` before its first line feed: all of them
/// where it has none.
pub open spec fn line_len(s: Seq<char>) -> int
    decreases s.len(),
{
    if s.len() == 0 || s[0] == '\n' {
        0
    } else {
        1 + line_len(s.drop_first())
    }
}

/// `line` without the carriage return it ends with, if it ends with one.
pub open spec fn without_cr(line: Seq<char>) -> Seq<char> {
    if line.len() > 0 && line.last() == '\r' {
        line.drop_last()
    } else {
        line
    }
}

/// The lines of `s`. A line ends with a line feed, or with a carriage return
/// and a line feed; neither belongs to the line. The last line need not be
/// ended, and then keeps a carriage return at its end.
pub open spec fn split_lines(s: Seq<char>) -> Seq<Seq<char>>
    decreases s.len(),
{
    if s.len() == 0 {
        Seq::empty()
    } else {
        let n = line_len(s);
        if 0 <= n < s.len() {
            seq![without_cr(s.subrange(0, n))] + split_lines(s.subrange(n + 1, s.len() as int))
        } else {
            seq![s]
        }
    }
}

/// The number of characters of `s` before the first place where `pattern`
/// stands in it: all of them where it stands nowhere.
pub open spec fn find(s: Seq<char>, pattern: Seq<char>) -> int
    decreases s.len(),
{
    if s.len() == 0 || pattern.is_prefix_of(s) {
        0
    } else {
        1 + find(s.drop_first(), pattern)
    }
}

/// The pieces of `s` between the places where `pattern` stands, taken from
/// the left and without overlap. An empty piece after the last such place is
/// left out.
pub open spec fn split_terminated(s: Seq<char>, pattern: Seq<char>) -> Seq<Seq<char>>
    decreases s.len(),
{
    if s.len() == 0 {
        Seq::empty()
    } else {
        let n = find(s, pattern);
        if pattern.len() > 0 && 0 <= n && n + pattern.len() <= s.len() {
            seq![s.subrange(0, n)] + split_terminated(
                s.subrange(n + pattern.len(), s.len() as int),
                pattern,
            )
        } else {
            seq![s]
        }
    }
}

/// The character that stands for the digit `d`.
pub open spec fn digit(d: int) -> char {
    if d == 0 {
        '0'
    } else if d == 1 {
        '1'
    } else if d == 2 {
        '2'
    } else if d == 3 {
        '3'
    } else if d == 4 {
        '4'
    } else if d == 5 {
        '5'
    } else if d == 6 {
        '6'
    } else if d == 7 {
        '7'
    } else if d == 8 {
        '8'
    } else {
        '9'
    }
}

/// `n` written in decimal, without leading zeros.
pub open spec fn decimal(n: nat) -> Seq<char>
    decreases n,
{
    if n < 10 {
        seq![digit(n as int)]
    } else {
        decimal(n / 10).push(digit((n % 10) as int))
    }
}

/// `n` written in decimal, with a zero before a single digit.
pub open spec fn two_digits(n: nat) -> Seq<char> {
    if n < 10 {
        seq!['0'] + decimal(n)
    } else {
        decimal(n)
    }
}

/// `i` written in decimal, with a minus sign before it where it is negative.
pub open spec fn signed_decimal(i: int) -> Seq<char> {
    if i < 0 {
        seq!['-'] + decimal((-i) as nat)
    } else {
        decimal(i as nat)
    }
}

/// Whether `pattern` stands somewhere in `s`.
pub open spec fn found(s: Seq<char>, pattern: Seq<char>) -> bool {
    find(s, pattern) + pattern.len() <= s.len()
}

/// `s` with `with` in each place where `pattern` stands, taken from the
/// left and without overlap.
pub open spec fn replaced(s: Seq<char>, pattern: Seq<char>, with: Seq<char>) -> Seq<char>
    decreases s.len(),
{
    let n = find(s, pattern);
    if s.len() > 0 && pattern.len() > 0 && 0 <= n && n + pattern.len() <= s.len() {
        s.subrange(0, n) + with + replaced(
            s.subrange(n + pattern.len(), s.len() as int),
            pattern,
            with,
        )
    } else {
        s
    }
}

/// The number of line feeds in `s`.
pub open spec fn newlines(s: Seq<char>) -> nat
    decreases s.len(),
{
    if s.len() == 0 {
        0
    } else if s.last() == '\n' {
        newlines(s.drop_last()) + 1
    } else {
        newlines(s.drop_last())
    }
}

/// `str::trim`: the slice of `s` that is left when the white space at both
/// ends is taken off.
#[verifier::external_body]
pub(crate) fn trim_str<'a>(s: &'a str) -> (t: &'a str)
    ensures
        t@ == trim(s@),
        t@.len() > 0 ==> !is_whitespace(t@.first()) && !is_whitespace(t@.last()),
{
    s.trim()
}

/// `char::is_numeric`.
#[verifier::external_body]
pub(crate) fn numeric(c: char) -> (r: bool)
    ensures
        r == is_numeric(c),
{
    c.is_numeric()
}

/// `String::push`: appends `c` to `s`.
pub assume_specification[ String::push ](s: &mut String, c: char)
    ensures
        final(s)@ == old(s)@.push(c),
;

/// `str::lines`: the lines of `s` in their order, as slices of it.
#[verifier::external_body]
pub(crate) fn lines_of<'a>(s: &'a str) -> (lines: Vec<&'a str>)
    ensures
        views(lines@) == split_lines(s@),
{
    s.lines().collect()
}

/// `str::split_terminator` with a string as the pattern: the pieces of `s`
/// between the matches of `pattern`, as slices of it.
#[verifier::external_body]
pub(crate) fn pieces_of<'a>(s: &'a str, pattern: &str) -> (pieces: Vec<&'a str>)
    requires
        pattern@.len() > 0,
    ensures
        views(pieces@) == split_terminated(s@, pattern@),
{
    s.split_terminator(pattern).collect()
}

/// `str::replace` with a string as the pattern: `s` with every match of
/// `pattern` replaced by `with`.
#[verifier::external_body]
pub(crate) fn replace_all(s: &str, pattern: &str, with: &str) -> (out: String)
    requires
        pattern@.len() > 0,
    ensures
        out@ == replaced(s@, pattern@, with@),
{
    s.replace(pattern, with)
}

/// `str::contains` with a string as the pattern: whether `pattern` stands
/// somewhere in `s`.
#[verifier::external_body]
pub(crate) fn contains_text(s: &str, pattern: &str) -> (r: bool)
    requires
        pattern@.len() > 0,
    ensures
        r == found(s@, pattern@),
{
    s.contains(pattern)
}

/// A line feed counted in `a + b` is counted in `a` or in `b`.
pub proof fn lemma_newlines_concat(a: Seq<char>, b: Seq<char>)
    ensures
        newlines(a + b) == newlines(a) + newlines(b),
    decreases b.len(),
{
    if b.len() == 0 {
        assert(a + b =~= a);
    } else {
        assert((a + b).drop_last() =~= a + b.drop_last());
        lemma_newlines_concat(a, b.drop_last());
    }
}

/// A string without a line feed counts none.
pub proof fn lemma_newlines_none(s: Seq<char>)
    requires
        forall|i: int| 0 <= i < s.len() ==> s[i] != '\n',
    ensures
        newlines(s) == 0,
    decreases s.len(),
{
    if s.len() > 0 {
        lemma_newlines_none(s.drop_last());
    }
}

/// A number in decimal is made of digits: it holds at least one character,
/// and no line feed.
pub proof fn lemma_decimal_digits(n: nat)
    ensures
        decimal(n).len() > 0,
        forall|i: int| 0 <= i < decimal(n).len() ==> decimal(n)[i] != '\n',
    decreases n,
{
    if n >= 10 {
        lemma_decimal_digits(n / 10);
    }
}

/// The one character that stands for the digit `d`, as a string.
fn digit_str(d: u64) -> (s: &'static str)
    requires
        d < 10,
    ensures
        s@ == seq![digit(d as int)],
{
    proof {
        reveal_strlit("0");
        reveal_strlit("1");
        reveal_strlit("2");
        reveal_strlit("3");
        reveal_strlit("4");
        reveal_strlit("5");
        reveal_strlit("6");
        reveal_strlit("7");
        reveal_strlit("8");
        reveal_strlit("9");
    }
    let s = if d == 0 {
        "0"
    } else if d == 1 {
        "1"
    } else if d == 2 {
        "2"
    } else if d == 3 {
        "3"
    } else if d == 4 {
        "4"
    } else if d == 5 {
        "5"
    } else if d == 6 {
        "6"
    } else if d == 7 {
        "7"
    } else if d == 8 {
        "8"
    } else {
        "9"
    };
    assert(s@ =~= seq![digit(d as int)]);
    s
}

/// `n` written in decimal.
pub fn decimal_string(n: u64) -> (s: String)
    ensures
        s@ == decimal(n as nat),
    decreases n,
{
    if n < 10 {
        String::from_str(digit_str(n))
    } else {
        let mut s = decimal_string(n / 10);
        s.append(digit_str(n % 10));
        assert(s@ =~= decimal(n as nat));
        s
    }
}

/// `n` written in decimal, in two digits at least.
pub fn two_digit_string(n: u8) -> (s: String)
    ensures
        s@ == two_digits(n as nat),
{
    if n < 10 {
        proof {
            reveal_strlit("0");
        }
        let mut s = String::from_str("0");
        s.append(decimal_string(n as u64).as_str());
        assert(s@ =~= two_digits(n as nat));
        s
    } else {
        decimal_string(n as u64)
    }
}

/// `i` written in decimal, with its sign where it is negative.
pub fn signed_decimal_string(i: i64) -> (s: String)
    ensures
        s@ == signed_decimal(i as int),
{
    if i < 0 {
        proof {
            reveal_strlit("-");
        }
        let magnitude: u64 = (-(i + 1)) as u64 + 1;
        let mut s = String::from_str("-");
        s.append(decimal_string(magnitude).as_str());
        assert(s@ =~= signed_decimal(i as int));
        s
    } else {
        decimal_string(i as u64)
    }
}

/// The digit that `c` stands for, if it is one of `0` to `9`.
pub open spec fn digit_value(c: char) -> Option<nat> {
    if c == '0' {
        Some(0)
    } else if c == '1' {
        Some(1)
    } else if c == '2' {
        Some(2)
    } else if c == '3' {
        Some(3)
    } else if c == '4' {
        Some(4)
    } else if c == '5' {
        Some(5)
    } else if c == '6' {
        Some(6)
    } else if c == '7' {
        Some(7)
    } else if c == '8' {
        Some(8)
    } else if c == '9' {
        Some(9)
    } else {
        None
    }
}

/// The number that `s` is in decimal, if it is made of digits, one at least.
pub open spec fn digits_value(s: Seq<char>) -> Option<nat>
    decreases s.len(),
{
    if s.len() == 0 {
        None
    } else if s.len() == 1 {
        digit_value(s[0])
    } else {
        match (digits_value(s.drop_last()), digit_value(s.last())) {
            (Some(before), Some(last)) => Some(before * 10 + last),
            _ => None,
        }
    }
}

/// The number below 256 that `s` is in decimal, if it is one: digits alone,
/// or digits after one plus sign.
pub open spec fn small_number(s: Seq<char>) -> Option<u8> {
    let digits = if s.len() > 0 && s[0] == '+' {
        s.drop_first()
    } else {
        s
    };
    match digits_value(digits) {
        Some(value) => if value <= 255 {
            Some(value as u8)
        } else {
            None
        },
        None => None,
    }
}

/// The digit that `c` stands for.
fn digit_of(c: char) -> (d: Option<u16>)
    ensures
        d is Some <==> digit_value(c) is Some,
        d matches Some(value) ==> digit_value(c) == Some(value as nat) && value <= 9,
{
    if c == '0' {
        Some(0)
    } else if c == '1' {
        Some(1)
    } else if c == '2' {
        Some(2)
    } else if c == '3' {
        Some(3)
    } else if c == '4' {
        Some(4)
    } else if c == '5' {
        Some(5)
    } else if c == '6' {
        Some(6)
    } else if c == '7' {
        Some(7)
    } else if c == '8' {
        Some(8)
    } else if c == '9' {
        Some(9)
    } else {
        None
    }
}

/// Reads `s` as a number below 256, as the parser of the standard library
/// reads a `u8`.
pub fn parse_small(s: &str) -> (r: Option<u8>)
    ensures
        r == small_number(s@),
{
    let ghost digits = if s@.len() > 0 && s@[0] == '+' {
        s@.drop_first()
    } else {
        s@
    };
    let ghost skip: int = s@.len() - digits.len();
    let total = s.unicode_len();
    let mut at: usize = 0;
    // The number read so far, as long as it is one below 256.
    let mut so_far: Option<u16> = None;
    let mut failed = false;
    for c in iter: s.chars()
        invariant
            iter.seq() == s@,
            total == s@.len(),
            at == iter.index(),
            digits == s@.subrange(skip, s@.len() as int),
            0 <= skip <= 1,
            skip == 1 <==> s@.len() > 0 && s@[0] == '+',
            so_far matches Some(value) ==> !failed && at > skip && value <= 255 && digits_value(
                s@.subrange(skip, at as int),
            ) == Some(value as nat),
            so_far is None && !failed ==> at <= skip,
            failed ==> at > skip && match digits_value(s@.subrange(skip, at as int)) {
                Some(value) => value > 255,
                None => true,
            },
    {
        let ghost before = s@.subrange(skip, at as int);
        let ghost after = s@.subrange(skip, at + 1);
        if at == 0 && c == '+' {
        } else {
            assert(after.drop_last() =~= before);
            assert(after.last() == c);
            match digit_of(c) {
                None => {
                    failed = true;
                    so_far = None;
                },
                Some(d) => {
                    if !failed {
                        match so_far {
                            None => {
                                assert(after.len() == 1);
                                so_far = Some(d);
                            },
                            Some(value) => {
                                let next = value * 10 + d;
                                if next > 255 {
                                    failed = true;
                                    so_far = None;
                                } else {
                                    so_far = Some(next);
                                }
                            },
                        }
                    }
                },
            }
        }
        at += 1;
    }
    assert(s@.subrange(skip, at as int) =~= digits);
    match so_far {
        Some(value) => Some(value as u8),
        None => None,
    }
}

} // verus!
