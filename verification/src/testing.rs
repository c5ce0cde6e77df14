//! Checking a day, or any function, against a table of inputs and expected
//! answers, and saying readably which case failed.

use crate::text::{decimal, decimal_string, lemma_decimal_digits, lemma_newlines_concat, lemma_newlines_none, newlines};
use crate::aocday::{solve, AoCDay, DayPart};
use crate::error_handling::{debug_of, debug_shows, DayError};
use crate::paint::{bold, bold_code, bold_debug, bold_debug_text, green, green_code, painted, red, red_code};
use vstd::prelude::*;
use vstd::std_specs::cmp::PartialEqSpec;
use vstd::string::*;

verus! {

/// Line feeds of an input that a report shows.
pub const LINES: usize = 10;

/// Whether the line feed that ends what a report shows of `s` stands at `i`:
/// the one with `LINES` line feeds before it.
pub open spec fn is_cut(s: Seq<char>, i: int) -> bool {
    0 <= i < s.len() && s[i] == '\n' && newlines(s.subrange(0, i)) == LINES
}

/// What stands for the `omitted` line feeds that a report leaves out.
pub open spec fn marker(omitted: nat) -> Seq<char> {
    "...<"@ + decimal(omitted) + " more lines>..."@
}

/// What a report shows of the input `s`: all of it where it holds at most
/// `LINES` line feeds, and else what stands before the next one, followed by
/// the number of line feeds after that one.
pub open spec fn shortened(s: Seq<char>) -> Seq<char> {
    if newlines(s) <= LINES {
        s
    } else {
        s.subrange(0, choose|i: int| is_cut(s, i)) + marker((newlines(s) - LINES - 1) as nat)
    }
}

/// A longer beginning of `s` holds no fewer line feeds, and one more if it
/// takes in a line feed.
pub proof fn lemma_newlines_grow(s: Seq<char>, i: int, j: int)
    requires
        0 <= i <= j <= s.len(),
    ensures
        newlines(s.subrange(0, i)) <= newlines(s.subrange(0, j)),
        i < j && s[i] == '\n' ==> newlines(s.subrange(0, i)) < newlines(s.subrange(0, j)),
{
    lemma_newlines_concat(s.subrange(0, i), s.subrange(i, j));
    assert(s.subrange(0, i) + s.subrange(i, j) =~= s.subrange(0, j));
    if i < j && s[i] == '\n' {
        let first = s.subrange(i, i + 1);
        lemma_newlines_concat(first, s.subrange(i + 1, j));
        assert(first + s.subrange(i + 1, j) =~= s.subrange(i, j));
        assert(first.last() == '\n');
        assert(newlines(first.drop_last()) == 0);
        assert(newlines(first) == 1);
    }
}

/// There is at most one place to cut `s`.
pub proof fn lemma_cut_unique(s: Seq<char>, i: int, j: int)
    requires
        is_cut(s, i),
        is_cut(s, j),
    ensures
        i == j,
{
    if i < j {
        lemma_newlines_grow(s, i, j);
    }
    if j < i {
        lemma_newlines_grow(s, j, i);
    }
}

/// The marker holds no line feed.
pub proof fn lemma_marker_one_line(omitted: nat)
    ensures
        newlines(marker(omitted)) == 0,
{
    reveal_strlit("...<");
    reveal_strlit(" more lines>...");
    lemma_decimal_digits(omitted);
    lemma_newlines_none(marker(omitted));
}

/// An input with at most `LINES` line feeds is shown whole. Of a longer one
/// exactly `LINES` line feeds are shown: its text up to the place to cut it,
/// and in the last line the marker. Showing what was shown changes nothing.
pub proof fn lemma_shortened_once(s: Seq<char>)
    ensures
        newlines(s) <= LINES ==> shortened(s) == s,
        newlines(s) > LINES ==> newlines(shortened(s)) == LINES && exists|i: int|
            is_cut(s, i) && shortened(s) == s.subrange(0, i) + marker(
                (newlines(s) - LINES - 1) as nat,
            ),
        shortened(shortened(s)) == shortened(s),
{
    if newlines(s) > LINES {
        let omitted = (newlines(s) - LINES - 1) as nat;
        lemma_cut_exists(s);
        let i = choose|i: int| is_cut(s, i);
        lemma_newlines_concat(s.subrange(0, i), marker(omitted));
        lemma_marker_one_line(omitted);
    }
}

/// An input with more than `LINES` line feeds has a place to cut it.
pub proof fn lemma_cut_exists(s: Seq<char>)
    requires
        newlines(s) > LINES,
    ensures
        exists|i: int| is_cut(s, i),
    decreases s.len(),
{
    let shorter = s.drop_last();
    if newlines(shorter) > LINES {
        lemma_cut_exists(shorter);
        let i = choose|i: int| is_cut(shorter, i);
        assert(shorter.subrange(0, i) =~= s.subrange(0, i));
        assert(is_cut(s, i));
    } else {
        assert(s.subrange(0, s.len() - 1) =~= shorter);
        assert(is_cut(s, s.len() - 1));
    }
}

/// What a report shows of `input`: its text up to the line feed after
/// `LINES` others, and the number of line feeds left out.
pub fn short_input(input: &str) -> (shown: String)
    ensures
        shown@ == shortened(input@),
{
    let total = input.unicode_len();
    let mut seen: usize = 0;
    let mut at: usize = 0;
    let mut cut: Option<usize> = None;
    for c in iter: input.chars()
        invariant
            iter.seq() == input@,
            total == input@.len(),
            at == iter.index(),
            seen == newlines(input@.subrange(0, at as int)),
            seen <= at,
            cut is None ==> seen <= LINES,
            cut matches Some(i) ==> is_cut(input@, i as int) && i < at,
    {
        assert(input@.subrange(0, at + 1).drop_last() =~= input@.subrange(0, at as int));
        if c == '\n' {
            if seen == LINES {
                cut = Some(at);
            }
            seen += 1;
        }
        at += 1;
    }
    assert(input@.subrange(0, at as int) =~= input@);
    match cut {
        None => String::from_str(input),
        Some(i) => {
            proof {
                lemma_newlines_grow(input@, i as int, at as int);
                lemma_cut_unique(input@, i as int, choose|i: int| is_cut(input@, i));
            }
            let mut shown = String::from_str(input.substring_char(0, i));
            let omitted = decimal_string((seen - LINES - 1) as u64);
            shown.append("...<");
            shown.append(omitted.as_str());
            shown.append(" more lines>...");
            assert(shown@ =~= shortened(input@));
            shown
        },
    }
}

/// Characters of an input that the report of a failed parse shows at most.
pub const SHOWN_ON_ABORT: usize = 200;

/// What the report of a failed parse shows of `input`: all of it where it
/// holds at most `SHOWN_ON_ABORT` characters, and else a placeholder.
pub open spec fn shown_on_abort(input: Seq<char>) -> Seq<char> {
    if input.len() <= SHOWN_ON_ABORT {
        input
    } else {
        "<too long to display>"@
    }
}

/// The report of a parse that failed with `payload` on `input`, both as they
/// are to be shown.
pub open spec fn abort_message(payload: Seq<char>, input: Seq<char>) -> Seq<char> {
    "panic while parsing input: `"@ + payload + "` (input = "@ + input + ")"@
}

/// Whether `message` reports that parsing `input` failed with `payload`: it
/// holds `payload` in red and, in bold, `input` or its placeholder.
pub open spec fn reports_abort(payload: Seq<char>, input: Seq<char>, message: Seq<char>) -> bool {
    exists|shown: Seq<char>|
        painted(red_code(), payload, shown) && message == #[trigger] abort_message(
            shown,
            bold_debug(shown_on_abort(input)),
        )
}

/// The report of case number `case` whose answer is not the expected one,
/// with the input and both answers as they are to be shown.
pub open spec fn mismatch_message(
    case: nat,
    input: Seq<char>,
    expected: Seq<char>,
    actual: Seq<char>,
) -> Seq<char> {
    "input #"@ + decimal(case) + " - '"@ + input + "': expected `"@ + expected + "` got `"@
        + actual + "` for input #"@ + decimal(case)
}

/// Whether `message` reports that case number `case`, with the input
/// `input`, gave `actual` where `expected` was due: it holds the shortened
/// input in bold, `expected` in green and `actual` in red.
pub open spec fn reports_mismatch(
    case: nat,
    input: Seq<char>,
    expected: Seq<char>,
    actual: Seq<char>,
    message: Seq<char>,
) -> bool {
    exists|shown: Seq<char>, due: Seq<char>, got: Seq<char>|
        {
            &&& painted(bold_code(), shortened(input), shown)
            &&& painted(green_code(), expected, due)
            &&& painted(red_code(), actual, got)
            &&& message == #[trigger] mismatch_message(case, shown, due, got)
        }
}

/// What the report of a failed parse shows of `input`.
pub fn input_on_abort<'a>(input: &'a str) -> (shown: &'a str)
    ensures
        shown@ == shown_on_abort(input@),
{
    if input.unicode_len() <= SHOWN_ON_ABORT {
        input
    } else {
        "<too long to display>"
    }
}

/// The report of a parse that failed on `input`; `payload` says how.
pub fn parse_abort_message(payload: &str, input: &str) -> (message: String)
    ensures
        reports_abort(payload@, input@, message@),
{
    let shown = red(payload);
    let shown_input = bold_debug_text(input_on_abort(input));
    let mut message = String::from_str("panic while parsing input: `");
    message.append(shown.as_str());
    message.append("` (input = ");
    message.append(shown_input.as_str());
    message.append(")");
    assert(message@ =~= abort_message(shown@, bold_debug(shown_on_abort(input@))));
    message
}

/// The report of case number `case`, which gave `actual` for `input` where
/// `expected` was due.
pub fn mismatch_report(case: usize, input: &str, expected: &str, actual: &str) -> (message: String)
    ensures
        reports_mismatch(case as nat, input@, expected@, actual@, message@),
{
    let short = short_input(input);
    let shown = bold(short.as_str());
    let due = green(expected);
    let got = red(actual);
    let number = decimal_string(case as u64);
    let mut message = String::from_str("input #");
    message.append(number.as_str());
    message.append(" - '");
    message.append(shown.as_str());
    message.append("': expected `");
    message.append(due.as_str());
    message.append("` got `");
    message.append(got.as_str());
    message.append("` for input #");
    message.append(number.as_str());
    assert(message@ =~= mismatch_message(case as nat, shown@, due@, got@));
    message
}

/// The step at which a case failed.
#[derive(Debug, Clone, Copy, PartialEq, Eq, Structural)]
pub enum Stage {
    /// The day did not parse the input.
    Parsing,
    /// The answer was not the expected one.
    Solving,
}

/// The first case of a table that failed.
#[derive(Debug)]
pub struct TestFailure {
    /// The number of the case in its table, from 0.
    pub case: usize,
    /// The step that failed.
    pub stage: Stage,
    /// What to tell the developer.
    pub message: String,
}

/// An input that a report can show.
pub trait DisplayInput {
    /// Whether `text` can be what `display` shows. An implementation that
    /// says nothing allows every text.
    open spec fn shown(&self, text: Seq<char>) -> bool {
        true
    }

    /// The input as text.
    fn display(&self) -> (text: String)
        ensures
            self.shown(text@),
    ;
}

/// A string slice is shown as it is.
impl DisplayInput for &str {
    open spec fn shown(&self, text: Seq<char>) -> bool {
        text == (*self)@
    }

    fn display(&self) -> (text: String) {
        String::from_str(*self)
    }
}

/// A string is shown as it is.
impl DisplayInput for String {
    open spec fn shown(&self, text: Seq<char>) -> bool {
        text == self@
    }

    fn display(&self) -> (text: String) {
        self.clone()
    }
}

/// Whether `func` can give, for `input`, an answer that `expected` equals.
pub open spec fn passes<I, E: PartialEq<O>, O, F: Fn(&I) -> O>(
    func: F,
    input: &I,
    expected: &E,
) -> bool {
    exists|answer: O| #[trigger]
        call_ensures(func, (input,), answer) && (E::obeys_eq_spec() ==> expected.eq_spec(&answer))
}

/// Whether `message` reports that `func` gave, for `input`, an answer that
/// `expected` does not equal, as case number `case`, where `text` shows
/// `input`: it holds both as their `Debug` writes them.
pub open spec fn fails<I, E: core::fmt::Debug + PartialEq<O>, O: core::fmt::Debug, F: Fn(&I) -> O>(
    func: F,
    input: &I,
    expected: &E,
    case: nat,
    text: Seq<char>,
    message: Seq<char>,
) -> bool {
    exists|answer: O, due: Seq<char>, got: Seq<char>|
        #![trigger call_ensures(func, (input,), answer), reports_mismatch(case, text, due, got, message)]
        {
            &&& call_ensures(func, (input,), answer)
            &&& E::obeys_eq_spec() ==> !expected.eq_spec(&answer)
            &&& debug_shows(expected, due)
            &&& debug_shows(&answer, got)
            &&& reports_mismatch(case, text, due, got, message)
        }
}

/// Runs `func` on the input of each case, in order, until an answer is not
/// the expected one; reports that case. Inputs are shown by `DisplayInput`.
pub fn run_test<I, E, O, F>(func: F, cases: &[(I, E)]) -> (r: Result<(), TestFailure>)
    where
        I: DisplayInput,
        E: core::fmt::Debug + PartialEq<O> + Eq,
        O: core::fmt::Debug,
        F: Fn(&I) -> O,
    requires
        forall|i: int| 0 <= i < cases@.len() ==> call_requires(func, (&(#[trigger] cases@[i]).0,)),
    ensures
        match r {
            Ok(_) => forall|i: int|
                0 <= i < cases@.len() ==> passes(func, &(#[trigger] cases@[i]).0, &cases@[i].1),
            Err(failure) => {
                &&& failure.case < cases@.len()
                &&& failure.stage == Stage::Solving
                &&& forall|i: int|
                    0 <= i < failure.case ==> passes(func, &(#[trigger] cases@[i]).0, &cases@[i].1)
                &&& exists|text: Seq<char>|
                    cases@[failure.case as int].0.shown(text) && #[trigger] fails(
                        func,
                        &cases@[failure.case as int].0,
                        &cases@[failure.case as int].1,
                        failure.case as nat,
                        text,
                        failure.message@,
                    )
            },
        },
{
    let mut i: usize = 0;
    while i < cases.len()
        invariant
            i <= cases@.len(),
            forall|j: int| 0 <= j < cases@.len() ==> call_requires(func, (&(#[trigger] cases@[j]).0,)),
            forall|j: int| 0 <= j < i ==> passes(func, &(#[trigger] cases@[j]).0, &cases@[j].1),
        decreases cases@.len() - i,
    {
        let case = &cases[i];
        let answer = func(&case.0);
        if case.1 != answer {
            let expected = debug_of(&case.1);
            let actual = debug_of(&answer);
            let text = case.0.display();
            let message = mismatch_report(i, text.as_str(), expected.as_str(), actual.as_str());
            let failure = TestFailure { case: i, stage: Stage::Solving, message };
            assert(fails(
                func,
                &cases@[failure.case as int].0,
                &cases@[failure.case as int].1,
                failure.case as nat,
                text@,
                failure.message@,
            ));
            return Err(failure);
        }
        assert(passes(func, &case.0, &case.1));
        i += 1;
    }
    Ok(())
}

/// Runs `func` on the input of each case, in order, until an answer is not
/// the expected one; reports that case. Inputs are shown by their `Display`.
pub fn run_test_pretty<I, E, O, F>(func: F, cases: &[(I, E)]) -> (r: Result<(), TestFailure>)
    where
        I: core::fmt::Debug + Sized + core::fmt::Display,
        E: core::fmt::Debug + PartialEq<O> + Eq,
        O: core::fmt::Debug,
        F: Fn(&I) -> O,
    requires
        forall|i: int| 0 <= i < cases@.len() ==> call_requires(func, (&(#[trigger] cases@[i]).0,)),
    ensures
        match r {
            Ok(_) => forall|i: int|
                0 <= i < cases@.len() ==> passes(func, &(#[trigger] cases@[i]).0, &cases@[i].1),
            Err(failure) => {
                &&& failure.case < cases@.len()
                &&& failure.stage == Stage::Solving
                &&& forall|i: int|
                    0 <= i < failure.case ==> passes(func, &(#[trigger] cases@[i]).0, &cases@[i].1)
                &&& exists|text: String|
                    to_string_from_display_ensures::<I>(&cases@[failure.case as int].0, text)
                        && #[trigger] fails(
                        func,
                        &cases@[failure.case as int].0,
                        &cases@[failure.case as int].1,
                        failure.case as nat,
                        text@,
                        failure.message@,
                    )
            },
        },
{
    let mut i: usize = 0;
    while i < cases.len()
        invariant
            i <= cases@.len(),
            forall|j: int| 0 <= j < cases@.len() ==> call_requires(func, (&(#[trigger] cases@[j]).0,)),
            forall|j: int| 0 <= j < i ==> passes(func, &(#[trigger] cases@[j]).0, &cases@[j].1),
        decreases cases@.len() - i,
    {
        let case = &cases[i];
        let answer = func(&case.0);
        if case.1 != answer {
            let expected = debug_of(&case.1);
            let actual = debug_of(&answer);
            let text = case.0.to_string();
            let message = mismatch_report(i, text.as_str(), expected.as_str(), actual.as_str());
            let failure = TestFailure { case: i, stage: Stage::Solving, message };
            assert(fails(
                func,
                &cases@[failure.case as int].0,
                &cases@[failure.case as int].1,
                failure.case as nat,
                text@,
                failure.message@,
            ));
            return Err(failure);
        }
        assert(passes(func, &case.0, &case.1));
        i += 1;
    }
    Ok(())
}

/// Whether `day` can give, for `part` of `input`, an answer that `expected`
/// equals.
pub open spec fn day_passes<D: AoCDay, Ans: PartialEq<D::Answer>>(
    day: D,
    part: DayPart,
    input: Seq<char>,
    expected: &Ans,
) -> bool {
    exists|answer: D::Answer| #[trigger]
        day.answers(part, input, Ok(answer)) && (Ans::obeys_eq_spec() ==> expected.eq_spec(&answer))
}

/// Whether `outcome` is not what `expected` asks for, and `got` shows it: an
/// answer that `expected` does not equal, as its `Debug` writes it, or a
/// failure with `got` as its message.
pub open spec fn wrong<A: core::fmt::Debug, Ans: PartialEq<A>>(
    outcome: Result<A, DayError>,
    expected: &Ans,
    got: Seq<char>,
) -> bool {
    match outcome {
        Ok(answer) => (Ans::obeys_eq_spec() ==> !expected.eq_spec(&answer)) && debug_shows(
            &answer,
            got,
        ),
        Err(error) => error.shown_as(got),
    }
}

/// Whether `failure` reports what `day` did with `part` of `input` where
/// `expected` was due: that it refused the input, or that solving gave
/// something else.
pub open spec fn day_fails<D: AoCDay, Ans: core::fmt::Debug + PartialEq<D::Answer>>(
    day: D,
    part: DayPart,
    input: Seq<char>,
    expected: &Ans,
    failure: TestFailure,
) -> bool {
    match failure.stage {
        Stage::Parsing => exists|error: DayError, payload: Seq<char>|
            #![trigger day.refuses(input, error), reports_abort(payload, input, failure.message@)]
            {
                &&& day.refuses(input, error)
                &&& error.shown_as(payload)
                &&& reports_abort(payload, input, failure.message@)
            },
        Stage::Solving => exists|
            outcome: Result<D::Answer, DayError>,
            due: Seq<char>,
            got: Seq<char>,
        |
            #![trigger day.answers(part, input, outcome), reports_mismatch(failure.case as nat, input, due, got, failure.message@)]
            {
                &&& day.answers(part, input, outcome)
                &&& wrong(outcome, expected, got)
                &&& debug_shows(expected, due)
                &&& reports_mismatch(failure.case as nat, input, due, got, failure.message@)
            },
    }
}

/// Whether `parsed` is a thing that the `parse` of `day` can make of `input`.
pub open spec fn parse_gives<D: AoCDay>(
    day: D,
    input: Seq<char>,
    parsed: Result<D::Data<'_>, DayError>,
) -> bool {
    match parsed {
        Ok(data) => day.parsed(input, data),
        Err(error) => day.refuses(input, error),
    }
}

/// Judges one case of a table, number `case`, given what the day's `parse`
/// made of `input`: solves the part and compares the answer with the expected
/// one. A parse that failed is reported with its message and the input.
pub fn judge_case<Day, Ans>(
    day: &Day,
    part: DayPart,
    case: usize,
    input: &str,
    parsed: Result<Day::Data<'_>, DayError>,
    expected: &Ans,
) -> (r: Result<(), TestFailure>)
    where
        Day: AoCDay,
        Ans: core::fmt::Debug + PartialEq<Day::Answer> + Eq,
    ensures
        r is Ok ==> parsed is Ok,
        r matches Err(failure) ==> failure.case == case && (failure.stage == Stage::Parsing
            <==> parsed is Err),
        r matches Err(failure) ==> (parsed matches Err(error) ==> exists|payload: Seq<char>|
            error.shown_as(payload) && #[trigger] reports_abort(
                payload,
                input@,
                failure.message@,
            )),
        parse_gives(*day, input@, parsed) ==> match r {
            Ok(_) => day_passes(*day, part, input@, expected),
            Err(failure) => day_fails(*day, part, input@, expected, failure),
        },
{
    match parsed {
        Err(error) => {
            let payload = error.message();
            let message = parse_abort_message(payload.as_str(), input);
            let failure = TestFailure { case, stage: Stage::Parsing, message };
            assert(error.shown_as(payload@) && reports_abort(payload@, input@, failure.message@));
            Err(failure)
        },
        Ok(mut data) => {
            let ghost consistent = day.parsed(input@, data);
            let outcome = solve(day, part, &mut data);
            let ghost seen = outcome;
            assert(consistent ==> day.answers(part, input@, seen));
            let actual = match outcome {
                Ok(answer) => {
                    if *expected != answer {
                        Some(debug_of(&answer))
                    } else {
                        None
                    }
                },
                Err(error) => Some(error.message()),
            };
            match actual {
                Some(got) => {
                    let due = debug_of(expected);
                    let message = mismatch_report(case, input, due.as_str(), got.as_str());
                    let failure = TestFailure { case, stage: Stage::Solving, message };
                    assert(wrong(seen, expected, got@));
                    assert(reports_mismatch(
                        failure.case as nat,
                        input@,
                        due@,
                        got@,
                        failure.message@,
                    ));
                    assert(consistent ==> day_fails(*day, part, input@, expected, failure));
                    Err(failure)
                },
                None => Ok(()),
            }
        },
    }
}

/// Tests one part of a day: parses the input of each case, solves the part
/// and compares the answer with the expected one, in order, until a case
/// fails; reports that case.
pub fn test_runner<'i, Day, Ans>(day: Day, part: DayPart, cases: &[(&'i str, Ans)]) -> (r: Result<
    (),
    TestFailure,
>)
    where
        Day: AoCDay,
        Ans: core::fmt::Debug + PartialEq<Day::Answer> + Eq,
    ensures
        match r {
            Ok(_) => forall|i: int|
                0 <= i < cases@.len() ==> day_passes(
                    day,
                    part,
                    (#[trigger] cases@[i]).0@,
                    &cases@[i].1,
                ),
            Err(failure) => {
                &&& failure.case < cases@.len()
                &&& forall|i: int|
                    0 <= i < failure.case ==> day_passes(
                        day,
                        part,
                        (#[trigger] cases@[i]).0@,
                        &cases@[i].1,
                    )
                &&& day_fails(
                    day,
                    part,
                    cases@[failure.case as int].0@,
                    &cases@[failure.case as int].1,
                    failure,
                )
            },
        },
{
    let mut i: usize = 0;
    while i < cases.len()
        invariant
            i <= cases@.len(),
            forall|j: int|
                0 <= j < i ==> day_passes(day, part, (#[trigger] cases@[j]).0@, &cases@[j].1),
        decreases cases@.len() - i,
    {
        let input: &str = cases[i].0;
        let parsed = day.parse(input);
        match judge_case(&day, part, i, input, parsed, &cases[i].1) {
            Err(failure) => {
                return Err(failure);
            },
            Ok(_) => {},
        }
        i += 1;
    }
    Ok(())
}

} // verus!
