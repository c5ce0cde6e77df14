//! Running a day: where its input comes from, which parts run and how often,
//! and what is printed.

use crate::aocday::{solve, AoCDay, DayPart};
use crate::error_handling::DayError;
use crate::text::{decimal, decimal_string};
use vstd::prelude::*;
use vstd::string::*;

verus! {

/// Where a run takes the puzzle input from.
#[derive(Debug, Clone, PartialEq, Eq)]
pub enum InputSource {
    /// The text that was built into the program.
    Embedded,
    /// The file of this name.
    File(String),
    /// Standard input, read to its end.
    Stdin,
}

/// The settings of a run.
#[derive(Debug, Clone)]
pub struct RunConfiguration {
    pub input_source: InputSource,
    /// The only part to run; `None` runs both.
    pub selected_part: Option<DayPart>,
    /// How often the parts run: at least once.
    pub repeat_count: usize,
    /// Whether the input is parsed anew before each repetition, not once.
    pub reparse_each_repeat: bool,
    /// Whether nothing is printed.
    pub quiet: bool,
}

/// The file name that stands for standard input.
pub open spec fn stdin_name() -> Seq<char> {
    seq!['-']
}

/// Whether one of `names` stands for standard input.
pub open spec fn names_stdin(names: Seq<Seq<char>>) -> bool {
    exists|i: int| 0 <= i < names.len() && #[trigger] names[i] == stdin_name()
}

/// Where the input comes from, given the file names that the invocation
/// named, in their order: from standard input if one of them is `-`, else from
/// the file named last, else from the embedded text.
pub open spec fn resolved(names: Seq<String>) -> InputSource {
    if names_stdin(Seq::new(names.len(), |i: int| names[i]@)) {
        InputSource::Stdin
    } else if names.len() > 0 {
        InputSource::File(names.last())
    } else {
        InputSource::Embedded
    }
}

/// The only part that runs where the flags for part one and part two are
/// `one` and `two`: the flagged part if exactly one flag is set. Else both run.
pub open spec fn selection(one: bool, two: bool) -> Option<DayPart> {
    if one && !two {
        Some(DayPart::Part1)
    } else if two && !one {
        Some(DayPart::Part2)
    } else {
        None
    }
}

/// Whether `part` runs where `selected` is the selected part.
pub open spec fn runs(selected: Option<DayPart>, part: DayPart) -> bool {
    selected is None || selected == Some(part)
}

/// The parts that run in one repetition, in their order.
pub open spec fn round(selected: Option<DayPart>) -> Seq<DayPart> {
    match selected {
        None => seq![DayPart::Part1, DayPart::Part2],
        Some(part) => seq![part],
    }
}

/// The parts that run in `repeats` repetitions, in their order.
pub open spec fn scheduled(selected: Option<DayPart>, repeats: nat) -> Seq<DayPart>
    decreases repeats,
{
    if repeats == 0 {
        Seq::empty()
    } else {
        scheduled(selected, (repeats - 1) as nat) + round(selected)
    }
}

/// How often `part` stands in `parts`.
pub open spec fn times(parts: Seq<DayPart>, part: DayPart) -> nat
    decreases parts.len(),
{
    if parts.len() == 0 {
        0
    } else if parts.last() == part {
        times(parts.drop_last(), part) + 1
    } else {
        times(parts.drop_last(), part)
    }
}

/// The line that tells the answer of a part.
pub open spec fn report_line(day: u8, part: DayPart, answer: Seq<char>) -> Seq<char> {
    "Day "@ + decimal(day as nat) + " Part "@ + decimal(part.number()) + ": "@ + answer
}

/// Decides where the input comes from, given the file names that the
/// invocation named, in their order.
pub fn resolve_input(names: &Vec<String>) -> (source: InputSource)
    ensures
        source == resolved(names@),
{
    proof {
        reveal_strlit("-");
        assert("-"@ =~= stdin_name());
    }
    let ghost views = Seq::new(names@.len(), |i: int| names@[i]@);
    let stdin = String::from_str("-");
    let mut i: usize = 0;
    while i < names.len()
        invariant
            i <= names@.len(),
            stdin@ == stdin_name(),
            views == Seq::new(names@.len(), |i: int| names@[i]@),
            forall|j: int| 0 <= j < i ==> #[trigger] views[j] != stdin_name(),
        decreases names@.len() - i,
    {
        if names[i] == stdin {
            assert(views[i as int] == stdin_name());
            return InputSource::Stdin;
        }
        i += 1;
    }
    if names.len() > 0 {
        InputSource::File(names[names.len() - 1].clone())
    } else {
        InputSource::Embedded
    }
}

/// Decides which part runs alone, given the flags for part one and part two.
pub fn select_parts(one: bool, two: bool) -> (selected: Option<DayPart>)
    ensures
        selected == selection(one, two),
{
    if one && !two {
        Some(DayPart::Part1)
    } else if two && !one {
        Some(DayPart::Part2)
    } else {
        None
    }
}

/// What a run did.
#[derive(Debug)]
pub struct RunLog<A> {
    /// How often the input was parsed.
    pub parses: usize,
    /// Each part that ran, with its answer, in the order of running.
    pub answers: Vec<(DayPart, A)>,
    /// The lines to print, in their order.
    pub lines: Vec<String>,
}

/// The parts of `answers`, in their order.
pub open spec fn parts_of<A>(answers: Seq<(DayPart, A)>) -> Seq<DayPart> {
    Seq::new(answers.len(), |i: int| answers[i].0)
}

/// Whether `line` tells that `part` of `day` gave `answer`.
pub open spec fn tells<D: AoCDay>(day: D, part: DayPart, answer: D::Answer, line: Seq<char>) -> bool {
    exists|n: u8, text: String|
        #![trigger day.numbered(n), to_string_from_display_ensures::<D::Answer>(&answer, text)]
        {
            &&& day.numbered(n)
            &&& to_string_from_display_ensures::<D::Answer>(&answer, text)
            &&& line == report_line(n, part, text@)
        }
}

/// Whether `answers` are answers of `day` for `input`, and `lines` what is
/// printed of them: nothing where `quiet` is set, and else a line for each.
pub open spec fn logged<D: AoCDay>(
    day: D,
    input: Seq<char>,
    quiet: bool,
    answers: Seq<(DayPart, D::Answer)>,
    lines: Seq<String>,
) -> bool {
    &&& forall|k: int|
        0 <= k < answers.len() ==> day.answers(
            (#[trigger] answers[k]).0,
            input,
            Ok(answers[k].1),
        )
    &&& quiet ==> lines.len() == 0
    &&& !quiet ==> lines.len() == answers.len() && forall|k: int|
        0 <= k < answers.len() ==> tells(day, answers[k].0, answers[k].1, (#[trigger] lines[k])@)
}

/// Whether `error` can be how a run of `day` on `input` fails: the failure of
/// the parse, or of a part that runs.
pub open spec fn stops<D: AoCDay>(
    day: D,
    input: Seq<char>,
    selected: Option<DayPart>,
    error: DayError,
) -> bool {
    ||| day.refuses(input, error)
    ||| exists|part: DayPart| runs(selected, part) && #[trigger] day.answers(part, input, Err(error))
}

/// The line `Day <day> Part <number>: <answer>`.
pub fn report_text(day: u8, part: DayPart, answer: &str) -> (line: String)
    ensures
        line@ == report_line(day, part, answer@),
{
    proof {
        reveal_strlit("1");
        reveal_strlit("2");
        assert("1"@ =~= decimal(1));
        assert("2"@ =~= decimal(2));
    }
    let number = decimal_string(day as u64);
    let mut line = String::from_str("Day ");
    line.append(number.as_str());
    line.append(" Part ");
    match part {
        DayPart::Part1 => line.append("1"),
        DayPart::Part2 => line.append("2"),
    }
    line.append(": ");
    line.append(answer);
    assert(line@ =~= report_line(day, part, answer@));
    line
}

/// Solves `part` of `day` on `data` and logs the answer, with its line
/// unless `quiet` is set.
fn run_part<D: AoCDay>(
    day: &D,
    part: DayPart,
    data: &mut D::Data<'_>,
    quiet: bool,
    log: &mut RunLog<D::Answer>,
) -> (r: Result<(), DayError>)
    ensures
        final(log).parses == old(log).parses,
        forall|input: Seq<char>| #[trigger]
            day.parsed(input, *old(data)) ==> {
                &&& day.parsed(input, *final(data))
                &&& match r {
                    Ok(_) => {
                        &&& parts_of(final(log).answers@) == parts_of(old(log).answers@).push(part)
                        &&& logged(*day, input, quiet, old(log).answers@, old(log).lines@) ==> logged(
                            *day,
                            input,
                            quiet,
                            final(log).answers@,
                            final(log).lines@,
                        )
                    },
                    Err(error) => day.answers(part, input, Err(error)),
                }
            },
{
    match solve(day, part, data) {
        Err(error) => Err(error),
        Ok(answer) => {
            let ghost before = log.answers@;
            let ghost lines_before = log.lines@;
            if !quiet {
                let text = answer.to_string();
                let n = day.day();
                let line = report_text(n, part, text.as_str());
                assert(tells(*day, part, answer, line@));
                log.lines.push(line);
            }
            log.answers.push((part, answer));
            assert(parts_of(log.answers@) =~= parts_of(before).push(part));
            Ok(())
        },
    }
}

/// Runs the selected parts of `day` once on `data`, part one first.
fn run_round<D: AoCDay>(
    day: &D,
    data: &mut D::Data<'_>,
    selected: Option<DayPart>,
    quiet: bool,
    log: &mut RunLog<D::Answer>,
) -> (r: Result<(), DayError>)
    ensures
        final(log).parses == old(log).parses,
        forall|input: Seq<char>| #[trigger]
            day.parsed(input, *old(data)) ==> {
                &&& day.parsed(input, *final(data))
                &&& match r {
                    Ok(_) => {
                        &&& parts_of(final(log).answers@) == parts_of(old(log).answers@) + round(
                            selected,
                        )
                        &&& logged(*day, input, quiet, old(log).answers@, old(log).lines@) ==> logged(
                            *day,
                            input,
                            quiet,
                            final(log).answers@,
                            final(log).lines@,
                        )
                    },
                    Err(error) => stops(*day, input, selected, error),
                }
            },
{
    let ghost before = parts_of(log.answers@);
    let one = match selected {
        None => true,
        Some(part) => part == DayPart::Part1,
    };
    let two = match selected {
        None => true,
        Some(part) => part == DayPart::Part2,
    };
    if one {
        match run_part(day, DayPart::Part1, data, quiet, log) {
            Err(error) => {
                assert(runs(selected, DayPart::Part1));
                return Err(error);
            },
            Ok(_) => {},
        }
    }
    if two {
        match run_part(day, DayPart::Part2, data, quiet, log) {
            Err(error) => {
                assert(runs(selected, DayPart::Part2));
                return Err(error);
            },
            Ok(_) => {},
        }
    }
    proof {
        assert forall|input: Seq<char>| #[trigger] day.parsed(input, *old(data)) implies parts_of(
            log.answers@,
        ) == before + round(selected) by {
            if one && two {
                assert(before.push(DayPart::Part1).push(DayPart::Part2) =~= before + round(selected));
            } else if one {
                assert(before.push(DayPart::Part1) =~= before + round(selected));
            } else {
                assert(before.push(DayPart::Part2) =~= before + round(selected));
            }
        }
    }
    Ok(())
}

/// Runs `day` on `input` as `config` says: parses the input, once or before
/// each repetition, and runs the selected parts `config.repeat_count` times
/// over. The first failure of the parse or of a part ends the run.
pub fn run_day<D: AoCDay>(day: D, input: &str, config: &RunConfiguration) -> (r: Result<
    RunLog<D::Answer>,
    DayError,
>)
    ensures
        match r {
            Ok(log) => {
                &&& parts_of(log.answers@) == scheduled(
                    config.selected_part,
                    config.repeat_count as nat,
                )
                &&& logged(day, input@, config.quiet, log.answers@, log.lines@)
                &&& log.parses == if config.reparse_each_repeat {
                    config.repeat_count
                } else {
                    1
                }
            },
            Err(error) => stops(day, input@, config.selected_part, error),
        },
{
    let selected = config.selected_part;
    let quiet = config.quiet;
    let mut log: RunLog<D::Answer> = RunLog { parses: 0, answers: Vec::new(), lines: Vec::new() };
    assert(parts_of(log.answers@) =~= scheduled(selected, 0));
    let mut done: usize = 0;
    if config.reparse_each_repeat {
        while done < config.repeat_count
            invariant
                done <= config.repeat_count,
                selected == config.selected_part,
                quiet == config.quiet,
                log.parses == done,
                parts_of(log.answers@) == scheduled(selected, done as nat),
                logged(day, input@, quiet, log.answers@, log.lines@),
            decreases config.repeat_count - done,
        {
            match day.parse(input) {
                Err(error) => {
                    return Err(error);
                },
                Ok(mut data) => {
                    log.parses = log.parses + 1;
                    assert(day.parsed(input@, data));
                    match run_round(&day, &mut data, selected, quiet, &mut log) {
                        Err(error) => {
                            return Err(error);
                        },
                        Ok(_) => {},
                    }
                },
            }
            done += 1;
        }
        Ok(log)
    } else {
        match day.parse(input) {
            Err(error) => Err(error),
            Ok(mut data) => {
                log.parses = 1;
                while done < config.repeat_count
                    invariant
                        done <= config.repeat_count,
                        selected == config.selected_part,
                        quiet == config.quiet,
                        log.parses == 1,
                        day.parsed(input@, data),
                        parts_of(log.answers@) == scheduled(selected, done as nat),
                        logged(day, input@, quiet, log.answers@, log.lines@),
                    decreases config.repeat_count - done,
                {
                    assert(day.parsed(input@, data));
                    match run_round(&day, &mut data, selected, quiet, &mut log) {
                        Err(error) => {
                            return Err(error);
                        },
                        Ok(_) => {},
                    }
                    done += 1;
                }
                Ok(log)
            },
        }
    }
}

/// Runs `day` once on `inputstr`: both parts, or `part` alone.
pub fn run_day_with_input<D: AoCDay>(
    day: D,
    part: Option<DayPart>,
    inputstr: &str,
    quiet: bool,
) -> (r: Result<RunLog<D::Answer>, DayError>)
    ensures
        match r {
            Ok(log) => {
                &&& parts_of(log.answers@) == round(part)
                &&& logged(day, inputstr@, quiet, log.answers@, log.lines@)
                &&& log.parses == 1
            },
            Err(error) => stops(day, inputstr@, part, error),
        },
{
    let config = RunConfiguration {
        input_source: InputSource::Embedded,
        selected_part: part,
        repeat_count: 1,
        reparse_each_repeat: false,
        quiet,
    };
    let r = run_day(day, inputstr, &config);
    proof {
        assert(scheduled(part, 0) =~= Seq::<DayPart>::empty());
        assert(scheduled(part, 1) =~= round(part));
    }
    r
}

impl RunConfiguration {
    /// Whether the settings are in order: the parts run at least once.
    pub open spec fn wf(&self) -> bool {
        self.repeat_count >= 1
    }

    /// The settings that the arguments of an invocation ask for: the file
    /// names it named, the number of repetitions, and its four flags. There
    /// are none where it asks for no repetition at all.
    pub fn new(
        input_files: &Vec<String>,
        quiet: bool,
        repeat: usize,
        parse_per_run: bool,
        one: bool,
        two: bool,
    ) -> (r: Option<RunConfiguration>)
        ensures
            r is Some <==> repeat >= 1,
            r matches Some(config) ==> {
                &&& config.wf()
                &&& config.input_source == resolved(input_files@)
                &&& config.selected_part == selection(one, two)
                &&& config.repeat_count == repeat
                &&& config.reparse_each_repeat == parse_per_run
                &&& config.quiet == quiet
            },
    {
        if repeat == 0 {
            None
        } else {
            Some(
                RunConfiguration {
                    input_source: resolve_input(input_files),
                    selected_part: select_parts(one, two),
                    repeat_count: repeat,
                    reparse_each_repeat: parse_per_run,
                    quiet,
                },
            )
        }
    }
}

/// A name for standard input wins over every file name, and a file name
/// over the embedded text.
pub proof fn lemma_input_precedence(names: Seq<String>, i: int)
    requires
        0 <= i < names.len(),
    ensures
        names[i]@ == stdin_name() ==> resolved(names) is Stdin,
        !(resolved(names) is Embedded),
{
    let views = Seq::new(names.len(), |i: int| names[i]@);
    if names[i]@ == stdin_name() {
        assert(views[i] == stdin_name());
    }
}

/// How often `part` stands in `a + b`.
pub proof fn lemma_times_concat(a: Seq<DayPart>, b: Seq<DayPart>, part: DayPart)
    ensures
        times(a + b, part) == times(a, part) + times(b, part),
    decreases b.len(),
{
    if b.len() == 0 {
        assert(a + b =~= a);
    } else {
        assert((a + b).drop_last() =~= a + b.drop_last());
        lemma_times_concat(a, b.drop_last(), part);
    }
}

/// In `repeats` repetitions a part that runs runs `repeats` times, and a
/// part that does not run never.
pub proof fn lemma_scheduled_times(selected: Option<DayPart>, repeats: nat, part: DayPart)
    ensures
        times(scheduled(selected, repeats), part) == if runs(selected, part) {
            repeats
        } else {
            0
        },
    decreases repeats,
{
    if repeats > 0 {
        lemma_scheduled_times(selected, (repeats - 1) as nat, part);
        lemma_times_concat(scheduled(selected, (repeats - 1) as nat), round(selected), part);
        let r = round(selected);
        match selected {
            None => {
                assert(r.drop_last() =~= seq![DayPart::Part1]);
                assert(r.drop_last().drop_last() =~= Seq::<DayPart>::empty());
                assert(times(r.drop_last().drop_last(), part) == 0);
                assert(times(r.drop_last(), part) == if part == DayPart::Part1 {
                    1nat
                } else {
                    0nat
                });
            },
            Some(only) => {
                assert(r.drop_last() =~= Seq::<DayPart>::empty());
                assert(times(r.drop_last(), part) == 0);
            },
        }
    }
}

/// Which parts the two flags make run: one flag alone its part only, both
/// flags or none both parts.
pub proof fn lemma_selection_exclusive(one: bool, two: bool)
    ensures
        one && !two ==> runs(selection(one, two), DayPart::Part1) && !runs(
            selection(one, two),
            DayPart::Part2,
        ),
        two && !one ==> runs(selection(one, two), DayPart::Part2) && !runs(
            selection(one, two),
            DayPart::Part1,
        ),
        one == two ==> runs(selection(one, two), DayPart::Part1) && runs(
            selection(one, two),
            DayPart::Part2,
        ),
{
}

} // verus!
