use aoch::aocday::{AoCDay, DayPart};
use aoch::day::Day;
use aoch::error_handling::DayError;
use aoch::running::{
    report_text, resolve_input, run_day, run_day_with_input, select_parts, InputSource,
    RunConfiguration,
};
use std::cell::Cell;

/// A day that sums the numbers of its input, and fails on part two where the
/// sum is odd.
#[derive(Debug, Clone, Copy)]
struct Sum;

/// `Sum`, counting how often it parsed.
#[derive(Debug, Clone, Copy)]
struct Counted<'a> {
    parses: &'a Cell<usize>,
}

impl<'a> AoCDay for Counted<'a> {
    type Data<'i> = Vec<u32>;
    type Answer = u32;

    fn day(&self) -> u8 {
        Sum.day()
    }

    fn parse<'i>(&self, input: &'i str) -> Result<Vec<u32>, DayError> {
        self.parses.set(self.parses.get() + 1);
        Sum.parse(input)
    }

    fn part1(&self, data: &mut Vec<u32>) -> Result<u32, DayError> {
        Sum.part1(data)
    }

    fn part2(&self, data: &mut Vec<u32>) -> Result<u32, DayError> {
        Sum.part2(data)
    }
}

impl AoCDay for Sum {
    type Data<'i> = Vec<u32>;
    type Answer = u32;

    fn day(&self) -> u8 {
        7
    }

    fn parse<'i>(&self, input: &'i str) -> Result<Vec<u32>, DayError> {
        match aoch::parsing::from_lines(input, |line| line.parse::<u32>()) {
            Ok(numbers) => Ok(numbers),
            Err(e) => Err(DayError::from(e)),
        }
    }

    fn part1(&self, data: &mut Vec<u32>) -> Result<u32, DayError> {
        Ok(data.iter().sum())
    }

    fn part2(&self, data: &mut Vec<u32>) -> Result<u32, DayError> {
        let sum: u32 = data.iter().sum();
        if sum % 2 == 1 {
            return Err(DayError::generic("odd"));
        }
        Ok(sum / 2)
    }
}

fn names(list: &[&str]) -> Vec<String> {
    list.iter().map(|s| s.to_string()).collect()
}

fn config(selected_part: Option<DayPart>, repeat_count: usize, reparse: bool, quiet: bool) -> RunConfiguration {
    RunConfiguration {
        input_source: InputSource::Embedded,
        selected_part,
        repeat_count,
        reparse_each_repeat: reparse,
        quiet,
    }
}

fn parts(answers: &[(DayPart, u32)]) -> Vec<DayPart> {
    answers.iter().map(|a| a.0).collect()
}

#[test]
fn no_file_name_means_the_embedded_text() {
    assert_eq!(resolve_input(&names(&[])), InputSource::Embedded);
}

#[test]
fn a_file_name_wins_over_the_embedded_text() {
    assert_eq!(
        resolve_input(&names(&["input/07.txt"])),
        InputSource::File("input/07.txt".to_string())
    );
    assert_eq!(resolve_input(&names(&["a", "b"])), InputSource::File("b".to_string()));
    assert_eq!(resolve_input(&names(&["--"])), InputSource::File("--".to_string()));
    assert_eq!(resolve_input(&names(&[""])), InputSource::File("".to_string()));
}

#[test]
fn a_dash_wins_over_every_file_name() {
    assert_eq!(resolve_input(&names(&["-"])), InputSource::Stdin);
    assert_eq!(resolve_input(&names(&["-", "input.txt"])), InputSource::Stdin);
    assert_eq!(resolve_input(&names(&["input.txt", "-"])), InputSource::Stdin);
    assert_eq!(resolve_input(&names(&["a", "-", "b"])), InputSource::Stdin);
}

#[test]
fn one_flag_alone_selects_its_part() {
    assert_eq!(select_parts(true, false), Some(DayPart::Part1));
    assert_eq!(select_parts(false, true), Some(DayPart::Part2));
    assert_eq!(select_parts(false, false), None);
    assert_eq!(select_parts(true, true), None);
}

#[test]
fn configuration_follows_the_arguments() {
    let c = RunConfiguration::new(&names(&["-"]), true, 3, true, false, true).unwrap();
    assert_eq!(c.input_source, InputSource::Stdin);
    assert_eq!(c.selected_part, Some(DayPart::Part2));
    assert_eq!(c.repeat_count, 3);
    assert!(c.reparse_each_repeat);
    assert!(c.quiet);
    let d = RunConfiguration::new(&names(&[]), false, 1, false, false, false).unwrap();
    assert_eq!(d.input_source, InputSource::Embedded);
    assert_eq!(d.selected_part, None);
    assert!(!d.reparse_each_repeat);
    assert!(!d.quiet);
}

#[test]
fn configuration_needs_a_repetition() {
    assert!(RunConfiguration::new(&names(&[]), false, 0, false, false, false).is_none());
}

#[test]
fn report_text_names_day_part_and_answer() {
    assert_eq!(report_text(7, DayPart::Part1, "42"), "Day 7 Part 1: 42");
    assert_eq!(report_text(25, DayPart::Part2, "a b"), "Day 25 Part 2: a b");
    assert_eq!(report_text(0, DayPart::Part1, ""), "Day 0 Part 1: ");
    assert_eq!(report_text(255, DayPart::Part2, "x"), "Day 255 Part 2: x");
}

#[test]
fn both_parts_run_once_by_default() {
    let log = run_day(Sum, "1\n3\n", &config(None, 1, false, false)).unwrap();
    assert_eq!(log.parses, 1);
    assert_eq!(log.answers, vec![(DayPart::Part1, 4), (DayPart::Part2, 2)]);
    assert_eq!(log.lines, vec!["Day 7 Part 1: 4", "Day 7 Part 2: 2"]);
}

#[test]
fn a_selected_part_runs_alone() {
    let log = run_day(Sum, "1\n3\n", &config(Some(DayPart::Part1), 1, false, false)).unwrap();
    assert_eq!(log.answers, vec![(DayPart::Part1, 4)]);
    assert_eq!(log.lines, vec!["Day 7 Part 1: 4"]);
    let log = run_day(Sum, "1\n3\n", &config(Some(DayPart::Part2), 1, false, false)).unwrap();
    assert_eq!(log.answers, vec![(DayPart::Part2, 2)]);
    assert_eq!(log.lines, vec!["Day 7 Part 2: 2"]);
}

#[test]
fn three_repetitions_run_each_selected_part_three_times() {
    let log = run_day(Sum, "2\n", &config(None, 3, false, false)).unwrap();
    let one = DayPart::Part1;
    let two = DayPart::Part2;
    assert_eq!(parts(&log.answers), vec![one, two, one, two, one, two]);
    assert_eq!(log.lines.len(), 6);
    let log = run_day(Sum, "2\n", &config(select_parts(false, true), 3, false, false)).unwrap();
    assert_eq!(parts(&log.answers), vec![two, two, two]);
    let log = run_day(Sum, "2\n", &config(select_parts(true, false), 3, true, false)).unwrap();
    assert_eq!(parts(&log.answers), vec![one, one, one]);
}

#[test]
fn the_input_is_parsed_once_or_before_each_repetition() {
    let parses = Cell::new(0);
    let day = Counted { parses: &parses };
    let log = run_day(day, "2\n", &config(None, 4, false, true)).unwrap();
    assert_eq!(log.parses, 1);
    assert_eq!(parses.get(), 1);
    let log = run_day(day, "2\n", &config(None, 4, true, true)).unwrap();
    assert_eq!(log.parses, 4);
    assert_eq!(parses.get(), 5);
}

#[test]
fn a_quiet_run_prints_nothing() {
    let log = run_day(Sum, "2\n4\n", &config(None, 2, false, true)).unwrap();
    assert!(log.lines.is_empty());
    assert_eq!(log.answers.len(), 4);
}

#[test]
fn a_failed_parse_ends_the_run() {
    let error = run_day(Sum, "1\nx\n", &config(None, 1, false, false)).unwrap_err();
    assert!(matches!(error, DayError::ParseInt(_)));
    let error = run_day(Sum, "1\nx\n", &config(None, 1, true, false)).unwrap_err();
    assert!(matches!(error, DayError::ParseInt(_)));
}

#[test]
fn a_failed_part_ends_the_run() {
    let error = run_day(Sum, "1\n2\n", &config(None, 2, false, false)).unwrap_err();
    assert_eq!(error.message(), "odd");
    let log = run_day(Sum, "1\n2\n", &config(Some(DayPart::Part1), 2, false, false)).unwrap();
    assert_eq!(log.answers.len(), 2);
}

#[test]
fn an_unsolved_day_fails_as_unimplemented() {
    let error = run_day(Day { number: 1 }, "a\n", &config(None, 1, false, false)).unwrap_err();
    assert!(matches!(error, DayError::Unimplemented));
}

#[test]
fn run_day_with_input_runs_once() {
    let log = run_day_with_input(Sum, None, "5\n5\n", false).unwrap();
    assert_eq!(log.parses, 1);
    assert_eq!(log.lines, vec!["Day 7 Part 1: 10", "Day 7 Part 2: 5"]);
    let log = run_day_with_input(Sum, Some(DayPart::Part2), "5\n5\n", false).unwrap();
    assert_eq!(log.lines, vec!["Day 7 Part 2: 5"]);
    let log = run_day_with_input(Sum, Some(DayPart::Part1), "5\n5\n", true).unwrap();
    assert!(log.lines.is_empty());
    assert_eq!(log.answers, vec![(DayPart::Part1, 10)]);
}

#[test]
fn a_part_is_called_by_its_number() {
    assert_eq!(DayPart::Part1.label(), "Part 1");
    assert_eq!(DayPart::Part2.label(), "Part 2");
    assert!(DayPart::Part1 < DayPart::Part2);
}
