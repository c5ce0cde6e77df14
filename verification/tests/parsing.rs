use aoch::parsing::{
    from_grouped_lines, from_iter, from_lines, from_lines_with, trimmed, try_from_lines_with,
};
use std::num::ParseIntError;

fn number(s: &str) -> Result<u32, ParseIntError> {
    s.parse::<u32>()
}

#[test]
fn trimmed_takes_white_space_off_both_ends() {
    assert_eq!(trimmed("  1-3 a: abcde \t"), Some("1-3 a: abcde"));
    assert_eq!(trimmed("abc"), Some("abc"));
    assert_eq!(trimmed("\u{a0}x\u{2003}"), Some("x"));
}

#[test]
fn trimmed_has_nothing_for_white_space() {
    assert_eq!(trimmed(""), None);
    assert_eq!(trimmed(" \t\r\n"), None);
    assert_eq!(trimmed("\u{3000}"), None);
}

#[test]
fn from_lines_with_maps_the_lines_with_content() {
    let lengths = from_lines_with("ab\n\n  cde  \r\n \nf", |line| line.len());
    assert_eq!(lengths, vec![2, 3, 1]);
}

#[test]
fn from_lines_with_hands_over_trimmed_lines() {
    let lines = from_lines_with("\n1-3 a: abcde\n1-3 b: cdefg\n2-9 c: ccccccccc\n", |line| {
        line.to_string()
    });
    assert_eq!(lines, vec!["1-3 a: abcde", "1-3 b: cdefg", "2-9 c: ccccccccc"]);
}

#[test]
fn from_lines_with_counts_its_calls() {
    let mut calls = 0;
    let out = from_lines_with("a\n\nb\n", |_| {
        calls += 1;
        calls
    });
    assert_eq!(out, vec![1, 2]);
}

#[test]
fn from_lines_with_keeps_a_lone_carriage_return_out() {
    let lines = from_lines_with("a\rb\r\nc\r", |line| line.to_string());
    assert_eq!(lines, vec!["a\rb", "c"]);
}

#[test]
fn try_from_lines_with_gives_the_values() {
    let numbers = try_from_lines_with(" 1\n22 \n\n333\n", number);
    assert_eq!(numbers, vec![1, 22, 333]);
}

#[test]
fn from_lines_parses_every_line() {
    assert_eq!(from_lines("1\n 2 \n\n3", number), Ok(vec![1, 2, 3]));
    assert_eq!(from_lines("", number), Ok(vec![]));
    assert_eq!(from_lines(" \n\t\n", number), Ok(vec![]));
}

#[test]
fn from_lines_stops_at_the_first_failure() {
    let mut seen: Vec<String> = Vec::new();
    let r = from_lines("1\nx\n3\n", |line| {
        seen.push(line.to_string());
        line.parse::<u32>()
    });
    assert_eq!(r, Err("x".parse::<u32>().unwrap_err()));
    assert_eq!(seen, vec!["1", "x"]);
}

#[test]
fn from_lines_reports_the_first_of_two_failures() {
    let r: Result<Vec<u8>, String> = from_lines("1\nfirst\nsecond\n", |line| {
        line.parse::<u8>().map_err(|_| line.to_string())
    });
    assert_eq!(r, Err("first".to_string()));
}

#[test]
fn from_iter_parses_the_strings_with_content() {
    let items = vec![" 4 ", "", "5", "  ", "6"];
    assert_eq!(from_iter(items.into_iter(), number), Ok(vec![4, 5, 6]));
}

#[test]
fn from_iter_fails_as_the_parser_fails() {
    let items = vec!["4", "-", "6"];
    assert_eq!(from_iter(items.into_iter(), number), Err("-".parse::<u32>().unwrap_err()));
}

#[test]
fn from_iter_takes_a_split() {
    assert_eq!(from_iter("1, 2,3 ,".split(','), number), Ok(vec![1, 2, 3]));
}

#[test]
fn from_grouped_lines_parses_group_by_group() {
    let input = "1\n2\n\n3\n\n\n\n 4 \n5\n6\n";
    assert_eq!(
        from_grouped_lines(input, number),
        Ok(vec![vec![1, 2], vec![3], vec![4, 5, 6]])
    );
}

#[test]
fn from_grouped_lines_skips_groups_of_white_space() {
    assert_eq!(from_grouped_lines("", number), Ok(vec![]));
    assert_eq!(from_grouped_lines("\n\n \n\n7", number), Ok(vec![vec![7]]));
}

#[test]
fn from_grouped_lines_splits_at_the_first_pair_of_line_feeds() {
    let groups: Result<Vec<Vec<String>>, ()> =
        from_grouped_lines("a\n\n\nb", |line| Ok(line.to_string()));
    assert_eq!(groups, Ok(vec![vec!["a".to_string()], vec!["b".to_string()]]));
}

#[test]
fn from_grouped_lines_stops_at_the_first_failure() {
    let mut seen: Vec<String> = Vec::new();
    let r = from_grouped_lines("1\n2\n\nx\n3\n\n4\n", |line| {
        seen.push(line.to_string());
        line.parse::<u32>()
    });
    assert_eq!(r, Err("x".parse::<u32>().unwrap_err()));
    assert_eq!(seen, vec!["1", "2", "x"]);
}
