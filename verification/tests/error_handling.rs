use aoch::aocday::AoCDay;
use aoch::day::Day;
use aoch::error_handling::{structured_text, Cause, DayError, WrappedError};
use std::borrow::Cow;

fn io_error() -> std::io::Error {
    std::io::Error::new(std::io::ErrorKind::NotFound, "gone")
}

#[test]
fn generic_takes_borrowed_and_owned_messages() {
    assert_eq!(DayError::generic("borrowed").message(), "borrowed");
    assert_eq!(DayError::generic(String::from("owned")).message(), "owned");
    assert_eq!(DayError::generic(Cow::Borrowed("cow")).message(), "cow");
    assert!(matches!(DayError::generic("x"), DayError::Generic(_)));
}

#[test]
fn from_debug_keeps_the_debug_text() {
    assert_eq!(DayError::from_debug(Some(5)).message(), "Some(5)");
    assert_eq!(DayError::from_debug("quoted").message(), "\"quoted\"");
    assert!(matches!(DayError::from_debug(1), DayError::Generic(_)));
}

#[test]
fn boxed_keeps_both_texts_of_the_error() {
    let error = DayError::boxed(io_error());
    match &error {
        DayError::Wrapped(inner) => {
            assert_eq!(inner.display, "gone");
            assert_eq!(inner.debug, format!("{:?}", io_error()));
        }
        _ => panic!("not wrapped"),
    }
    assert_eq!(error.message(), format!("Wrapped({:?})", io_error()));
}

#[test]
fn message_of_a_structured_error_is_name_and_payload() {
    assert_eq!(DayError::Unimplemented.message(), "Unimplemented");
    assert_eq!(DayError::IOError(io_error()).message(), format!("IOError({:?})", io_error()));
    let int = "x".parse::<u8>().unwrap_err();
    assert_eq!(
        DayError::ParseInt(int.clone()).message(),
        "ParseInt(ParseIntError { kind: InvalidDigit })"
    );
    let float = "x".parse::<f64>().unwrap_err();
    assert_eq!(
        DayError::ParseFloat(float.clone()).message(),
        format!("ParseFloat({:?})", float)
    );
    let wrapped = WrappedError { debug: "Deep { x: 1 }".to_string(), display: "deep".to_string() };
    assert_eq!(DayError::Wrapped(wrapped).message(), "Wrapped(Deep { x: 1 })");
}

#[test]
fn structured_text_puts_the_payload_in_brackets() {
    assert_eq!(structured_text("IOError", "Kind(NotFound)"), "IOError(Kind(NotFound))");
    assert_eq!(structured_text("", ""), "()");
}

#[test]
fn source_is_the_wrapped_failure() {
    assert!(DayError::Unimplemented.source().is_none());
    assert!(DayError::generic("x").source().is_none());
    assert!(matches!(DayError::IOError(io_error()).source(), Some(Cause::IO(_))));
    let int = "x".parse::<u8>().unwrap_err();
    match DayError::ParseInt(int.clone()).source() {
        Some(Cause::ParseInt(e)) => assert_eq!(*e, int),
        _ => panic!("no source"),
    }
    let float = "x".parse::<f32>().unwrap_err();
    assert!(matches!(DayError::ParseFloat(float).source(), Some(Cause::ParseFloat(_))));
    match DayError::boxed(io_error()).source() {
        Some(Cause::Wrapped(inner)) => assert_eq!(inner.display, "gone"),
        _ => panic!("no source"),
    }
}

#[test]
fn failures_convert_into_their_variants() {
    assert!(matches!(DayError::from(io_error()), DayError::IOError(_)));
    assert!(matches!(DayError::from("x".parse::<i32>().unwrap_err()), DayError::ParseInt(_)));
    assert!(matches!(DayError::from("x".parse::<f64>().unwrap_err()), DayError::ParseFloat(_)));
    assert_eq!(DayError::from("text").message(), "text");
    assert_eq!(DayError::from(String::from("text")).message(), "text");
    assert_eq!(DayError::from(Cow::Borrowed("text")).message(), "text");
}

#[test]
fn the_unsolved_day_parses_lines_and_solves_nothing() {
    let day = Day { number: 9 };
    assert_eq!(day.day(), 9);
    let mut data = day.parse("\n1-3 a: abcde\n  1-3 b: cdefg\n\n2-9 c: ccccccccc\n").unwrap();
    assert_eq!(data, vec!["1-3 a: abcde", "1-3 b: cdefg", "2-9 c: ccccccccc"]);
    assert!(matches!(day.part1(&mut data), Err(DayError::Unimplemented)));
    assert!(matches!(day.part2(&mut data), Err(DayError::Unimplemented)));
    assert_eq!(data.len(), 3);
}
