use aoch::alloclog::{allocation_note, frame_label, logs_frame};
use aoch::inputs::{claim_slot, day_type, input_slot, InputError, InputSlot};
use aoch::scaffold::{
    day_folder, day_from_folder, input_path, input_url, member_to_add, plan_day, reconcile_year,
    session_cookie, with_day_name, with_day_number, without_subcommand, Complaint, ManifestView,
    Members, Slot, Year, YearPlan,
};
use aoch::text::parse_small;

fn strings(list: &[&str]) -> Vec<String> {
    list.iter().map(|s| s.to_string()).collect()
}

#[test]
fn day_folder_has_two_digits() {
    assert_eq!(day_folder(1), "day01");
    assert_eq!(day_folder(9), "day09");
    assert_eq!(day_folder(10), "day10");
    assert_eq!(day_folder(25), "day25");
    assert_eq!(day_folder(0), "day00");
    assert_eq!(day_folder(255), "day255");
}

#[test]
fn input_path_has_two_digits() {
    assert_eq!(input_path(3), "input/03.txt");
    assert_eq!(input_path(24), "input/24.txt");
    assert_eq!(input_path(200), "input/200.txt");
}

#[test]
fn input_url_names_year_and_day() {
    assert_eq!(input_url(2022, 7), "https://adventofcode.com/2022/day/7/input");
    assert_eq!(input_url(2015, 25), "https://adventofcode.com/2015/day/25/input");
    assert_eq!(input_url(0, 0), "https://adventofcode.com/0/day/0/input");
    assert_eq!(input_url(-44, 1), "https://adventofcode.com/-44/day/1/input");
    assert_eq!(
        input_url(i64::MIN, 1),
        "https://adventofcode.com/-9223372036854775808/day/1/input"
    );
    assert_eq!(
        input_url(i64::MAX, 1),
        "https://adventofcode.com/9223372036854775807/day/1/input"
    );
}

#[test]
fn session_cookie_carries_the_token() {
    assert_eq!(session_cookie("SECRET-REDACTED"), "session=SECRET-REDACTED; Domain=adventofcode.com");
    assert_eq!(session_cookie(""), "session=; Domain=adventofcode.com");
}

#[test]
fn without_subcommand_drops_the_name_after_cargo() {
    assert_eq!(
        without_subcommand(strings(&["cargo-aoch", "aoch", "new", "3"])),
        strings(&["cargo-aoch", "new", "3"])
    );
    assert_eq!(
        without_subcommand(strings(&["cargo-aoch", "new", "aoch"])),
        strings(&["cargo-aoch", "new", "aoch"])
    );
    assert_eq!(without_subcommand(strings(&["aoch"])), strings(&["aoch"]));
    assert_eq!(without_subcommand(strings(&[])), strings(&[]));
    assert_eq!(
        without_subcommand(strings(&["x", "aoch", "aoch"])),
        strings(&["x", "aoch"])
    );
}

#[test]
fn member_to_add_is_the_folder_unless_it_is_there() {
    assert_eq!(member_to_add(&strings(&[]), 4), Some("day04".to_string()));
    assert_eq!(member_to_add(&strings(&["day01", "day02"]), 3), Some("day03".to_string()));
    assert_eq!(member_to_add(&strings(&["day01", "day02"]), 2), None);
    assert_eq!(member_to_add(&strings(&["day2"]), 2), Some("day02".to_string()));
}

#[test]
fn recorded_year_stands() {
    assert_eq!(
        reconcile_year(Some(2021), Some(2020), 2023),
        YearPlan { year: 2020, write: false, differs: true }
    );
    assert_eq!(
        reconcile_year(Some(2020), Some(2020), 2023),
        YearPlan { year: 2020, write: false, differs: false }
    );
    assert_eq!(
        reconcile_year(None, Some(2019), 2023),
        YearPlan { year: 2019, write: false, differs: false }
    );
}

#[test]
fn missing_year_is_written() {
    assert_eq!(
        reconcile_year(Some(2021), None, 2023),
        YearPlan { year: 2021, write: true, differs: false }
    );
    assert_eq!(
        reconcile_year(None, None, 2023),
        YearPlan { year: 2023, write: true, differs: false }
    );
}

#[test]
fn parse_small_reads_what_the_standard_parser_reads() {
    for text in [
        "0", "7", "07", "007", "25", "255", "256", "999", "0255", "+7", "+", "", "-7", "+-7", "++7",
        " 7", "7 ", "7a", "a7", "1 2", "٣", "²", "1_0", "0x1", "300", "65536", "+255", "+256",
        "00000000000000000000000001",
    ] {
        assert_eq!(parse_small(text), text.parse::<u8>().ok(), "{:?}", text);
    }
    assert_eq!(parse_small("255"), Some(255));
    assert_eq!(parse_small("256"), None);
}

#[test]
fn day_from_folder_takes_the_number_in_the_name() {
    assert_eq!(day_from_folder("day07"), Some(7));
    assert_eq!(day_from_folder("7"), Some(7));
    assert_eq!(day_from_folder("aoc-day-12-treetop"), Some(12));
    assert_eq!(day_from_folder("day 25!"), Some(25));
}

#[test]
fn day_from_folder_needs_one_number() {
    assert_eq!(day_from_folder("day"), None);
    assert_eq!(day_from_folder(""), None);
    assert_eq!(day_from_folder("2020-day07"), None);
    assert_eq!(day_from_folder("day300"), None);
    assert_eq!(day_from_folder("day²"), None);
}

#[test]
fn input_slot_takes_numbered_text_files() {
    assert_eq!(input_slot("01.txt"), InputSlot::Day(0));
    assert_eq!(input_slot("1.txt"), InputSlot::Day(0));
    assert_eq!(input_slot("25.txt"), InputSlot::Day(24));
    assert_eq!(input_slot("+3.txt"), InputSlot::Day(2));
}

#[test]
fn input_slot_refuses_days_out_of_range() {
    assert_eq!(input_slot("0.txt"), InputSlot::OutOfRange(0));
    assert_eq!(input_slot("26.txt"), InputSlot::OutOfRange(26));
    assert_eq!(input_slot("255.txt"), InputSlot::OutOfRange(255));
}

#[test]
fn input_slot_skips_other_files() {
    for name in ["", ".txt", "txt", "01.TXT", "01.txt.bak", "a.txt", "1.5.txt", "256.txt", "01", "é1.txt", "01txt"] {
        assert_eq!(input_slot(name), InputSlot::NotAnInput, "{:?}", name);
    }
}

#[test]
fn with_day_number_fills_every_place() {
    assert_eq!(
        with_day_number("pub struct Day{{DayNum}};\nfn day() -> u8 { {{DayNum}} }", 7, true),
        "pub struct Day07;\nfn day() -> u8 { 07 }"
    );
    assert_eq!(with_day_number("run(days::Day{{DayNum}})", 7, false), "run(days::Day7)");
    assert_eq!(with_day_number("nothing to fill", 7, true), "nothing to fill");
    assert_eq!(with_day_number("{{DayNum}}{{DayNum}}{DayNum}", 12, true), "1212{DayNum}");
    assert_eq!(with_day_number("", 1, true), "");
}

#[test]
fn with_day_name_fills_every_place() {
    assert_eq!(
        with_day_name("fn name() -> &'static str { \"{{DayName}}\" }", "Treetop"),
        "fn name() -> &'static str { \"Treetop\" }"
    );
    assert_eq!(with_day_name("{{DayName}} and {{DayName}}", ""), " and ");
}

#[test]
fn logs_frame_looks_for_day_in_the_name() {
    assert!(logs_frame("aoc::days::day07::parse"));
    assert!(logs_frame("day"));
    assert!(logs_frame("Monday"));
    assert!(!logs_frame("core::fmt::write"));
    assert!(!logs_frame("Day07"));
    assert!(!logs_frame("da"));
    assert!(!logs_frame(""));
}

#[test]
fn frame_label_shows_what_is_known() {
    assert_eq!(frame_label("day01::parse", Some("src/day01.rs"), Some(12), Some(5)), "day01::parse@src/day01.rs:12:5");
    assert_eq!(frame_label("day01::parse", Some("src/day01.rs"), Some(12), None), "day01::parse@src/day01.rs:12");
    assert_eq!(frame_label("day01::parse", Some("src/day01.rs"), None, Some(5)), "day01::parse@src/day01.rs");
    assert_eq!(frame_label("day01::parse", Some("src/day01.rs"), None, None), "day01::parse@src/day01.rs");
    assert_eq!(frame_label("day01::parse", None, Some(12), Some(5)), "day01::parse");
    assert_eq!(frame_label("f", Some(""), Some(0), Some(4294967295)), "f@:0:4294967295");
}

#[test]
fn allocation_note_names_address_frame_and_label() {
    assert_eq!(
        allocation_note("0x55d0c0ffee", 3, "day01::parse@src/day01.rs:12:5"),
        "memory allocation @0x55d0c0ffee (frame idx[3]) day01::parse@src/day01.rs:12:5"
    );
    assert_eq!(allocation_note("", 0, ""), "memory allocation @ (frame idx[0]) ");
}

#[test]
fn day_type_has_two_digits() {
    assert_eq!(day_type(1), "Day01");
    assert_eq!(day_type(25), "Day25");
}

#[test]
fn claim_slot_gives_each_day_one_input() {
    let mut found: [Option<String>; 25] = Default::default();
    assert_eq!(claim_slot(&found, "03.txt"), Ok(Some(2)));
    found[2] = Some("input".to_string());
    assert_eq!(claim_slot(&found, "03.txt"), Err(InputError::Duplicate(3)));
    assert_eq!(claim_slot(&found, "3.txt"), Err(InputError::Duplicate(3)));
    assert_eq!(claim_slot(&found, "04.txt"), Ok(Some(3)));
    assert_eq!(claim_slot(&found, "25.txt"), Ok(Some(24)));
    assert_eq!(claim_slot(&found, "26.txt"), Err(InputError::OutOfRange(26)));
    assert_eq!(claim_slot(&found, "0.txt"), Err(InputError::OutOfRange(0)));
    assert_eq!(claim_slot(&found, "notes.md"), Ok(None));
    assert_eq!(claim_slot(&found, "x.txt"), Ok(None));
}

fn empty_manifest() -> ManifestView {
    ManifestView {
        package: false,
        workspace: Slot::Missing,
        members: Members::Missing,
        metadata: Slot::Missing,
        aoch: Slot::Missing,
        session: None,
        year: Year::Missing,
    }
}

fn workspace(members: &[&str], session: Option<&str>, year: Year) -> ManifestView {
    ManifestView {
        package: false,
        workspace: Slot::Table,
        members: Members::Array(strings(members)),
        metadata: Slot::Table,
        aoch: Slot::Table,
        session: session.map(|s| s.to_string()),
        year,
    }
}

#[test]
fn plan_for_an_empty_manifest_starts_the_workspace() {
    let plan = plan_day(&empty_manifest(), None, 1, 2023);
    assert!(plan.write);
    assert_eq!(plan.member, Some("day01".to_string()));
    assert_eq!(plan.record_year, Some(2023));
    assert_eq!(plan.year, Some(2023));
    assert_eq!(plan.session, None);
    assert!(plan.complaints.is_empty());
}

#[test]
fn plan_for_a_workspace_adds_the_day_once() {
    let view = workspace(&["day01", "day02"], Some("token"), Year::Integer(2021));
    let plan = plan_day(&view, None, 3, 2023);
    assert!(plan.write);
    assert_eq!(plan.member, Some("day03".to_string()));
    assert_eq!(plan.record_year, None);
    assert_eq!(plan.year, Some(2021));
    assert_eq!(plan.session, Some("token".to_string()));
    assert!(plan.complaints.is_empty());
    let again = plan_day(&view, Some(2021), 2, 2023);
    assert_eq!(again.member, None);
    assert_eq!(again.year, Some(2021));
    assert!(again.complaints.is_empty());
}

#[test]
fn plan_records_the_expected_year() {
    let plan = plan_day(&workspace(&[], None, Year::Missing), Some(2019), 1, 2023);
    assert_eq!(plan.record_year, Some(2019));
    assert_eq!(plan.year, Some(2019));
}

#[test]
fn plan_leaves_a_crate_alone() {
    let mut view = workspace(&[], Some("token"), Year::Integer(2021));
    view.package = true;
    let plan = plan_day(&view, Some(2020), 4, 2023);
    assert!(!plan.write);
    assert_eq!(plan.member, None);
    assert_eq!(plan.record_year, None);
    assert_eq!(plan.year, Some(2020));
    assert_eq!(plan.session, None);
    assert_eq!(plan.complaints, vec![Complaint::IsCrate]);
}

#[test]
fn plan_complains_about_what_is_out_of_place() {
    let mut view = workspace(&[], Some("token"), Year::Integer(2021));
    view.workspace = Slot::Other;
    let plan = plan_day(&view, None, 4, 2023);
    assert!(plan.write);
    assert_eq!(plan.member, None);
    assert_eq!(plan.year, None);
    assert_eq!(plan.session, None);
    assert_eq!(plan.complaints, vec![Complaint::WorkspaceNotTable]);

    let mut view = workspace(&[], Some("token"), Year::Other);
    view.members = Members::Other;
    let plan = plan_day(&view, Some(2020), 4, 2023);
    assert_eq!(plan.member, None);
    assert_eq!(plan.year, Some(2020));
    assert_eq!(plan.record_year, None);
    assert_eq!(plan.session, Some("token".to_string()));
    assert_eq!(plan.complaints, vec![Complaint::MembersNotArray, Complaint::YearNotInteger]);

    let plan = plan_day(&workspace(&[], None, Year::Integer(2021)), Some(2020), 4, 2023);
    assert_eq!(plan.year, Some(2021));
    assert_eq!(plan.complaints, vec![Complaint::YearDiffers(2020, 2021)]);

    let mut view = workspace(&[], Some("token"), Year::Integer(2021));
    view.metadata = Slot::Other;
    let plan = plan_day(&view, Some(2020), 4, 2023);
    assert_eq!(plan.member, Some("day04".to_string()));
    assert_eq!(plan.session, None);
    assert_eq!(plan.year, Some(2020));
    assert!(plan.complaints.is_empty());
}
