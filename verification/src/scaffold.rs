//! What the generator of a new day decides: the names of folders and files,
//! the address of the puzzle input, and what to write into the manifest of
//! the workspace.

use crate::text::{
    decimal, decimal_string, is_numeric, numeric, parse_small, replace_all, replaced,
    signed_decimal, signed_decimal_string, small_number, trim, trim_str, two_digit_string,
    two_digits,
};
use vstd::prelude::*;
use vstd::string::*;

verus! {

/// The name of the folder of day number `day`.
pub open spec fn folder_name(day: u8) -> Seq<char> {
    "day"@ + two_digits(day as nat)
}

/// The name of the file that holds the input of day number `day`.
pub open spec fn input_file(day: u8) -> Seq<char> {
    "input/"@ + two_digits(day as nat) + ".txt"@
}

/// The address of the input of day number `day` of the year `year`.
pub open spec fn input_address(year: int, day: u8) -> Seq<char> {
    "https://adventofcode.com/"@ + signed_decimal(year) + "/day/"@ + decimal(day as nat)
        + "/input"@
}

/// The cookie that carries the session token `session`.
pub open spec fn cookie(session: Seq<char>) -> Seq<char> {
    "session="@ + session + "; Domain=adventofcode.com"@
}

/// The name of the folder of day number `day`: `day07` for 7.
pub fn day_folder(day: u8) -> (name: String)
    ensures
        name@ == folder_name(day),
{
    let mut name = String::from_str("day");
    name.append(two_digit_string(day).as_str());
    name
}

/// The name of the file that holds the input of day number `day`:
/// `input/07.txt` for 7.
pub fn input_path(day: u8) -> (path: String)
    ensures
        path@ == input_file(day),
{
    let mut path = String::from_str("input/");
    path.append(two_digit_string(day).as_str());
    path.append(".txt");
    assert(path@ =~= input_file(day));
    path
}

/// The address from which the input of day number `day` of the year `year`
/// is fetched.
pub fn input_url(year: i64, day: u8) -> (url: String)
    ensures
        url@ == input_address(year as int, day),
{
    let mut url = String::from_str("https://adventofcode.com/");
    url.append(signed_decimal_string(year).as_str());
    url.append("/day/");
    url.append(decimal_string(day as u64).as_str());
    url.append("/input");
    assert(url@ =~= input_address(year as int, day));
    url
}

/// The cookie to send with the request for an input.
pub fn session_cookie(session: &str) -> (text: String)
    ensures
        text@ == cookie(session@),
{
    let mut text = String::from_str("session=");
    text.append(session);
    text.append("; Domain=adventofcode.com");
    assert(text@ =~= cookie(session@));
    text
}

/// The arguments of the generator where it was started as a subcommand of
/// `cargo`: without the second one if that is `aoch`.
pub fn without_subcommand(args: Vec<String>) -> (rest: Vec<String>)
    ensures
        rest@ == if args@.len() > 1 && args@[1]@ == "aoch"@ {
            args@.remove(1)
        } else {
            args@
        },
{
    let mut rest = args;
    if rest.len() > 1 {
        let name = String::from_str("aoch");
        if rest[1] == name {
            rest.remove(1);
        }
    }
    rest
}

/// Whether one of `members` is the folder of day number `day`.
pub open spec fn has_member(members: Seq<String>, day: u8) -> bool {
    exists|i: int| 0 <= i < members.len() && (#[trigger] members[i])@ == folder_name(day)
}

/// The member to add to the workspace for day number `day`: its folder,
/// unless that is a member already.
pub fn member_to_add(members: &Vec<String>, day: u8) -> (r: Option<String>)
    ensures
        r is None <==> has_member(members@, day),
        r matches Some(name) ==> name@ == folder_name(day),
{
    let name = day_folder(day);
    let mut i: usize = 0;
    while i < members.len()
        invariant
            i <= members@.len(),
            name@ == folder_name(day),
            forall|j: int| 0 <= j < i ==> (#[trigger] members@[j])@ != folder_name(day),
        decreases members@.len() - i,
    {
        if members[i] == name {
            return None;
        }
        i += 1;
    }
    Some(name)
}

/// What to do about the year of the workspace.
#[derive(Debug, Clone, Copy, PartialEq, Eq, Structural)]
pub struct YearPlan {
    /// The year the workspace is for.
    pub year: i64,
    /// Whether the manifest does not hold it yet, so that it is written.
    pub write: bool,
    /// Whether the manifest holds another year than was expected.
    pub differs: bool,
}

/// What to do about the year of the workspace. The one that the manifest
/// records stands, whatever was expected; where it records none, the expected
/// one is written, or the current one where none is expected.
pub open spec fn reconcile_year_spec(
    expected: Option<i64>,
    recorded: Option<i64>,
    current: i64,
) -> YearPlan {
    match recorded {
        Some(year) => YearPlan {
            year,
            write: false,
            differs: expected is Some && expected != Some(year),
        },
        None => YearPlan {
            year: match expected {
                Some(year) => year,
                None => current,
            },
            write: true,
            differs: false,
        },
    }
}

/// Settles the year of the workspace.
pub fn reconcile_year(expected: Option<i64>, recorded: Option<i64>, current: i64) -> (plan: YearPlan)
    ensures
        plan == reconcile_year_spec(expected, recorded, current),
{
    match recorded {
        Some(year) => {
            let differs = match expected {
                Some(wanted) => wanted != year,
                None => false,
            };
            YearPlan { year, write: false, differs }
        },
        None => {
            let year = match expected {
                Some(year) => year,
                None => current,
            };
            YearPlan { year, write: true, differs: false }
        },
    }
}

/// `name` with a space in place of each character that is not numeric.
pub open spec fn numbers_only(name: Seq<char>) -> Seq<char> {
    Seq::new(
        name.len(),
        |i: int|
            if is_numeric(name[i]) {
                name[i]
            } else {
                ' '
            },
    )
}

/// The number of the day whose folder is called `name`: the one number in
/// the name, if it holds one number below 256 and no other numeric character.
pub fn day_from_folder(name: &str) -> (day: Option<u8>)
    ensures
        day == small_number(trim(numbers_only(name@))),
{
    let mut numbers = String::new();
    for c in iter: name.chars()
        invariant
            iter.seq() == name@,
            numbers@ == numbers_only(name@).subrange(0, iter.index() as int),
    {
        let ghost before = numbers@;
        if numeric(c) {
            numbers.push(c);
        } else {
            numbers.push(' ');
        }
        assert(numbers@ =~= numbers_only(name@).subrange(0, iter.index() + 1));
    }
    assert(numbers@ =~= numbers_only(name@));
    parse_small(trim_str(numbers.as_str()))
}

/// `template` with the number of the day in each place that asks for it: in
/// two digits where `padded` is set, and else as it is.
pub fn with_day_number(template: &str, day: u8, padded: bool) -> (text: String)
    ensures
        text@ == replaced(
            template@,
            "{{DayNum}}"@,
            if padded {
                two_digits(day as nat)
            } else {
                decimal(day as nat)
            },
        ),
{
    proof {
        reveal_strlit("{{DayNum}}");
    }
    let number = if padded {
        two_digit_string(day)
    } else {
        decimal_string(day as u64)
    };
    replace_all(template, "{{DayNum}}", number.as_str())
}

/// `template` with the name of the day in each place that asks for it.
pub fn with_day_name(template: &str, name: &str) -> (text: String)
    ensures
        text@ == replaced(template@, "{{DayName}}"@, name@),
{
    proof {
        reveal_strlit("{{DayName}}");
    }
    replace_all(template, "{{DayName}}", name)
}

/// What a table of the manifest holds under a key where a table is looked for.
#[derive(Debug, Clone, Copy, PartialEq, Eq, Structural)]
pub enum Slot {
    /// Nothing: a table is put there.
    Missing,
    /// A table.
    Table,
    /// Something else.
    Other,
}

/// What the workspace holds as its members.
#[derive(Debug)]
pub enum Members {
    /// Nothing: an empty array is put there.
    Missing,
    /// An array of these names.
    Array(Vec<String>),
    /// Something else.
    Other,
}

/// What the manifest records as the year.
#[derive(Debug, Clone, Copy, PartialEq, Eq, Structural)]
pub enum Year {
    /// Nothing.
    Missing,
    /// This year.
    Integer(i64),
    /// Something that is no integer.
    Other,
}

/// What the generator reads from the manifest in the folder it works in:
/// the tables `workspace`, `workspace.metadata` and `workspace.metadata.aoch`,
/// and what they hold. What stands below a key is read only where the key
/// holds a table or nothing.
#[derive(Debug)]
pub struct ManifestView {
    /// Whether there is a key `package`: the manifest is that of a crate.
    pub package: bool,
    pub workspace: Slot,
    pub members: Members,
    pub metadata: Slot,
    pub aoch: Slot,
    /// The session token under `session`, if a string stands there.
    pub session: Option<String>,
    pub year: Year,
}

/// What the generator finds wrong with the manifest.
#[derive(Debug, Clone, Copy, PartialEq, Eq, Structural)]
pub enum Complaint {
    /// The manifest is that of a crate, not of a workspace.
    IsCrate,
    /// `workspace` is no table.
    WorkspaceNotTable,
    /// `workspace.members` is no array.
    MembersNotArray,
    /// The manifest records the second year where the first was expected.
    YearDiffers(i64, i64),
    /// The year that the manifest records is no integer.
    YearNotInteger,
}

/// What the generator does with the manifest for a new day.
#[derive(Debug)]
pub struct DayPlan {
    /// Whether the manifest is written back.
    pub write: bool,
    /// The member to add to the workspace.
    pub member: Option<String>,
    /// The year to record.
    pub record_year: Option<i64>,
    /// The year the workspace is for, as far as it is known.
    pub year: Option<i64>,
    /// The session token to fetch the input with.
    pub session: Option<String>,
    /// What to tell the user, in this order.
    pub complaints: Vec<Complaint>,
}

impl ManifestView {
    /// Whether the generator reads what the workspace holds.
    pub open spec fn reads_workspace(&self) -> bool {
        !self.package && self.workspace != Slot::Other
    }

    /// Whether the generator reads session and year.
    pub open spec fn reads_aoch(&self) -> bool {
        self.reads_workspace() && self.metadata != Slot::Other && self.aoch != Slot::Other
    }

    /// The members that the workspace has so far.
    pub open spec fn member_names(&self) -> Seq<String> {
        match self.members {
            Members::Array(names) => names@,
            _ => Seq::empty(),
        }
    }

    /// The year that the manifest records.
    pub open spec fn recorded_year(&self) -> Option<i64> {
        match self.year {
            Year::Integer(year) => Some(year),
            _ => None,
        }
    }

    /// What there is to tell the user about the manifest, where `expected` is
    /// the year that the workspace is expected to be for.
    pub open spec fn complaints(&self, expected: Option<i64>) -> Seq<Complaint> {
        if self.package {
            seq![Complaint::IsCrate]
        } else if self.workspace == Slot::Other {
            seq![Complaint::WorkspaceNotTable]
        } else {
            let about_members = if self.members is Other {
                seq![Complaint::MembersNotArray]
            } else {
                Seq::empty()
            };
            let about_year = if !self.reads_aoch() {
                Seq::empty()
            } else {
                match (self.year, expected) {
                    (Year::Other, _) => seq![Complaint::YearNotInteger],
                    (Year::Integer(recorded), Some(wanted)) => if recorded != wanted {
                        seq![Complaint::YearDiffers(wanted, recorded)]
                    } else {
                        Seq::empty()
                    },
                    _ => Seq::empty(),
                }
            };
            about_members + about_year
        }
    }
}

/// Plans what to do with the manifest `view` for day number `day`, where
/// the workspace is expected to be for the year `expected`, and `current` is
/// the year of today.
///
/// The manifest of a crate is left alone. In that of a workspace the folder
/// of the day becomes a member, unless it is one; the session token is taken
/// from it; and the year it records stands, or, where it records none, the
/// expected or else the current year is recorded.
pub fn plan_day(view: &ManifestView, expected: Option<i64>, day: u8, current: i64) -> (plan: DayPlan)
    ensures
        plan.write == !view.package,
        plan.complaints@ == view.complaints(expected),
        plan.member is Some <==> view.reads_workspace() && !(view.members is Other) && !has_member(
            view.member_names(),
            day,
        ),
        plan.member matches Some(name) ==> name@ == folder_name(day),
        plan.session == if view.reads_aoch() {
            view.session
        } else {
            None
        },
        plan.record_year is Some <==> view.reads_aoch() && view.year is Missing,
        plan.record_year is Some ==> plan.record_year == plan.year,
        plan.year == if view.reads_aoch() && !(view.year is Other) {
            Some(reconcile_year_spec(expected, view.recorded_year(), current).year)
        } else {
            expected
        },
{
    let mut plan = DayPlan {
        write: !view.package,
        member: None,
        record_year: None,
        year: expected,
        session: None,
        complaints: Vec::new(),
    };
    if view.package {
        plan.complaints.push(Complaint::IsCrate);
        return plan;
    }
    if view.workspace == Slot::Other {
        plan.complaints.push(Complaint::WorkspaceNotTable);
        return plan;
    }
    match &view.members {
        Members::Missing => {
            let empty: Vec<String> = Vec::new();
            plan.member = member_to_add(&empty, day);
        },
        Members::Array(names) => {
            plan.member = member_to_add(names, day);
        },
        Members::Other => {
            plan.complaints.push(Complaint::MembersNotArray);
        },
    }
    let ghost about_members = plan.complaints@;
    if view.metadata != Slot::Other && view.aoch != Slot::Other {
        plan.session = view.session.clone();
        match view.year {
            Year::Other => {
                plan.complaints.push(Complaint::YearNotInteger);
            },
            Year::Missing => {
                let decided = reconcile_year(expected, None, current);
                plan.record_year = Some(decided.year);
                plan.year = Some(decided.year);
            },
            Year::Integer(recorded) => {
                let decided = reconcile_year(expected, Some(recorded), current);
                if decided.differs {
                    match expected {
                        Some(wanted) => {
                            plan.complaints.push(Complaint::YearDiffers(wanted, recorded));
                        },
                        None => {},
                    }
                }
                plan.year = Some(decided.year);
            },
        }
    }
    assert(plan.complaints@ =~= view.complaints(expected));
    plan
}

} // verus!
