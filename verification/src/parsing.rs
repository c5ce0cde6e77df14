//! Turning puzzle input into values, line by line.

use crate::text::{content, lines_of, pieces_of, split_lines, split_terminated, trim, trim_str, views};
use vstd::prelude::*;
use vstd::std_specs::iter::IteratorSpec;

verus! {

/// The lines of `input` that hold more than white space, each trimmed.
pub open spec fn content_lines(input: Seq<char>) -> Seq<Seq<char>> {
    content(split_lines(input))
}

/// Whether `out` is what `map` gave for the strings `items`, one for one and
/// in their order.
pub open spec fn mapped<T, F: FnMut(&str) -> T>(items: Seq<Seq<char>>, map: F, out: Seq<T>) -> bool {
    exists|given: Seq<&str>|
        {
            &&& #[trigger] views(given) == items
            &&& out.len() == given.len()
            &&& forall|i: int| 0 <= i < given.len() ==> call_ensures(map, (given[i],), #[trigger] out[i])
        }
}

/// Whether `outcomes` are what `parse` gave for the strings `given`, one for
/// one, and `given` are the first of `items`.
pub open spec fn attempted<T, E, P: FnMut(&str) -> Result<T, E>>(
    items: Seq<Seq<char>>,
    parse: P,
    given: Seq<&str>,
    outcomes: Seq<Result<T, E>>,
) -> bool {
    &&& given.len() <= items.len()
    &&& views(given) == items.subrange(0, given.len() as int)
    &&& outcomes.len() == given.len()
    &&& forall|i: int|
        0 <= i < given.len() ==> call_ensures(parse, (given[i],), #[trigger] outcomes[i])
}

/// Whether `r` is what comes of handing the strings `items` to `parse` in their
/// order until one fails: the values, if none does, and else the first failure.
pub open spec fn gathered<T, E, P: FnMut(&str) -> Result<T, E>>(
    items: Seq<Seq<char>>,
    parse: P,
    r: Result<Seq<T>, E>,
) -> bool {
    exists|given: Seq<&str>, outcomes: Seq<Result<T, E>>| #[trigger]
        attempted(items, parse, given, outcomes) && ends_with(outcomes, items.len(), r)
}

/// Whether `r` sums up `outcomes`, the outcomes of the first of `n` attempts:
/// either all `n` were made and succeeded, and `r` holds their values, or the
/// last one made is the only failure, and `r` is that failure.
pub open spec fn ends_with<T, E>(outcomes: Seq<Result<T, E>>, n: nat, r: Result<Seq<T>, E>) -> bool {
    match r {
        Ok(values) => {
            &&& outcomes.len() == n
            &&& values.len() == n
            &&& forall|i: int| 0 <= i < n ==> outcomes[i] == Ok::<T, E>(#[trigger] values[i])
        },
        Err(e) => {
            &&& outcomes.len() > 0
            &&& outcomes.last() == Err::<T, E>(e)
            &&& forall|i: int| 0 <= i < outcomes.len() - 1 ==> (#[trigger] outcomes[i]) is Ok
        },
    }
}

/// `r` with its vector of values seen as a sequence.
pub open spec fn seq_result<T, E>(r: Result<Vec<T>, E>) -> Result<Seq<T>, E> {
    match r {
        Ok(v) => Ok(v@),
        Err(e) => Err(e),
    }
}

/// Trims the string, and returns it if anything but white space is left.
pub fn trimmed<'a>(s: &'a str) -> (r: Option<&'a str>)
    ensures
        r is Some <==> trim(s@).len() > 0,
        r matches Some(t) ==> t@ == trim(s@),
{
    let t = trim_str(s);
    if !t.is_empty() {
        Some(t)
    } else {
        None
    }
}

/// Hands each of `items` that holds more than white space to `map`, trimmed.
fn map_content<T, F: FnMut(&str) -> T>(items: &Vec<&str>, map: F) -> (out: Vec<T>)
    requires
        forall|l: &str| content(views(items@)).contains(l@) ==> call_requires(map, (l,)),
    ensures
        mapped(content(views(items@)), map, out@),
{
    let mut f = map;
    let mut out: Vec<T> = Vec::new();
    let ghost mut given: Seq<&str> = Seq::empty();
    let mut i: usize = 0;
    assert(views(items@).subrange(0, 0) =~= Seq::<Seq<char>>::empty());
    assert(views(given) =~= Seq::<Seq<char>>::empty());
    while i < items.len()
        invariant
            i <= items@.len(),
            f == map,
            forall|l: &str| content(views(items@)).contains(l@) ==> call_requires(map, (l,)),
            views(given) == content(views(items@).subrange(0, i as int)),
            out@.len() == given.len(),
            forall|j: int| 0 <= j < given.len() ==> call_ensures(map, (given[j],), #[trigger] out@[j]),
        decreases items@.len() - i,
    {
        let ghost before = views(items@).subrange(0, i as int);
        let ghost after = views(items@).subrange(0, i + 1);
        assert(after.drop_last() =~= before);
        assert(after.last() == items@[i as int]@);
        match trimmed(items[i]) {
            Some(t) => {
                proof {
                    lemma_content_prefix(views(items@), i + 1);
                    assert(content(after).last() == t@);
                    assert(content(views(items@)).contains(t@));
                }
                let v = f(t);
                out.push(v);
                proof {
                    assert(views(given.push(t)) =~= views(given).push(t@));
                    given = given.push(t);
                }
            },
            None => {},
        }
        i += 1;
    }
    assert(views(items@).subrange(0, i as int) =~= views(items@));
    out
}

/// The content of a prefix of `items` is a prefix of their content.
pub proof fn lemma_content_prefix(items: Seq<Seq<char>>, n: int)
    requires
        0 <= n <= items.len(),
    ensures
        content(items.subrange(0, n)).len() <= content(items).len(),
        content(items.subrange(0, n)) == content(items).subrange(
            0,
            content(items.subrange(0, n)).len() as int,
        ),
    decreases items.len() - n,
{
    if n == items.len() {
        assert(items.subrange(0, n) =~= items);
        assert(content(items).subrange(0, content(items).len() as int) =~= content(items));
    } else {
        lemma_content_prefix(items, n + 1);
        let longer = items.subrange(0, n + 1);
        assert(longer.drop_last() =~= items.subrange(0, n));
        let short = content(items.subrange(0, n));
        assert(short =~= content(items).subrange(0, short.len() as int));
    }
}

/// Hands each of `items` that holds more than white space to `parse`, trimmed,
/// and stops at the first failure.
fn parse_content<T, E, P: FnMut(&str) -> Result<T, E>>(items: &Vec<&str>, parse: &mut P) -> (r: Result<
    Vec<T>,
    E,
>)
    requires
        forall|l: &str| content(views(items@)).contains(l@) ==> call_requires(*old(parse), (l,)),
    ensures
        *final(parse) == *old(parse),
        gathered(content(views(items@)), *old(parse), seq_result(r)),
{
    let mut out: Vec<T> = Vec::new();
    let ghost mut given: Seq<&str> = Seq::empty();
    let ghost mut outcomes: Seq<Result<T, E>> = Seq::empty();
    let ghost all = content(views(items@));
    let mut i: usize = 0;
    assert(views(items@).subrange(0, 0) =~= Seq::<Seq<char>>::empty());
    assert(views(given) =~= Seq::<Seq<char>>::empty());
    while i < items.len()
        invariant
            i <= items@.len(),
            all == content(views(items@)),
            *parse == *old(parse),
            forall|l: &str| all.contains(l@) ==> call_requires(*parse, (l,)),
            views(given) == content(views(items@).subrange(0, i as int)),
            outcomes.len() == given.len(),
            out@.len() == given.len(),
            forall|j: int|
                0 <= j < given.len() ==> call_ensures(*parse, (given[j],), #[trigger] outcomes[j]),
            forall|j: int| 0 <= j < given.len() ==> outcomes[j] == Ok::<T, E>(#[trigger] out@[j]),
            forall|j: int| 0 <= j < given.len() ==> (#[trigger] outcomes[j]) is Ok,
        decreases items@.len() - i,
    {
        let ghost before = views(items@).subrange(0, i as int);
        let ghost after = views(items@).subrange(0, i + 1);
        assert(after.drop_last() =~= before);
        assert(after.last() == items@[i as int]@);
        match trimmed(items[i]) {
            Some(t) => {
                proof {
                    lemma_content_prefix(views(items@), i + 1);
                    assert(content(after).last() == t@);
                    assert(all.contains(t@));
                    assert(views(given.push(t)) =~= views(given).push(t@));
                }
                let parsed = parse(t);
                proof {
                    given = given.push(t);
                    outcomes = outcomes.push(parsed);
                }
                match parsed {
                    Ok(v) => {
                        out.push(v);
                    },
                    Err(e) => {
                        assert(ends_with(outcomes, all.len(), Err::<Seq<T>, E>(e)));
                        assert(attempted(all, *parse, given, outcomes));
                        return Err(e);
                    },
                }
            },
            None => {},
        }
        i += 1;
    }
    proof {
        assert(views(items@).subrange(0, i as int) =~= views(items@));
        assert(all.subrange(0, given.len() as int) =~= all);
        assert(ends_with(outcomes, all.len(), Ok::<Seq<T>, E>(out@)));
        assert(attempted(all, *parse, given, outcomes));
    }
    Ok(out)
}

/// Takes each line with content, and passes them pre-trimmed to the mapping function.
pub fn from_lines_with<T, F: FnMut(&str) -> T>(input: &str, map: F) -> (out: Vec<T>)
    requires
        forall|l: &str| content_lines(input@).contains(l@) ==> call_requires(map, (l,)),
    ensures
        mapped(content_lines(input@), map, out@),
{
    let lines = lines_of(input);
    map_content(&lines, map)
}

/// Takes each line with content, and passes them pre-trimmed to the mapping
/// function, which must not fail on any of them.
pub fn try_from_lines_with<T, E: core::fmt::Debug, F: FnMut(&str) -> Result<T, E>>(
    input: &str,
    map: F,
) -> (out: Vec<T>)
    requires
        forall|l: &str| content_lines(input@).contains(l@) ==> call_requires(map, (l,)),
        forall|l: &str, r: Result<T, E>|
            content_lines(input@).contains(l@) && call_ensures(map, (l,), r) ==> r is Ok,
    ensures
        gathered(content_lines(input@), map, Ok::<Seq<T>, E>(out@)),
{
    let lines = lines_of(input);
    let mut mapper = map;
    match parse_content(&lines, &mut mapper) {
        Ok(out) => out,
        Err(e) => {
            proof {
                let all = content_lines(input@);
                let (given, outcomes) = choose|given: Seq<&str>, outcomes: Seq<Result<T, E>>| #[trigger]
                    attempted(all, map, given, outcomes) && ends_with(
                        outcomes,
                        all.len(),
                        Err::<Seq<T>, E>(e),
                    );
                let last = given.len() - 1;
                assert(views(given)[last] == all[last]);
                assert(all.contains(given[last]@));
                assert(outcomes[last] is Ok);
            }
            unreached()
        },
    }
}

/// Returns a vector of values parsed by `parse` from the strings of `iter`.
///
/// Trims whitespace and skips empty strings.
pub fn from_iter<'a, T, E, I: Iterator<Item = &'a str>, P: FnMut(&str) -> Result<T, E>>(
    iter: I,
    parse: P,
) -> (r: Result<Vec<T>, E>)
    requires
        iter.obeys_prophetic_iter_laws(),
        iter.decrease() is Some,
        forall|l: &str| content(views(iter.remaining())).contains(l@) ==> call_requires(parse, (l,)),
    ensures
        gathered(content(views(iter.remaining())), parse, seq_result(r)),
{
    let mut rest = iter;
    let mut items: Vec<&str> = Vec::new();
    loop
        invariant
            rest.obeys_prophetic_iter_laws(),
            rest.decrease() is Some,
            iter.remaining() == items@ + rest.remaining(),
        ensures
            iter.remaining() == items@,
        decreases rest.decrease()->0,
    {
        match rest.next() {
            Some(item) => {
                items.push(item);
                assert(items@ + rest.remaining() =~= iter.remaining());
            },
            None => {
                assert(items@ + rest.remaining() =~= items@);
                break ;
            },
        }
    }
    let mut parser = parse;
    parse_content(&items, &mut parser)
}

/// Returns a vector of values parsed by `parse` from the lines of `input`.
///
/// Trims whitespace and skips empty lines.
pub fn from_lines<T, E, P: FnMut(&str) -> Result<T, E>>(input: &str, parse: P) -> (r: Result<
    Vec<T>,
    E,
>)
    requires
        forall|l: &str| content_lines(input@).contains(l@) ==> call_requires(parse, (l,)),
    ensures
        gathered(content_lines(input@), parse, seq_result(r)),
{
    let lines = lines_of(input);
    let mut parser = parse;
    parse_content(&lines, &mut parser)
}

/// The groups of `input`: its pieces between blank lines that hold more than
/// white space, each trimmed.
pub open spec fn groups(input: Seq<char>) -> Seq<Seq<char>> {
    content(split_terminated(input, seq!['\n', '\n']))
}

/// The lines of `group` that hold more than white space, each trimmed.
pub open spec fn group_lines(group: Seq<char>) -> Seq<Seq<char>> {
    content(split_terminated(group, seq!['\n']))
}

/// Whether `values` are what `parse` made of the first groups of `groups`,
/// one sequence of values for each, none of them failing.
pub open spec fn groups_parsed<T, E, P: FnMut(&str) -> Result<T, E>>(
    groups: Seq<Seq<char>>,
    parse: P,
    values: Seq<Seq<T>>,
) -> bool {
    &&& values.len() <= groups.len()
    &&& forall|g: int|
        0 <= g < values.len() ==> gathered(
            group_lines(groups[g]),
            parse,
            Ok::<Seq<T>, E>(#[trigger] values[g]),
        )
}

/// Whether `r` is what comes of parsing `groups` in their order, line by
/// line, until a line fails: the values of every group, if none does, and
/// else the first failure.
pub open spec fn gathered_groups<T, E, P: FnMut(&str) -> Result<T, E>>(
    groups: Seq<Seq<char>>,
    parse: P,
    r: Result<Seq<Seq<T>>, E>,
) -> bool {
    match r {
        Ok(values) => values.len() == groups.len() && groups_parsed::<T, E, P>(groups, parse, values),
        Err(e) => exists|before: Seq<Seq<T>>|
            {
                &&& #[trigger] groups_parsed::<T, E, P>(groups, parse, before)
                &&& before.len() < groups.len()
                &&& gathered(group_lines(groups[before.len() as int]), parse, Err::<Seq<T>, E>(e))
            },
    }
}

/// `r` with its vectors of values seen as sequences.
pub open spec fn nested_result<T, E>(r: Result<Vec<Vec<T>>, E>) -> Result<Seq<Seq<T>>, E> {
    match r {
        Ok(v) => Ok(Seq::new(v@.len(), |i: int| v@[i]@)),
        Err(e) => Err(e),
    }
}

/// Returns, for each group of lines of `input`, a vector of the values parsed
/// by `parse` from its lines. Groups are set apart by blank lines.
///
/// Trims whitespace and skips empty groups and lines.
pub fn from_grouped_lines<T, E, P: FnMut(&str) -> Result<T, E>>(input: &str, parse: P) -> (r: Result<
    Vec<Vec<T>>,
    E,
>)
    requires
        forall|g: int, l: &str|
            0 <= g < groups(input@).len() && #[trigger] group_lines(groups(input@)[g]).contains(l@)
                ==> call_requires(parse, (l,)),
    ensures
        gathered_groups(groups(input@), parse, nested_result(r)),
{
    proof {
        reveal_strlit("\n\n");
        reveal_strlit("\n");
        assert("\n\n"@ =~= seq!['\n', '\n']);
        assert("\n"@ =~= seq!['\n']);
    }
    let pieces = pieces_of(input, "\n\n");
    let mut parser = parse;
    let mut out: Vec<Vec<T>> = Vec::new();
    let ghost all = groups(input@);
    let ghost mut values: Seq<Seq<T>> = Seq::empty();
    let mut i: usize = 0;
    assert(views(pieces@).subrange(0, 0) =~= Seq::<Seq<char>>::empty());
    while i < pieces.len()
        invariant
            i <= pieces@.len(),
            parser == parse,
            all == content(views(pieces@)),
            all == groups(input@),
            "\n"@ == seq!['\n'],
            forall|g: int, l: &str|
                0 <= g < all.len() && #[trigger] group_lines(all[g]).contains(l@) ==> call_requires(
                    parse,
                    (l,),
                ),
            values.len() == content(views(pieces@).subrange(0, i as int)).len(),
            values == Seq::new(out@.len(), |k: int| out@[k]@),
            groups_parsed::<T, E, P>(all, parse, values),
        decreases pieces@.len() - i,
    {
        let ghost before = views(pieces@).subrange(0, i as int);
        let ghost after = views(pieces@).subrange(0, i + 1);
        assert(after.drop_last() =~= before);
        assert(after.last() == pieces@[i as int]@);
        match trimmed(pieces[i]) {
            Some(group) => {
                proof {
                    lemma_content_prefix(views(pieces@), i + 1);
                    assert(content(after).last() == group@);
                    assert(all[values.len() as int] == group@);
                }
                let lines = pieces_of(group, "\n");
                let ghost g = values.len() as int;
                proof {
                    assert(content(views(lines@)) == group_lines(all[g]));
                    assert forall|l: &str| content(views(lines@)).contains(l@) implies call_requires(
                        parser,
                        (l,),
                    ) by {
                        assert(group_lines(all[g]).contains(l@));
                    }
                }
                match parse_content(&lines, &mut parser) {
                    Ok(parsed) => {
                        proof {
                            values = values.push(parsed@);
                        }
                        out.push(parsed);
                        assert(values =~= Seq::new(out@.len(), |k: int| out@[k]@));
                    },
                    Err(e) => {
                        assert(gathered(group_lines(all[g]), parse, Err::<Seq<T>, E>(e)));
                        assert(values.len() < all.len());
                        return Err(e);
                    },
                }
            },
            None => {},
        }
        i += 1;
    }
    assert(views(pieces@).subrange(0, i as int) =~= views(pieces@));
    Ok(out)
}

} // verus!
