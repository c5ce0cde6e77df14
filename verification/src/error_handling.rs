//! The failures that parsing and solving report.

use std::borrow::Cow;
use vstd::prelude::*;
use vstd::std_specs::convert::{FromSpecImpl, IntoSpec};
use vstd::string::*;

verus! {

/// `std::io::Error`: a failure to read or write, carried as it is.
#[verifier::external_type_specification]
#[verifier::external_body]
pub struct ExIoError(std::io::Error);

/// `std::num::ParseIntError`: why a string was no integer, carried as it is.
#[verifier::external_type_specification]
#[verifier::external_body]
pub struct ExParseIntError(std::num::ParseIntError);

/// `std::num::ParseFloatError`: why a string was no floating-point number,
/// carried as it is.
#[verifier::external_type_specification]
#[verifier::external_body]
pub struct ExParseFloatError(std::num::ParseFloatError);

/// An error of a type that is no longer known, kept as the two texts it
/// gave when it was wrapped.
#[derive(Debug, Clone)]
pub struct WrappedError {
    /// What its `Debug` wrote.
    pub debug: String,
    /// What its `Display` wrote.
    pub display: String,
}

/// What went wrong while a day parsed its input or solved a part.
#[derive(Debug)]
pub enum DayError {
    /// The part has no solution yet.
    Unimplemented,
    /// Reading failed.
    IOError(std::io::Error),
    /// A string was no integer.
    ParseInt(std::num::ParseIntError),
    /// A string was no floating-point number.
    ParseFloat(std::num::ParseFloatError),
    /// Any other error, its type erased.
    Wrapped(WrappedError),
    /// A message and nothing else.
    Generic(Cow<'static, str>),
}

/// The failure that a `DayError` wraps.
pub enum Cause<'a> {
    /// Of an `IOError`.
    IO(&'a std::io::Error),
    /// Of a `ParseInt`.
    ParseInt(&'a std::num::ParseIntError),
    /// Of a `ParseFloat`.
    ParseFloat(&'a std::num::ParseFloatError),
    /// Of a `Wrapped`.
    Wrapped(&'a WrappedError),
}

/// `Cow::from` on a string slice: the slice, borrowed.
pub assume_specification<'a>[ <Cow<'a, str> as From<&'a str>>::from ](s: &'a str) -> (cow: Cow<'a, str>)
    ensures
        cow == Cow::Borrowed(s),
;

/// `Cow::from` on a string: the string, owned.
pub assume_specification<'a>[ <Cow<'a, str> as From<String>>::from ](s: String) -> (cow: Cow<'a, str>)
    ensures
        cow == Cow::Owned::<str>(s),
;

/// A variant's name, then its payload in round brackets.
pub open spec fn structured(name: Seq<char>, payload: Seq<char>) -> Seq<char> {
    name + seq!['('] + payload + seq![')']
}

/// `format!("{:?}", value)`: the text that the `Debug` of `value` writes.
/// Nothing is claimed of it.
#[verifier::external_body]
pub(crate) fn debug_text<T: core::fmt::Debug>(value: &T) -> (text: String) {
    format!("{:?}", value)
}

/// Whether `text` is what the `Debug` of `value` wrote when it was asked.
pub closed spec fn debug_shows<T: core::fmt::Debug>(value: &T, text: Seq<char>) -> bool {
    exists|written: String| written@ == text && #[trigger] call_ensures(debug_text::<T>, (value,), written)
}

/// What the `Debug` of `value` writes.
pub fn debug_of<T: core::fmt::Debug>(value: &T) -> (text: String)
    ensures
        debug_shows(value, text@),
{
    let write = debug_text::<T>;
    write(value)
}

/// The text `name(payload)`.
pub fn structured_text(name: &str, payload: &str) -> (text: String)
    ensures
        text@ == structured(name@, payload@),
{
    proof {
        reveal_strlit("(");
        reveal_strlit(")");
    }
    let mut text = String::from_str(name);
    text.append("(");
    text.append(payload);
    text.append(")");
    assert(text@ =~= structured(name@, payload@));
    text
}

impl DayError {
    /// Whether `text` can be this error's message: the message itself of a
    /// `Generic`; of any other, the variant's name, followed, where it wraps a
    /// failure, by what the `Debug` of that failure writes, in round brackets.
    pub open spec fn shown_as(&self, text: Seq<char>) -> bool {
        match self {
            DayError::Unimplemented => text == "Unimplemented"@,
            DayError::IOError(e) => exists|payload: Seq<char>|
                debug_shows(e, payload) && text == #[trigger] structured("IOError"@, payload),
            DayError::ParseInt(e) => exists|payload: Seq<char>|
                debug_shows(e, payload) && text == #[trigger] structured("ParseInt"@, payload),
            DayError::ParseFloat(e) => exists|payload: Seq<char>|
                debug_shows(e, payload) && text == #[trigger] structured("ParseFloat"@, payload),
            DayError::Wrapped(inner) => text == structured("Wrapped"@, inner.debug@),
            DayError::Generic(message) => text == message@,
        }
    }

    /// The failure that this error wraps, where it wraps one.
    pub open spec fn wrapped(&self) -> Option<Cause<'_>> {
        match self {
            DayError::Unimplemented => None,
            DayError::IOError(e) => Some(Cause::IO(e)),
            DayError::ParseInt(e) => Some(Cause::ParseInt(e)),
            DayError::ParseFloat(e) => Some(Cause::ParseFloat(e)),
            DayError::Wrapped(e) => Some(Cause::Wrapped(e)),
            DayError::Generic(_) => None,
        }
    }

    /// An error that is the message `msg`, as `msg` turns into a message.
    pub fn generic<S: Into<Cow<'static, str>>>(msg: S) -> (e: DayError)
        ensures
            e matches DayError::Generic(message) && call_ensures(S::into, (msg,), message),
            S::obeys_into_spec() ==> e == DayError::Generic(msg.into_spec()),
    {
        DayError::Generic(msg.into())
    }

    /// An error whose message is what the `Debug` of `e` writes.
    pub fn from_debug<E: core::fmt::Debug>(e: E) -> (error: DayError)
        ensures
            error matches DayError::Generic(message) && debug_shows(&e, message@),
    {
        DayError::Generic(Cow::Owned(debug_of(&e)))
    }

    /// Wraps any error, keeping what its `Debug` and its `Display` write.
    pub fn boxed<E: 'static + std::error::Error>(e: E) -> (error: DayError)
        ensures
            error matches DayError::Wrapped(inner) && debug_shows(&e, inner.debug@)
                && to_string_from_display_ensures::<E>(&e, inner.display),
    {
        let debug = debug_of(&e);
        let display = e.to_string();
        DayError::Wrapped(WrappedError { debug, display })
    }

    /// The failure that this error wraps: every variant but `Unimplemented`
    /// and `Generic` has one.
    pub fn source(&self) -> (cause: Option<Cause<'_>>)
        ensures
            cause == self.wrapped(),
            cause is None <==> self is Unimplemented || self is Generic,
    {
        match self {
            DayError::Unimplemented => None,
            DayError::IOError(e) => Some(Cause::IO(e)),
            DayError::ParseInt(e) => Some(Cause::ParseInt(e)),
            DayError::ParseFloat(e) => Some(Cause::ParseFloat(e)),
            DayError::Wrapped(e) => Some(Cause::Wrapped(e)),
            DayError::Generic(_) => None,
        }
    }

    /// The error's message.
    pub fn message(&self) -> (text: String)
        ensures
            self.shown_as(text@),
    {
        match self {
            DayError::Unimplemented => String::from_str("Unimplemented"),
            DayError::IOError(e) => {
                let payload = debug_of(e);
                structured_text("IOError", payload.as_str())
            },
            DayError::ParseInt(e) => {
                let payload = debug_of(e);
                structured_text("ParseInt", payload.as_str())
            },
            DayError::ParseFloat(e) => {
                let payload = debug_of(e);
                structured_text("ParseFloat", payload.as_str())
            },
            DayError::Wrapped(inner) => structured_text("Wrapped", inner.debug.as_str()),
            DayError::Generic(message) => match message {
                Cow::Borrowed(text) => String::from_str(text),
                Cow::Owned(text) => text.clone(),
            },
        }
    }
}

/// A failure to read is an `IOError`.
impl From<std::io::Error> for DayError {
    fn from(e: std::io::Error) -> (error: Self) {
        DayError::IOError(e)
    }
}

impl FromSpecImpl<std::io::Error> for DayError {
    open spec fn obeys_from_spec() -> bool {
        true
    }

    open spec fn from_spec(e: std::io::Error) -> Self {
        DayError::IOError(e)
    }
}

/// A string that was no integer is a `ParseInt`.
impl From<std::num::ParseIntError> for DayError {
    fn from(e: std::num::ParseIntError) -> (error: Self) {
        DayError::ParseInt(e)
    }
}

impl FromSpecImpl<std::num::ParseIntError> for DayError {
    open spec fn obeys_from_spec() -> bool {
        true
    }

    open spec fn from_spec(e: std::num::ParseIntError) -> Self {
        DayError::ParseInt(e)
    }
}

/// A string that was no floating-point number is a `ParseFloat`.
impl From<std::num::ParseFloatError> for DayError {
    fn from(e: std::num::ParseFloatError) -> (error: Self) {
        DayError::ParseFloat(e)
    }
}

impl FromSpecImpl<std::num::ParseFloatError> for DayError {
    open spec fn obeys_from_spec() -> bool {
        true
    }

    open spec fn from_spec(e: std::num::ParseFloatError) -> Self {
        DayError::ParseFloat(e)
    }
}

/// A message is a `Generic`.
impl From<Cow<'static, str>> for DayError {
    fn from(e: Cow<'static, str>) -> (error: Self) {
        DayError::Generic(e)
    }
}

impl FromSpecImpl<Cow<'static, str>> for DayError {
    open spec fn obeys_from_spec() -> bool {
        true
    }

    open spec fn from_spec(e: Cow<'static, str>) -> Self {
        DayError::Generic(e)
    }
}

/// A message is a `Generic`.
impl From<&'static str> for DayError {
    fn from(e: &'static str) -> (error: Self) {
        DayError::Generic(Cow::Borrowed(e))
    }
}

impl FromSpecImpl<&'static str> for DayError {
    open spec fn obeys_from_spec() -> bool {
        true
    }

    open spec fn from_spec(e: &'static str) -> Self {
        DayError::Generic(Cow::Borrowed(e))
    }
}

/// A message is a `Generic`.
impl From<String> for DayError {
    fn from(e: String) -> (error: Self) {
        DayError::Generic(Cow::Owned(e))
    }
}

impl FromSpecImpl<String> for DayError {
    open spec fn obeys_from_spec() -> bool {
        true
    }

    open spec fn from_spec(e: String) -> Self {
        DayError::Generic(Cow::Owned(e))
    }
}

} // verus!
