//! What every type of value can do, and the errors it reports.
//!
//! A property declares a datatype and, optionally, a format string. A type of value says
//! which datatype it has and which formats it goes with, turns a format string into its
//! structured form, reads a value from a payload and writes one back.

pub use crate::color::{Color, ColorFormat, ColorHSV, ColorRGB, ParseColorError};
pub use crate::enum_value::{EnumValue, ParseEnumError};
use crate::types::Datatype;
use vstd::prelude::*;

verus! {

/// Why a value could not be had.
#[derive(Clone, Debug, Eq, PartialEq)]
pub enum ValueError {
    /// No value has been seen yet.
    Unknown,
    /// The property declares the datatype `actual`, the type of value has `expected`.
    WrongDatatype { expected: Datatype, actual: Datatype },
    /// The format string is malformed, or is not one that the type of value goes with.
    WrongFormat { format: String },
    /// The payload `value` does not write a value of `datatype`.
    ParseFailed { value: String, datatype: Datatype },
}

/// A `ValueError` with its strings as sequences of characters.
pub ghost enum ValueErrorView {
    Unknown,
    WrongDatatype { expected: Datatype, actual: Datatype },
    WrongFormat { format: Seq<char> },
    ParseFailed { value: Seq<char>, datatype: Datatype },
}

impl View for ValueError {
    type V = ValueErrorView;

    open spec fn view(&self) -> ValueErrorView {
        match self {
            ValueError::Unknown => ValueErrorView::Unknown,
            ValueError::WrongDatatype { expected, actual } => ValueErrorView::WrongDatatype {
                expected: *expected,
                actual: *actual,
            },
            ValueError::WrongFormat { format } => ValueErrorView::WrongFormat { format: format@ },
            ValueError::ParseFailed { value, datatype } => ValueErrorView::ParseFailed {
                value: value@,
                datatype: *datatype,
            },
        }
    }
}

/// The error for a declared datatype `actual` that is not the `expected` one.
pub open spec fn wrong_datatype(expected: Datatype, actual: Datatype) -> ValueErrorView {
    ValueErrorView::WrongDatatype { expected, actual }
}

/// The error for the format string `format`.
pub open spec fn wrong_format(format: Seq<char>) -> ValueErrorView {
    ValueErrorView::WrongFormat { format }
}

/// The error for the payload `value` that writes no value of `datatype`.
pub open spec fn parse_failed(value: Seq<char>, datatype: Datatype) -> ValueErrorView {
    ValueErrorView::ParseFailed { value, datatype }
}

/// The outcome of a check, with the error as its view.
pub open spec fn check_view(r: Result<(), ValueError>) -> Result<(), ValueErrorView> {
    match r {
        Ok(()) => Ok(()),
        Err(e) => Err(e@),
    }
}

/// Checks the datatype `own` of a type of value against the one that a property
/// declares: a declared datatype must be `own`, and a missing one passes.
pub fn check_datatype(own: Datatype, declared: Option<Datatype>) -> (r: Result<(), ValueError>)
    ensures
        check_view(r) == if declared is Some && declared->0 != own {
            Err::<(), ValueErrorView>(wrong_datatype(own, declared->0))
        } else {
            Ok(())
        },
{
    match declared {
        Some(actual) => if actual != own {
            Err(ValueError::WrongDatatype { expected: own, actual })
        } else {
            Ok(())
        },
        None => Ok(()),
    }
}

/// A type of property values.
pub trait Value: Sized + View {
    /// The structured form of this type's format strings.
    type Format;

    /// The datatype of this type's values.
    spec fn spec_datatype() -> Datatype;

    /// Whether a property whose format string is `format` can hold values of this type.
    spec fn accepts_format(format: Seq<char>) -> bool;

    /// Whether `format` is a well-formed format string of this type.
    spec fn is_format(format: Seq<char>) -> bool;

    /// Whether `parsed` is the structured form of the format string `format`.
    spec fn format_means(format: Seq<char>, parsed: Self::Format) -> bool;

    /// Whether `v` is a value of this type, one that its constructors can make.
    spec fn valid(v: Self::V) -> bool;

    /// The value that the payload `text` writes, or `None` if it writes none.
    spec fn value_of(text: Seq<char>) -> Option<Self::V>;

    /// The payload that writes `v`.
    spec fn text_of(v: Self::V) -> Seq<char>;

    /// Every payload that can be read writes a valid value.
    proof fn lemma_value_valid(text: Seq<char>)
        ensures
            Self::value_of(text) is Some ==> Self::valid(Self::value_of(text)->0),
    ;

    /// Reading what was written gives the value back.
    proof fn lemma_round_trip(v: Self::V)
        requires
            Self::valid(v),
        ensures
            Self::value_of(Self::text_of(v)) == Some(v),
    ;

    /// The datatype of this type's values.
    fn datatype() -> (d: Datatype)
        ensures
            d == Self::spec_datatype(),
    ;

    /// Checks this type against the datatype and the format string that a property
    /// declares, either of which may be missing.
    ///
    /// A declared datatype must be the type's own; a missing one passes, and leaves the
    /// decision to the parsing of the payload. Only then is a declared format looked at,
    /// which the type must accept; a missing one passes.
    fn valid_for(datatype: Option<Datatype>, format: &Option<String>) -> (r: Result<
        (),
        ValueError,
    >)
        ensures
            check_view(r) == if datatype is Some && datatype->0 != Self::spec_datatype() {
                Err::<(), ValueErrorView>(wrong_datatype(Self::spec_datatype(), datatype->0))
            } else if format is Some && !Self::accepts_format(format->0@) {
                Err(wrong_format(format->0@))
            } else {
                Ok(())
            },
    {
        match check_datatype(Self::datatype(), datatype) {
            Err(e) => return Err(e),
            Ok(()) => {},
        }
        match format {
            Some(format) => Self::valid_for_format(format.as_str()),
            None => Ok(()),
        }
    }

    /// Checks this type against the format string that a property declares.
    fn valid_for_format(format: &str) -> (r: Result<(), ValueError>)
        ensures
            check_view(r) == if Self::accepts_format(format@) {
                Ok::<(), ValueErrorView>(())
            } else {
                Err(wrong_format(format@))
            },
    ;

    /// Turns a format string into its structured form.
    fn parse_format(format: &str) -> (r: Result<Self::Format, ValueError>)
        ensures
            match r {
                Ok(parsed) => Self::is_format(format@) && Self::format_means(format@, parsed),
                Err(e) => !Self::is_format(format@) && e@ == wrong_format(format@),
            },
    ;

    /// Reads a value from a payload.
    fn parse(text: &str) -> (r: Result<Self, ValueError>)
        ensures
            match r {
                Ok(v) => Self::value_of(text@) == Some(v@),
                Err(e) => Self::value_of(text@) is None && e@ == parse_failed(
                    text@,
                    Self::spec_datatype(),
                ),
            },
    ;

    /// Writes the value as a payload.
    fn serialize(&self) -> (text: String)
        ensures
            text@ == Self::text_of(self@),
    ;
}

} // verus!
