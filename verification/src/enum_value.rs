//! Values of enum properties: one of a list of strings that the property declares.

use crate::text::{split, split_text, texts};
use crate::types::Datatype;
use crate::values::{Value, ValueError};
use vstd::prelude::*;

verus! {

/// The value of an enum property: a string that is not empty.
///
/// Whether the string is one of those that the property allows is for the holder of
/// both the value and the parsed format to decide.
#[derive(Debug, Eq, PartialEq, Hash)]
pub struct EnumValue(String);

/// A payload that is no enum value, because it is empty.
#[derive(Clone, Copy, Debug, Eq, PartialEq)]
pub struct ParseEnumError();

impl View for EnumValue {
    type V = Seq<char>;

    closed spec fn view(&self) -> Seq<char> {
        self.0@
    }
}

impl EnumValue {
    #[verifier::type_invariant]
    spec fn not_empty(&self) -> bool {
        self.0@.len() > 0
    }

    /// The enum value that is the string `s`, which is not empty.
    pub fn new(s: &str) -> (value: EnumValue)
        requires
            s@.len() > 0,
        ensures
            value@ == s@,
    {
        EnumValue(s.to_owned())
    }

    /// Reads an enum value from a payload: the payload itself, unless it is empty.
    pub fn from_str(s: &str) -> (r: Result<EnumValue, ParseEnumError>)
        ensures
            match r {
                Ok(value) => s@.len() > 0 && value@ == s@,
                Err(_) => s@.len() == 0,
            },
    {
        if s.is_empty() {
            Err(ParseEnumError())
        } else {
            Ok(EnumValue::new(s))
        }
    }

    /// Writes the value as a payload: the string itself, which is not empty.
    pub fn to_string(&self) -> (s: String)
        ensures
            s@ == self@,
            s@.len() > 0,
    {
        proof {
            use_type_invariant(self);
        }
        self.0.clone()
    }
}

impl Clone for EnumValue {
    fn clone(&self) -> (copy: EnumValue)
        ensures
            copy@ == self@,
    {
        proof {
            use_type_invariant(self);
        }
        EnumValue(self.0.clone())
    }
}

impl Value for EnumValue {
    /// The strings that the property allows, in the order of the format string.
    type Format = Vec<String>;

    open spec fn spec_datatype() -> Datatype {
        Datatype::Enum
    }

    /// An enum value goes with any format but the empty one, which lists no strings.
    open spec fn accepts_format(format: Seq<char>) -> bool {
        format.len() > 0
    }

    /// Any format but the empty one lists the allowed strings.
    open spec fn is_format(format: Seq<char>) -> bool {
        format.len() > 0
    }

    /// The allowed strings are the fields of the format between commas, as they stand:
    /// in order, untrimmed, with repetitions and with the empty ones.
    open spec fn format_means(format: Seq<char>, parsed: Vec<String>) -> bool {
        texts(parsed@) == split(format, ',')
    }

    open spec fn valid(v: Seq<char>) -> bool {
        v.len() > 0
    }

    open spec fn value_of(text: Seq<char>) -> Option<Seq<char>> {
        if text.len() > 0 {
            Some(text)
        } else {
            None
        }
    }

    open spec fn text_of(v: Seq<char>) -> Seq<char> {
        v
    }

    proof fn lemma_value_valid(text: Seq<char>) {
    }

    proof fn lemma_round_trip(v: Seq<char>) {
    }

    fn datatype() -> (d: Datatype) {
        Datatype::Enum
    }

    fn valid_for_format(format: &str) -> (r: Result<(), ValueError>) {
        if format.is_empty() {
            Err(ValueError::WrongFormat { format: format.to_owned() })
        } else {
            Ok(())
        }
    }

    fn parse_format(format: &str) -> (r: Result<Vec<String>, ValueError>) {
        if format.is_empty() {
            Err(ValueError::WrongFormat { format: format.to_owned() })
        } else {
            Ok(split_text(format, ','))
        }
    }

    fn parse(text: &str) -> (r: Result<EnumValue, ValueError>) {
        match EnumValue::from_str(text) {
            Ok(value) => Ok(value),
            Err(_) => Err(
                ValueError::ParseFailed { value: text.to_owned(), datatype: Datatype::Enum },
            ),
        }
    }

    /// The payload of an enum value is never empty, so it can always be read back.
    fn serialize(&self) -> (text: String)
        ensures
            text@.len() > 0,
            Self::valid(self@),
    {
        self.to_string()
    }
}

} // verus!
