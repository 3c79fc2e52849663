//! The values that need no type of their own: integers, booleans and strings.

use crate::decimal::{
    is_literal_char, lemma_integer_numeral, lemma_literal_chars, read_i64, signed_numeral,
    text_i64, write_integer,
};
use crate::text::{
    chars_of, free_of, lemma_single_field_free, lemma_split_concat, lemma_split_nonempty,
    lemma_split_plain, same_text, split, split_spans,
};
use crate::types::Datatype;
use crate::values::{Value, ValueError};
use std::ops::RangeInclusive;
use vstd::prelude::*;

verus! {

/// The bounds that an integer format declares: two integer literals of 64 bits with a
/// single colon between them, the lower bound first. Both bounds belong to the range, and
/// nothing asks that the first be the smaller.
pub open spec fn integer_range(format: Seq<char>) -> Option<(i64, i64)> {
    let parts = split(format, ':');
    if parts.len() == 2 && text_i64(parts[0]) is Some && text_i64(parts[1]) is Some {
        Some((text_i64(parts[0])->0, text_i64(parts[1])->0))
    } else {
        None
    }
}

/// The payload of `true`.
pub open spec fn true_text() -> Seq<char> {
    seq!['t', 'r', 'u', 'e']
}

/// The payload of `false`.
pub open spec fn false_text() -> Seq<char> {
    seq!['f', 'a', 'l', 's', 'e']
}

/// A format without a colon declares no range.
pub proof fn lemma_range_needs_colon(format: Seq<char>)
    requires
        free_of(format, ':'),
    ensures
        integer_range(format) is None,
{
    lemma_split_plain(format, ':');
}

/// Two texts with a colon between them declare a range exactly when both are integer
/// literals of 64 bits, and then the range from the first number to the second. A second
/// colon, or a side that is no such literal, leaves no range.
pub proof fn lemma_range_of_sides(low: Seq<char>, high: Seq<char>)
    ensures
        integer_range(low.push(':') + high) == if text_i64(low) is Some && text_i64(high)
            is Some {
            Some((text_i64(low)->0, text_i64(high)->0))
        } else {
            None
        },
{
    let parts = split(low.push(':') + high, ':');
    lemma_split_concat(low, high, ':');
    lemma_split_nonempty(low, ':');
    lemma_split_nonempty(high, ':');
    assert(parts.len() == split(low, ':').len() + split(high, ':').len());
    if text_i64(low) is Some {
        lemma_literal_chars(low);
        assert forall|i: int| 0 <= i < low.len() implies low[i] != ':' by {
            assert(is_literal_char(low[i]));
        }
    }
    if text_i64(high) is Some {
        lemma_literal_chars(high);
        assert forall|i: int| 0 <= i < high.len() implies high[i] != ':' by {
            assert(is_literal_char(high[i]));
        }
    }
    if parts.len() == 2 {
        lemma_single_field_free(low, ':');
        lemma_single_field_free(high, ':');
    }
    if free_of(low, ':') && free_of(high, ':') {
        lemma_split_plain(low, ':');
        lemma_split_plain(high, ':');
        assert(parts =~= seq![low, high]);
    }
}

/// The two sides of a range format: the text before its colon and the text after it.
/// `None` if the format has no colon, or more than one.
pub fn range_sides(format: &str) -> (r: Option<(String, String)>)
    ensures
        match r {
            Some(sides) => split(format@, ':') == seq![sides.0@, sides.1@],
            None => split(format@, ':').len() != 2,
        },
{
    let chars = chars_of(format);
    let spans = split_spans(&chars, ':');
    if spans.len() != 2 {
        return None;
    }
    let (low_from, low_to) = spans[0];
    let (high_from, high_to) = spans[1];
    let low = format.substring_char(low_from, low_to).to_owned();
    let high = format.substring_char(high_from, high_to).to_owned();
    assert(split(format@, ':') =~= seq![low@, high@]);
    Some((low, high))
}

/// The bounds that an integer format declares.
pub fn read_integer_range(format: &str) -> (r: Option<(i64, i64)>)
    ensures
        r == integer_range(format@),
{
    let chars = chars_of(format);
    let spans = split_spans(&chars, ':');
    if spans.len() != 2 {
        return None;
    }
    let (low_from, low_to) = spans[0];
    let (high_from, high_to) = spans[1];
    match (read_i64(&chars, low_from, low_to), read_i64(&chars, high_from, high_to)) {
        (Some(low), Some(high)) => Some((low, high)),
        _ => None,
    }
}

impl Value for i64 {
    type Format = RangeInclusive<i64>;

    open spec fn spec_datatype() -> Datatype {
        Datatype::Integer
    }

    /// An integer goes with the formats that declare a range, and with no other.
    open spec fn accepts_format(format: Seq<char>) -> bool {
        integer_range(format) is Some
    }

    open spec fn is_format(format: Seq<char>) -> bool {
        integer_range(format) is Some
    }

    open spec fn format_means(format: Seq<char>, parsed: RangeInclusive<i64>) -> bool {
        &&& integer_range(format) == Some((parsed@.start, parsed@.end))
        &&& !parsed@.exhausted
    }

    open spec fn valid(v: i64) -> bool {
        true
    }

    open spec fn value_of(text: Seq<char>) -> Option<i64> {
        text_i64(text)
    }

    open spec fn text_of(v: i64) -> Seq<char> {
        signed_numeral(v as int)
    }

    proof fn lemma_value_valid(text: Seq<char>) {
    }

    proof fn lemma_round_trip(v: i64) {
        lemma_integer_numeral(v as int);
    }

    fn datatype() -> (d: Datatype) {
        Datatype::Integer
    }

    fn valid_for_format(format: &str) -> (r: Result<(), ValueError>) {
        match read_integer_range(format) {
            Some(_) => Ok(()),
            None => Err(ValueError::WrongFormat { format: format.to_owned() }),
        }
    }

    fn parse_format(format: &str) -> (r: Result<RangeInclusive<i64>, ValueError>) {
        match read_integer_range(format) {
            Some((low, high)) => Ok(RangeInclusive::new(low, high)),
            None => Err(ValueError::WrongFormat { format: format.to_owned() }),
        }
    }

    fn parse(text: &str) -> (r: Result<i64, ValueError>) {
        let chars = chars_of(text);
        assert(chars@.subrange(0, chars.len() as int) =~= text@);
        match read_i64(&chars, 0, chars.len()) {
            Some(v) => Ok(v),
            None => Err(
                ValueError::ParseFailed { value: text.to_owned(), datatype: Datatype::Integer },
            ),
        }
    }

    fn serialize(&self) -> (text: String) {
        let mut text = String::new();
        write_integer(&mut text, *self);
        assert(text@ =~= signed_numeral(*self as int));
        text
    }
}

impl Value for bool {
    type Format = ();

    open spec fn spec_datatype() -> Datatype {
        Datatype::Boolean
    }

    open spec fn accepts_format(format: Seq<char>) -> bool {
        true
    }

    open spec fn is_format(format: Seq<char>) -> bool {
        true
    }

    open spec fn format_means(format: Seq<char>, parsed: ()) -> bool {
        true
    }

    open spec fn valid(v: bool) -> bool {
        true
    }

    open spec fn value_of(text: Seq<char>) -> Option<bool> {
        if text == true_text() {
            Some(true)
        } else if text == false_text() {
            Some(false)
        } else {
            None
        }
    }

    open spec fn text_of(v: bool) -> Seq<char> {
        if v {
            true_text()
        } else {
            false_text()
        }
    }

    proof fn lemma_value_valid(text: Seq<char>) {
    }

    proof fn lemma_round_trip(v: bool) {
        assert(false_text().len() != true_text().len());
    }

    fn datatype() -> (d: Datatype) {
        Datatype::Boolean
    }

    fn valid_for_format(format: &str) -> (r: Result<(), ValueError>) {
        Ok(())
    }

    fn parse_format(format: &str) -> (r: Result<(), ValueError>) {
        Ok(())
    }

    fn parse(text: &str) -> (r: Result<bool, ValueError>) {
        proof {
            reveal_strlit("true");
            reveal_strlit("false");
            assert("true"@ =~= true_text());
            assert("false"@ =~= false_text());
        }
        if same_text(text, "true") {
            Ok(true)
        } else if same_text(text, "false") {
            Ok(false)
        } else {
            Err(ValueError::ParseFailed { value: text.to_owned(), datatype: Datatype::Boolean })
        }
    }

    fn serialize(&self) -> (text: String) {
        proof {
            reveal_strlit("true");
            reveal_strlit("false");
            assert("true"@ =~= true_text());
            assert("false"@ =~= false_text());
        }
        if *self {
            "true".to_owned()
        } else {
            "false".to_owned()
        }
    }
}

impl Value for String {
    type Format = ();

    open spec fn spec_datatype() -> Datatype {
        Datatype::String
    }

    open spec fn accepts_format(format: Seq<char>) -> bool {
        true
    }

    open spec fn is_format(format: Seq<char>) -> bool {
        true
    }

    open spec fn format_means(format: Seq<char>, parsed: ()) -> bool {
        true
    }

    open spec fn valid(v: Seq<char>) -> bool {
        true
    }

    open spec fn value_of(text: Seq<char>) -> Option<Seq<char>> {
        Some(text)
    }

    open spec fn text_of(v: Seq<char>) -> Seq<char> {
        v
    }

    proof fn lemma_value_valid(text: Seq<char>) {
    }

    proof fn lemma_round_trip(v: Seq<char>) {
    }

    fn datatype() -> (d: Datatype) {
        Datatype::String
    }

    fn valid_for_format(format: &str) -> (r: Result<(), ValueError>) {
        Ok(())
    }

    fn parse_format(format: &str) -> (r: Result<(), ValueError>) {
        Ok(())
    }

    fn parse(text: &str) -> (r: Result<String, ValueError>) {
        Ok(text.to_owned())
    }

    fn serialize(&self) -> (text: String) {
        self.clone()
    }
}

} // verus!
