//! Colors: the two encodings that a color property can declare, and a type of value for
//! each.
//!
//! A color travels as three numbers with commas between them and no spaces. The format
//! string of a color property names the encoding, `rgb` or `hsv`.

use crate::decimal::{
    is_literal_char, lemma_literal_chars, lemma_natural_numeral, natural, natural_up_to, numeral,
    read_u16, read_u8, text_u16, text_u8, write_natural,
};
use crate::text::{
    chars_of, free_of, join, lemma_join_three, lemma_split_join, same_text, split, split_spans,
};
use crate::types::Datatype;
use crate::values::{wrong_format, Value, ValueError};
use vstd::prelude::*;

verus! {

/// The encoding of a color property: red, green and blue, or hue, saturation and value.
#[derive(Clone, Copy, Debug, Eq, PartialEq, Structural)]
pub enum ColorFormat {
    /// Red, green and blue.
    RGB,
    /// Hue, saturation and value.
    HSV,
}

/// The encoding that a format string names: `rgb` or `hsv`, in lower case and with
/// nothing around it.
pub open spec fn color_format(text: Seq<char>) -> Option<ColorFormat> {
    if text == ColorFormat::RGB.text() {
        Some(ColorFormat::RGB)
    } else if text == ColorFormat::HSV.text() {
        Some(ColorFormat::HSV)
    } else {
        None
    }
}

impl ColorFormat {
    /// The format string that names this encoding.
    pub open spec fn text(self) -> Seq<char> {
        match self {
            ColorFormat::RGB => seq!['r', 'g', 'b'],
            ColorFormat::HSV => seq!['h', 's', 'v'],
        }
    }

    /// The format string that names this encoding.
    pub fn as_str(&self) -> (s: &'static str)
        ensures
            s@ == self.text(),
    {
        proof {
            reveal_strlit("rgb");
            reveal_strlit("hsv");
            assert("rgb"@ =~= ColorFormat::RGB.text());
            assert("hsv"@ =~= ColorFormat::HSV.text());
        }
        match self {
            ColorFormat::RGB => "rgb",
            ColorFormat::HSV => "hsv",
        }
    }

    /// The encoding that the format string `s` names.
    pub fn from_str(s: &str) -> (r: Result<ColorFormat, ValueError>)
        ensures
            match r {
                Ok(format) => color_format(s@) == Some(format),
                Err(e) => color_format(s@) is None && e@ == wrong_format(s@),
            },
    {
        if same_text(s, ColorFormat::RGB.as_str()) {
            Ok(ColorFormat::RGB)
        } else if same_text(s, ColorFormat::HSV.as_str()) {
            Ok(ColorFormat::HSV)
        } else {
            Err(ValueError::WrongFormat { format: s.to_owned() })
        }
    }

    /// The format string that names this encoding, as a string of its own.
    pub fn to_string(&self) -> (s: String)
        ensures
            s@ == self.text(),
    {
        self.as_str().to_owned()
    }
}

/// The names of the two encodings differ, and each names itself.
pub proof fn lemma_color_format_text(format: ColorFormat)
    ensures
        color_format(format.text()) == Some(format),
{
    assert(ColorFormat::RGB.text()[0] != ColorFormat::HSV.text()[0]);
}

/// A payload that is no color.
#[derive(Clone, Copy, Debug, Eq, PartialEq)]
pub struct ParseColorError();

/// A type of color values: one encoding, with its payloads.
pub trait Color: Sized + View {
    /// The encoding of this type's colors.
    spec fn spec_format() -> ColorFormat;

    /// Whether `v` is a color of this type, with every channel in its range.
    spec fn valid_color(v: Self::V) -> bool;

    /// The color that the payload `text` writes, or `None` if it writes none.
    spec fn color_of(text: Seq<char>) -> Option<Self::V>;

    /// The payload that writes `v`.
    spec fn color_text(v: Self::V) -> Seq<char>;

    /// Every payload that can be read writes a color with its channels in range.
    proof fn lemma_color_valid(text: Seq<char>)
        ensures
            Self::color_of(text) is Some ==> Self::valid_color(Self::color_of(text)->0),
    ;

    /// Reading what was written gives the color back.
    proof fn lemma_color_round_trip(v: Self::V)
        requires
            Self::valid_color(v),
        ensures
            Self::color_of(Self::color_text(v)) == Some(v),
    ;

    /// The encoding of this type's colors.
    fn format() -> (f: ColorFormat)
        ensures
            f == Self::spec_format(),
    ;

    /// Reads a color from a payload.
    fn from_str(s: &str) -> (r: Result<Self, ParseColorError>)
        ensures
            match r {
                Ok(c) => Self::color_of(s@) == Some(c@),
                Err(_) => Self::color_of(s@) is None,
            },
    ;

    /// Writes the color as a payload.
    fn to_string(&self) -> (s: String)
        ensures
            s@ == Self::color_text(self@),
    ;
}

/// Every type of color is a type of value: its datatype is `Color`, it goes with the
/// format string that names its own encoding and with no other, and its format strings
/// are those that name an encoding, whichever.
impl<T: Color> Value for T {
    type Format = ColorFormat;

    open spec fn spec_datatype() -> Datatype {
        Datatype::Color
    }

    open spec fn accepts_format(format: Seq<char>) -> bool {
        format == T::spec_format().text()
    }

    open spec fn is_format(format: Seq<char>) -> bool {
        color_format(format) is Some
    }

    open spec fn format_means(format: Seq<char>, parsed: ColorFormat) -> bool {
        color_format(format) == Some(parsed)
    }

    open spec fn valid(v: T::V) -> bool {
        T::valid_color(v)
    }

    open spec fn value_of(text: Seq<char>) -> Option<T::V> {
        T::color_of(text)
    }

    open spec fn text_of(v: T::V) -> Seq<char> {
        T::color_text(v)
    }

    proof fn lemma_value_valid(text: Seq<char>) {
        T::lemma_color_valid(text);
    }

    proof fn lemma_round_trip(v: T::V) {
        T::lemma_color_round_trip(v);
    }

    fn datatype() -> (d: Datatype) {
        Datatype::Color
    }

    fn valid_for_format(format: &str) -> (r: Result<(), ValueError>) {
        if same_text(format, T::format().as_str()) {
            Ok(())
        } else {
            Err(ValueError::WrongFormat { format: format.to_owned() })
        }
    }

    fn parse_format(format: &str) -> (r: Result<ColorFormat, ValueError>) {
        ColorFormat::from_str(format)
    }

    fn parse(text: &str) -> (r: Result<T, ValueError>) {
        match T::from_str(text) {
            Ok(color) => Ok(color),
            Err(_) => Err(
                ValueError::ParseFailed { value: text.to_owned(), datatype: Datatype::Color },
            ),
        }
    }

    fn serialize(&self) -> (text: String) {
        self.to_string()
    }
}

/// A color as red, green and blue, each from 0 to 255.
#[derive(Clone, Copy, Debug, Eq, PartialEq, Structural)]
pub struct ColorRGB {
    /// The red channel.
    pub r: u8,
    /// The green channel.
    pub g: u8,
    /// The blue channel.
    pub b: u8,
}

impl View for ColorRGB {
    type V = ColorRGB;

    open spec fn view(&self) -> ColorRGB {
        *self
    }
}

/// The color that a payload writes as red, green and blue: three fields between commas,
/// each a natural literal of a number up to 255.
pub open spec fn rgb_of(text: Seq<char>) -> Option<ColorRGB> {
    let fields = split(text, ',');
    if fields.len() == 3 && text_u8(fields[0]) is Some && text_u8(fields[1]) is Some && text_u8(
        fields[2],
    ) is Some {
        Some(
            ColorRGB {
                r: text_u8(fields[0])->0,
                g: text_u8(fields[1])->0,
                b: text_u8(fields[2])->0,
            },
        )
    } else {
        None
    }
}

/// The payload of a color of red, green and blue: the numerals of the three channels
/// with commas between them.
pub open spec fn rgb_text(c: ColorRGB) -> Seq<char> {
    join(seq![numeral(c.r as nat), numeral(c.g as nat), numeral(c.b as nat)], ',')
}

impl ColorRGB {
    /// The color with the channels `r`, `g` and `b`.
    pub fn new(r: u8, g: u8, b: u8) -> (c: ColorRGB)
        ensures
            c == (ColorRGB { r, g, b }),
    {
        ColorRGB { r, g, b }
    }
}

/// A natural literal holds no comma.
pub proof fn lemma_literal_without_comma(s: Seq<char>)
    requires
        natural(s) is Some,
    ensures
        free_of(s, ','),
{
    lemma_literal_chars(s);
    assert forall|i: int| 0 <= i < s.len() implies s[i] != ',' by {
        assert(is_literal_char(s[i]));
    }
}

/// Three numerals joined by commas split into those three numerals again.
pub proof fn lemma_split_numerals(a: nat, b: nat, c: nat)
    ensures
        split(join(seq![numeral(a), numeral(b), numeral(c)], ','), ',') == seq![
            numeral(a),
            numeral(b),
            numeral(c),
        ],
{
    let fields = seq![numeral(a), numeral(b), numeral(c)];
    lemma_natural_numeral(a);
    lemma_natural_numeral(b);
    lemma_natural_numeral(c);
    lemma_literal_without_comma(numeral(a));
    lemma_literal_without_comma(numeral(b));
    lemma_literal_without_comma(numeral(c));
    lemma_split_join(fields, ',');
}

/// A payload writes a color of red, green and blue exactly when it has three fields
/// between commas and each of them writes a byte: with fewer fields or more, or with a
/// field that is no literal or writes a number above 255, it writes none.
pub proof fn lemma_rgb_needs_three_bytes(text: Seq<char>)
    ensures
        rgb_of(text) is Some <==> {
            &&& split(text, ',').len() == 3
            &&& forall|i: int| 0 <= i < 3 ==> text_u8(#[trigger] split(text, ',')[i]) is Some
        },
{
    let fields = split(text, ',');
    if fields.len() == 3 && (forall|i: int| 0 <= i < 3 ==> text_u8(#[trigger] fields[i]) is Some) {
        assert(text_u8(fields[0]) is Some);
        assert(text_u8(fields[1]) is Some);
        assert(text_u8(fields[2]) is Some);
    }
}

impl Color for ColorRGB {
    open spec fn spec_format() -> ColorFormat {
        ColorFormat::RGB
    }

    open spec fn valid_color(v: ColorRGB) -> bool {
        true
    }

    open spec fn color_of(text: Seq<char>) -> Option<ColorRGB> {
        rgb_of(text)
    }

    open spec fn color_text(v: ColorRGB) -> Seq<char> {
        rgb_text(v)
    }

    proof fn lemma_color_valid(text: Seq<char>) {
    }

    proof fn lemma_color_round_trip(v: ColorRGB) {
        lemma_split_numerals(v.r as nat, v.g as nat, v.b as nat);
        lemma_natural_numeral(v.r as nat);
        lemma_natural_numeral(v.g as nat);
        lemma_natural_numeral(v.b as nat);
    }

    fn format() -> (f: ColorFormat) {
        ColorFormat::RGB
    }

    fn from_str(s: &str) -> (r: Result<ColorRGB, ParseColorError>) {
        let chars = chars_of(s);
        let spans = split_spans(&chars, ',');
        if spans.len() != 3 {
            return Err(ParseColorError());
        }
        let (r_from, r_to) = spans[0];
        let (g_from, g_to) = spans[1];
        let (b_from, b_to) = spans[2];
        match (
            read_u8(&chars, r_from, r_to),
            read_u8(&chars, g_from, g_to),
            read_u8(&chars, b_from, b_to),
        ) {
            (Some(r), Some(g), Some(b)) => Ok(ColorRGB { r, g, b }),
            _ => Err(ParseColorError()),
        }
    }

    fn to_string(&self) -> (s: String) {
        let mut s = String::new();
        write_natural(&mut s, self.r as u64);
        s.append(",");
        write_natural(&mut s, self.g as u64);
        s.append(",");
        write_natural(&mut s, self.b as u64);
        proof {
            reveal_strlit(",");
            assert(","@ =~= seq![',']);
            lemma_join_three(
                numeral(self.r as nat),
                numeral(self.g as nat),
                numeral(self.b as nat),
                ',',
            );
            assert(s@ =~= rgb_text(*self));
        }
        s
    }
}

/// A color as hue, from 0 to 360, and saturation and value, each from 0 to 100.
#[derive(Clone, Copy, Debug, Eq, PartialEq, Structural)]
pub struct ColorHSV {
    /// The hue, from 0 to 360.
    pub h: u16,
    /// The saturation, from 0 to 100.
    pub s: u8,
    /// The value, from 0 to 100.
    pub v: u8,
}

impl View for ColorHSV {
    type V = ColorHSV;

    open spec fn view(&self) -> ColorHSV {
        *self
    }
}

/// The color that a payload writes as hue, saturation and value: three fields between
/// commas, a natural literal of a number up to 65535 and two of numbers up to 255, which
/// together are in range. A number that fits its field and is out of range writes no
/// color.
pub open spec fn hsv_of(text: Seq<char>) -> Option<ColorHSV> {
    let fields = split(text, ',');
    if fields.len() == 3 && text_u16(fields[0]) is Some && text_u8(fields[1]) is Some && text_u8(
        fields[2],
    ) is Some {
        let c = ColorHSV {
            h: text_u16(fields[0])->0,
            s: text_u8(fields[1])->0,
            v: text_u8(fields[2])->0,
        };
        if c.in_range() {
            Some(c)
        } else {
            None
        }
    } else {
        None
    }
}

/// The payload of a color of hue, saturation and value: the numerals of the three
/// channels with commas between them.
pub open spec fn hsv_text(c: ColorHSV) -> Seq<char> {
    join(seq![numeral(c.h as nat), numeral(c.s as nat), numeral(c.v as nat)], ',')
}

impl ColorHSV {
    /// Whether every channel is in its range: the hue 360 at most, the saturation and the
    /// value 100 at most.
    pub open spec fn in_range(self) -> bool {
        self.h <= 360 && self.s <= 100 && self.v <= 100
    }

    /// The color with the channels `h`, `s` and `v`, which are in range.
    pub fn new(h: u16, s: u8, v: u8) -> (c: ColorHSV)
        requires
            h <= 360,
            s <= 100,
            v <= 100,
        ensures
            c == (ColorHSV { h, s, v }),
            c.in_range(),
    {
        ColorHSV { h, s, v }
    }
}

/// Reading the payload of any hue, saturation and value gives the color back if its
/// channels are in range, and nothing if one of them is not.
pub proof fn lemma_hsv_range_decides(c: ColorHSV)
    ensures
        hsv_of(hsv_text(c)) == if c.in_range() {
            Some(c)
        } else {
            None
        },
{
    lemma_split_numerals(c.h as nat, c.s as nat, c.v as nat);
    lemma_natural_numeral(c.h as nat);
    lemma_natural_numeral(c.s as nat);
    lemma_natural_numeral(c.v as nat);
}

/// A payload writes a color of hue, saturation and value exactly when it has three
/// fields between commas, the first writes a number up to 360 and the other two write
/// numbers up to 100.
pub proof fn lemma_hsv_needs_three_in_range(text: Seq<char>)
    ensures
        hsv_of(text) is Some <==> {
            &&& split(text, ',').len() == 3
            &&& natural_up_to(split(text, ',')[0], 360) is Some
            &&& natural_up_to(split(text, ',')[1], 100) is Some
            &&& natural_up_to(split(text, ',')[2], 100) is Some
        },
{
}

impl Color for ColorHSV {
    open spec fn spec_format() -> ColorFormat {
        ColorFormat::HSV
    }

    open spec fn valid_color(v: ColorHSV) -> bool {
        v.in_range()
    }

    open spec fn color_of(text: Seq<char>) -> Option<ColorHSV> {
        hsv_of(text)
    }

    open spec fn color_text(v: ColorHSV) -> Seq<char> {
        hsv_text(v)
    }

    proof fn lemma_color_valid(text: Seq<char>) {
    }

    proof fn lemma_color_round_trip(v: ColorHSV) {
        lemma_hsv_range_decides(v);
    }

    fn format() -> (f: ColorFormat) {
        ColorFormat::HSV
    }

    fn from_str(s: &str) -> (r: Result<ColorHSV, ParseColorError>) {
        let chars = chars_of(s);
        let spans = split_spans(&chars, ',');
        if spans.len() != 3 {
            return Err(ParseColorError());
        }
        let (h_from, h_to) = spans[0];
        let (s_from, s_to) = spans[1];
        let (v_from, v_to) = spans[2];
        match (
            read_u16(&chars, h_from, h_to),
            read_u8(&chars, s_from, s_to),
            read_u8(&chars, v_from, v_to),
        ) {
            (Some(h), Some(s), Some(v)) => if h <= 360 && s <= 100 && v <= 100 {
                Ok(ColorHSV { h, s, v })
            } else {
                Err(ParseColorError())
            },
            _ => Err(ParseColorError()),
        }
    }

    fn to_string(&self) -> (s: String) {
        let mut s = String::new();
        write_natural(&mut s, self.h as u64);
        s.append(",");
        write_natural(&mut s, self.s as u64);
        s.append(",");
        write_natural(&mut s, self.v as u64);
        proof {
            reveal_strlit(",");
            assert(","@ =~= seq![',']);
            lemma_join_three(
                numeral(self.h as nat),
                numeral(self.s as nat),
                numeral(self.v as nat),
                ',',
            );
            assert(s@ =~= hsv_text(*self));
        }
        s
    }
}

} // verus!
