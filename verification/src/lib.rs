//! Typed values of device properties: parsing them from text, checking them against a
//! property's declared datatype and format, and writing them back as text.
//!
//! A property declares a datatype and, optionally, a format string; its values travel
//! as text. [`Value`] is what every type of value can do. It is implemented for `i64`,
//! `bool` and `String`, for [`EnumValue`] and, through [`Color`], for [`ColorRGB`] and
//! [`ColorHSV`].
//!
//! Every contract speaks of the characters of a text. What a text means is written down
//! once, as a function of those characters: see [`decimal`] for numbers and [`text`] for
//! fields between separators.

pub mod color;
pub mod decimal;
pub mod enum_value;
pub mod scalar;
pub mod text;
pub mod types;
pub mod values;

pub use color::{Color, ColorFormat, ColorHSV, ColorRGB, ParseColorError};
pub use enum_value::{EnumValue, ParseEnumError};
pub use types::Datatype;
pub use values::{Value, ValueError};
