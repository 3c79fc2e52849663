//! The datatypes that a property can declare.

use vstd::prelude::*;

verus! {

/// The datatype of a property's values, as the property declares it.
#[derive(Clone, Copy, Debug, PartialEq, Eq, Structural)]
pub enum Datatype {
    Integer,
    Float,
    Boolean,
    String,
    Enum,
    Color,
}

} // verus!
