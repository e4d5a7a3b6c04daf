//! Why a date or a time could not be read.

use vstd::prelude::*;

verus! {

/// The ways in which reading a date or a date-time fails.
#[derive(Clone, Copy, PartialEq, Eq, Structural, PartialOrd, Ord, Debug, Hash)]
pub enum SerializableParseErrorKind {
    OutOfRange,
    Impossible,
    NotEnough,
    Invalid,
    TooShort,
    TooLong,
    BadFormat,
    Unknown,
}

impl Default for SerializableParseErrorKind {
    fn default() -> (r: Self)
        ensures
            r == SerializableParseErrorKind::Unknown,
    {
        SerializableParseErrorKind::Unknown
    }
}

} // verus!
