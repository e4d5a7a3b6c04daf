//! Why a decimal integer could not be read.

use vstd::prelude::*;

verus! {

/// The ways in which reading an unsigned decimal integer fails.
#[derive(Clone, Copy, PartialEq, Eq, Structural, PartialOrd, Ord, Debug, Hash)]
pub enum SerializableIntErrorKind {
    Empty,
    InvalidDigit,
    PosOverflow,
    NegOverflow,
    Zero,
}

} // verus!
