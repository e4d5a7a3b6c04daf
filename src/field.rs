//! The validity of a single field of a record: absent, present but not
//! readable, or read; and what the records hold, seen as plain values.

use vstd::prelude::*;
use crate::data::address::{address_from_parts, Address, AddressError, AddressView};
use crate::data::mdu::MDUError;
use crate::data::time_constrains::TimeConstrainsError;
use crate::number::parse_unsigned;
use crate::serializable_int_error_kind::SerializableIntErrorKind;
use crate::serializable_parse_error_kind::SerializableParseErrorKind;
use crate::text::{split_first, split_first_exec, until_char, until_char_exec, string_of};

verus! {

impl View for SerializableIntErrorKind {
    type V = SerializableIntErrorKind;

    open spec fn view(&self) -> SerializableIntErrorKind {
        *self
    }
}

impl View for SerializableParseErrorKind {
    type V = SerializableParseErrorKind;

    open spec fn view(&self) -> SerializableParseErrorKind {
        *self
    }
}

impl View for TimeConstrainsError {
    type V = TimeConstrainsError;

    open spec fn view(&self) -> TimeConstrainsError {
        *self
    }
}

impl View for MDUError {
    type V = MDUError;

    open spec fn view(&self) -> MDUError {
        *self
    }
}

impl View for AddressError {
    type V = AddressError;

    open spec fn view(&self) -> AddressError {
        *self
    }
}

pub open spec fn res_view<T: View, E: View>(r: Result<T, E>) -> Result<T::V, E::V> {
    match r {
        Ok(v) => Ok(v@),
        Err(e) => Err(e@),
    }
}

/// A field as a plain value: absent, or present with what reading it gave.
pub open spec fn field_view<T: View, E: View>(f: Option<Result<T, E>>) -> Option<Result<T::V, E::V>> {
    match f {
        Some(r) => Some(res_view(r)),
        None => None,
    }
}

pub open spec fn opt_view<T: View>(f: Option<T>) -> Option<T::V> {
    match f {
        Some(v) => Some(v@),
        None => None,
    }
}

pub open spec fn strings_view(v: Seq<String>) -> Seq<Seq<char>> {
    v.map_values(|s: String| s@)
}

/// The value of a field that is present and was read; none otherwise.
pub open spec fn required<T, E>(f: Option<Result<T, E>>) -> Option<T> {
    match f {
        Some(Ok(v)) => Some(v),
        _ => None,
    }
}

/// The value of a field that is present and was read; none where it is
/// absent or could not be read.
pub fn require<T, E>(f: Option<Result<T, E>>) -> (r: Option<T>)
    ensures
        r == required(f),
{
    match f {
        Some(Ok(v)) => Some(v),
        _ => None,
    }
}

/// A `u32` read from a field's text.
pub open spec fn u32_field(t: Seq<char>) -> Result<u32, SerializableIntErrorKind> {
    match parse_unsigned(t, u32::MAX as int) {
        Ok(v) => Ok(v as u32),
        Err(e) => Err(e),
    }
}

/// An address made from a city, an address line `street,building[,...]` and
/// an apartment; none where one of them is missing or the line has no comma.
pub open spec fn assemble_address(
    city: Option<Seq<char>>,
    line: Option<Seq<char>>,
    apartment: Option<Seq<char>>,
) -> Option<AddressView> {
    match (city, line, apartment) {
        (Some(c), Some(l), Some(a)) => match split_first(l, ',') {
            Some((street, rest)) => Some(address_from_parts(c, street, until_char(rest, ','), a)),
            None => None,
        },
        _ => None,
    }
}

pub fn assemble_address_exec(
    city: Option<Vec<char>>,
    line: Option<Vec<char>>,
    apartment: Option<Vec<char>>,
) -> (r: Option<Address>)
    ensures
        opt_view(r) == assemble_address(opt_view(city), opt_view(line), opt_view(apartment)),
{
    match (city, line, apartment) {
        (Some(c), Some(l), Some(a)) => match split_first_exec(l.as_slice(), ',') {
            Some((street, rest)) => {
                let building = until_char_exec(rest.as_slice(), ',');
                Some(
                    Address::from_parts(
                        string_of(c.as_slice()),
                        string_of(street.as_slice()),
                        string_of(building.as_slice()),
                        string_of(a.as_slice()),
                    ),
                )
            },
            None => None,
        },
        _ => None,
    }
}

} // verus!
