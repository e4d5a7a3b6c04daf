//! The label scan: each leaf-like element of a document is tried against an
//! ordered table of labels, and the first label whose header cell precedes
//! it decides which field its text goes to.

use vstd::prelude::*;
use crate::data::comment::{comment_of, Comment, CommentError};
use crate::data::datetime::{kyiv_datetime, kyiv_datetime_of, DateTime};
use crate::data::internal_status::{internal_status_result, InternalStatus, InternalStatusError};
use crate::data::order_type::{order_type_result, OrderType, OrderTypeError};
use crate::data::status::{status_result, Status, StatusError};
use crate::data::time_constrains::{window_from_text, TimeConstrains, TimeConstrainsError};
use crate::dom::{locate, DocView, Document};
use crate::field::{res_view, u32_field};
use crate::number::parse_u32;
use crate::serializable_int_error_kind::SerializableIntErrorKind;
use crate::serializable_parse_error_kind::SerializableParseErrorKind;
use crate::text::{chars_of, string_of};

verus! {

pub open spec fn labels_view(v: Seq<Vec<char>>) -> Seq<Seq<char>> {
    v.map_values(|x: Vec<char>| x@)
}

/// The first label at index `k` or later that element `leaf` holds a value
/// for, with that value.
pub open spec fn first_match(d: DocView, leaf: int, labels: Seq<Seq<char>>, k: int) -> Option<(int, Seq<char>)>
    decreases labels.len() - k,
{
    if k < 0 || k >= labels.len() {
        None
    } else {
        match locate(d, leaf, labels[k]) {
            Some(t) => Some((k, t)),
            None => first_match(d, leaf, labels, k + 1),
        }
    }
}

/// The table `labels` as characters.
pub fn label_table(labels: &[&str]) -> (r: Vec<Vec<char>>)
    ensures
        r@.len() == labels@.len(),
        forall|k: int| 0 <= k < labels@.len() ==> (#[trigger] r@[k])@ == labels@[k]@,
{
    let mut out: Vec<Vec<char>> = Vec::new();
    let mut k: usize = 0;
    while k < labels.len()
        invariant
            k <= labels@.len(),
            out@.len() == k,
            forall|j: int| 0 <= j < k ==> (#[trigger] out@[j])@ == labels@[j]@,
        decreases labels.len() - k,
    {
        out.push(chars_of(labels[k]));
        k += 1;
    }
    out
}

/// The first label of the table that `leaf` holds a value for.
pub fn first_label(d: &Document, leaf: usize, labels: &Vec<Vec<char>>) -> (r: Option<(usize, Vec<char>)>)
    requires
        d.wf(),
        leaf < d.len(),
    ensures
        match r {
            Some((k, t)) => first_match(d@, leaf as int, labels_view(labels@), 0) == Some(
                (k as int, t@),
            ),
            None => first_match(d@, leaf as int, labels_view(labels@), 0) is None,
        },
{
    let ghost lv = labels_view(labels@);
    let mut k: usize = 0;
    while k < labels.len()
        invariant
            d.wf(),
            leaf < d.len(),
            lv == labels_view(labels@),
            k <= labels@.len(),
            first_match(d@, leaf as int, lv, 0) == first_match(d@, leaf as int, lv, k as int),
        decreases labels.len() - k,
    {
        match d.locate(leaf, labels[k].as_slice()) {
            Some(t) => {
                return Some((k, t));
            },
            None => {},
        }
        k += 1;
    }
    None
}

pub fn u32_value(t: &[char]) -> (r: Result<u32, SerializableIntErrorKind>)
    ensures
        r == u32_field(t@),
{
    parse_u32(t)
}

pub fn order_type_value(t: &[char]) -> (r: Result<OrderType, OrderTypeError>)
    ensures
        res_view(r) == order_type_result(t@),
{
    let s = string_of(t);
    OrderType::parse(s.as_str())
}

pub fn status_value(t: &[char]) -> (r: Result<Status, StatusError>)
    ensures
        res_view(r) == status_result(t@),
{
    let s = string_of(t);
    Status::parse(s.as_str())
}

pub fn internal_status_value(t: &[char]) -> (r: Result<InternalStatus, InternalStatusError>)
    ensures
        res_view(r) == internal_status_result(t@),
{
    let s = string_of(t);
    InternalStatus::parse(s.as_str())
}

pub fn datetime_value(t: &[char]) -> (r: Result<DateTime, SerializableParseErrorKind>)
    ensures
        res_view(r) == kyiv_datetime_of(t@),
{
    let s = string_of(t);
    kyiv_datetime(s.as_str())
}

pub fn window_value(t: &[char]) -> (r: Result<TimeConstrains, TimeConstrainsError>)
    ensures
        res_view(r) == window_from_text(t@),
{
    let s = string_of(t);
    TimeConstrains::from(s.as_str())
}

pub fn comment_value(t: &[char]) -> (r: Result<Comment, CommentError>)
    ensures
        res_view(r) == comment_of(t@),
{
    let s = string_of(t);
    Comment::from(s.as_str())
}

} // verus!
