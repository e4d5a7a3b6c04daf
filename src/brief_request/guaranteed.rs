//! Brief orders whose required fields are all present and valid.

use vstd::prelude::*;
use super::{BriefRequest, BriefRequestView};
use crate::data::address::{Address, AddressView};
use crate::data::comment::{Comment, CommentView};
use crate::data::datetime::DateTime;
use crate::data::internal_status::InternalStatus;
use crate::data::order_type::OrderType;
use crate::data::status::Status;
use crate::data::time_constrains::TimeConstrains;
use crate::field::{opt_view, require, required, strings_view};

verus! {

/// A brief order with every required field resolved; the service package
/// stays optional.
#[derive(Clone, PartialEq, Eq, PartialOrd, Ord, Debug, Hash)]
pub struct GuaranteedBriefRequest {
    pub order_id: u32,
    pub internal_order_id: u32,
    pub order_type: OrderType,
    pub creation_date: DateTime,
    pub internal_status: InternalStatus,
    pub address: Address,
    pub client: String,
    pub service: Option<String>,
    pub pa: String,
    pub time_constrains: TimeConstrains,
    pub installers: Vec<String>,
    pub last_comment: Option<Comment>,
    pub first_comment: Option<Comment>,
    pub status: Status,
    /// Holds at least one number.
    pub phones: Vec<String>,
}

pub struct GuaranteedBriefRequestView {
    pub order_id: u32,
    pub internal_order_id: u32,
    pub order_type: OrderType,
    pub creation_date: DateTime,
    pub internal_status: InternalStatus,
    pub address: AddressView,
    pub client: Seq<char>,
    pub service: Option<Seq<char>>,
    pub pa: Seq<char>,
    pub time_constrains: TimeConstrains,
    pub installers: Seq<Seq<char>>,
    pub last_comment: Option<CommentView>,
    pub first_comment: Option<CommentView>,
    pub status: Status,
    pub phones: Seq<Seq<char>>,
}

impl View for GuaranteedBriefRequest {
    type V = GuaranteedBriefRequestView;

    open spec fn view(&self) -> GuaranteedBriefRequestView {
        GuaranteedBriefRequestView {
            order_id: self.order_id,
            internal_order_id: self.internal_order_id,
            order_type: self.order_type,
            creation_date: self.creation_date,
            internal_status: self.internal_status,
            address: self.address@,
            client: self.client@,
            service: opt_view(self.service),
            pa: self.pa@,
            time_constrains: self.time_constrains,
            installers: strings_view(self.installers@),
            last_comment: opt_view(self.last_comment),
            first_comment: opt_view(self.first_comment),
            status: self.status,
            phones: strings_view(self.phones@),
        }
    }
}

/// Whether every required field of a brief order is present and valid: at
/// least one phone, both comments read, and all other fields but the
/// service package and the installers.
pub open spec fn brief_is_complete(v: BriefRequestView) -> bool {
    &&& v.phones.len() > 0
    &&& required(v.order_id) is Some
    &&& required(v.internal_order_id) is Some
    &&& required(v.order_type) is Some
    &&& required(v.creation_date) is Some
    &&& required(v.internal_status) is Some
    &&& v.address is Some
    &&& v.client is Some
    &&& v.pa is Some
    &&& required(v.time_constrains) is Some
    &&& required(v.last_comment) is Some
    &&& required(v.first_comment) is Some
    &&& required(v.status) is Some
}

/// The guaranteed form of a complete brief order.
pub open spec fn brief_guaranteed(v: BriefRequestView) -> GuaranteedBriefRequestView {
    GuaranteedBriefRequestView {
        order_id: required(v.order_id)->0,
        internal_order_id: required(v.internal_order_id)->0,
        order_type: required(v.order_type)->0,
        creation_date: required(v.creation_date)->0,
        internal_status: required(v.internal_status)->0,
        address: v.address->0,
        client: v.client->0,
        service: v.service,
        pa: v.pa->0,
        time_constrains: required(v.time_constrains)->0,
        installers: v.installers,
        last_comment: Some(required(v.last_comment)->0),
        first_comment: Some(required(v.first_comment)->0),
        status: required(v.status)->0,
        phones: v.phones,
    }
}

impl BriefRequest {
    /// The guaranteed form of this brief order, present exactly when every
    /// required field is.
    pub fn into_guaranteed(self) -> (r: Option<GuaranteedBriefRequest>)
        ensures
            r is Some <==> brief_is_complete(self@),
            r matches Some(g) ==> g@ == brief_guaranteed(self@),
    {
        let ghost v = self@;
        if self.phones.len() == 0 {
            return None;
        }
        let order_id = match require(self.order_id) { Some(x) => x, None => return None };
        let internal_order_id = match require(self.internal_order_id) { Some(x) => x, None => return None };
        let order_type = match require(self.order_type) { Some(x) => x, None => return None };
        let creation_date = match require(self.creation_date) { Some(x) => x, None => return None };
        let internal_status = match require(self.internal_status) { Some(x) => x, None => return None };
        let address = match self.address { Some(x) => x, None => return None };
        let client = match self.client { Some(x) => x, None => return None };
        let pa = match self.pa { Some(x) => x, None => return None };
        let time_constrains = match require(self.time_constrains) { Some(x) => x, None => return None };
        let last_comment = match require(self.last_comment) { Some(x) => x, None => return None };
        let first_comment = match require(self.first_comment) { Some(x) => x, None => return None };
        let status = match require(self.status) { Some(x) => x, None => return None };
        Some(
            GuaranteedBriefRequest {
                order_id,
                internal_order_id,
                order_type,
                creation_date,
                internal_status,
                address,
                client,
                service: self.service,
                pa,
                time_constrains,
                installers: self.installers,
                last_comment: Some(last_comment),
                first_comment: Some(first_comment),
                status,
                phones: self.phones,
            },
        )
    }
}

} // verus!
