//! Detailed orders whose required fields are all present and valid.

use vstd::prelude::*;
use super::{ViewRequest, ViewRequestView};
use crate::data::address::{Address, AddressView};
use crate::data::datetime::{Date, DateTime};
use crate::data::full_comment::{FullComment, FullCommentError, FullCommentErrorView, FullCommentView};
use crate::data::internal_status::InternalStatus;
use crate::data::order_type::OrderType;
use crate::data::status::Status;
use crate::data::time_constrains::TimeConstrains;
use crate::field::{opt_view, require, required, strings_view};

verus! {

/// A detailed order with every required field resolved and every history
/// entry read; service package and seller stay optional.
#[derive(Clone, PartialEq, Eq, PartialOrd, Ord, Debug, Hash)]
pub struct GuaranteedViewRequest {
    pub order_id: u32,
    pub internal_order_id: u32,
    pub order_type: OrderType,
    pub creation_date: DateTime,
    pub internal_status: InternalStatus,
    pub address: Address,
    pub client: String,
    pub service: Option<String>,
    pub pa: String,
    pub seller: Option<String>,
    pub time_constrains: TimeConstrains,
    pub installers: Vec<String>,
    pub status: Status,
    pub phones: Vec<String>,
    pub assigned_for: Date,
    pub comments: Vec<FullComment>,
}

pub struct GuaranteedViewRequestView {
    pub order_id: u32,
    pub internal_order_id: u32,
    pub order_type: OrderType,
    pub creation_date: DateTime,
    pub internal_status: InternalStatus,
    pub address: AddressView,
    pub client: Seq<char>,
    pub service: Option<Seq<char>>,
    pub pa: Seq<char>,
    pub seller: Option<Seq<char>>,
    pub time_constrains: TimeConstrains,
    pub installers: Seq<Seq<char>>,
    pub status: Status,
    pub phones: Seq<Seq<char>>,
    pub assigned_for: Date,
    pub comments: Seq<FullCommentView>,
}

impl View for GuaranteedViewRequest {
    type V = GuaranteedViewRequestView;

    open spec fn view(&self) -> GuaranteedViewRequestView {
        GuaranteedViewRequestView {
            order_id: self.order_id,
            internal_order_id: self.internal_order_id,
            order_type: self.order_type,
            creation_date: self.creation_date,
            internal_status: self.internal_status,
            address: self.address@,
            client: self.client@,
            service: opt_view(self.service),
            pa: self.pa@,
            seller: opt_view(self.seller),
            time_constrains: self.time_constrains,
            installers: strings_view(self.installers@),
            status: self.status,
            phones: strings_view(self.phones@),
            assigned_for: self.assigned_for,
            comments: self.comments@.map_values(|c: FullComment| c@),
        }
    }
}

/// Whether every history entry was read.
pub open spec fn history_is_complete(c: Seq<Result<FullCommentView, FullCommentErrorView>>) -> bool {
    forall|i: int| 0 <= i < c.len() ==> (#[trigger] c[i]) is Ok
}

/// Whether every required field of a detailed order is present and valid:
/// at least one phone, every history entry read, and all other fields but
/// the service package, the seller and the installers.
pub open spec fn view_is_complete(v: ViewRequestView) -> bool {
    &&& v.phones.len() > 0
    &&& history_is_complete(v.comments)
    &&& required(v.order_id) is Some
    &&& required(v.internal_order_id) is Some
    &&& required(v.order_type) is Some
    &&& required(v.creation_date) is Some
    &&& required(v.internal_status) is Some
    &&& v.address is Some
    &&& v.client is Some
    &&& v.pa is Some
    &&& required(v.time_constrains) is Some
    &&& required(v.status) is Some
    &&& required(v.assigned_for) is Some
}

/// The guaranteed form of a complete detailed order.
pub open spec fn view_guaranteed(v: ViewRequestView) -> GuaranteedViewRequestView {
    GuaranteedViewRequestView {
        order_id: required(v.order_id)->0,
        internal_order_id: required(v.internal_order_id)->0,
        order_type: required(v.order_type)->0,
        creation_date: required(v.creation_date)->0,
        internal_status: required(v.internal_status)->0,
        address: v.address->0,
        client: v.client->0,
        service: v.service,
        pa: v.pa->0,
        seller: v.seller,
        time_constrains: required(v.time_constrains)->0,
        installers: v.installers,
        status: required(v.status)->0,
        phones: v.phones,
        assigned_for: required(v.assigned_for)->0,
        comments: v.comments.map_values(|c: Result<FullCommentView, FullCommentErrorView>| c->Ok_0),
    }
}

impl ViewRequest {
    /// The guaranteed form of this detailed order, present exactly when
    /// every required field is and every history entry was read.
    pub fn into_guaranteed(self) -> (r: Option<GuaranteedViewRequest>)
        ensures
            r is Some <==> view_is_complete(self@),
            r matches Some(g) ==> g@ == view_guaranteed(self@),
    {
        let ghost v = self@;
        if self.phones.len() == 0 {
            return None;
        }
        let mut comments: Vec<FullComment> = Vec::new();
        let mut source = self.comments;
        let ghost all = v.comments;
        let n = source.len();
        let mut k: usize = 0;
        assert(source@.map_values(|c: Result<FullComment, FullCommentError>| crate::field::res_view(c)) == all);
        while k < n
            invariant
                v == self@,
                all == v.comments,
                n == all.len(),
                source@.len() == n - k,
                forall|j: int| 0 <= j < n - k ==> crate::field::res_view(#[trigger] source@[j]) == all[(k + j) as int],
                comments@.len() == k,
                forall|j: int| 0 <= j < k ==> (#[trigger] all[j]) is Ok,
                forall|j: int| 0 <= j < k ==> (#[trigger] comments@[j])@ == all[j]->Ok_0,
            decreases n - k,
        {
            let ghost old_source = source@;
            assert(crate::field::res_view(old_source[0]) == all[k as int]);
            let c = source.remove(0);
            assert(forall|j: int| 0 <= j < n - k - 1 ==> source@[j] == old_source[j + 1]);
            assert(forall|j: int| 0 <= j < n - k - 1 ==> crate::field::res_view(#[trigger] source@[j]) == all[(k + 1 + j) as int]) by {
                assert forall|j: int| 0 <= j < n - k - 1 implies crate::field::res_view(#[trigger] source@[j]) == all[(k + 1 + j) as int] by {
                    assert(source@[j] == old_source[j + 1]);
                    assert(crate::field::res_view(old_source[j + 1]) == all[(k + (j + 1)) as int]);
                }
            }
            match c {
                Ok(c) => {
                    comments.push(c);
                },
                Err(_) => {
                    assert(all[k as int] is Err);
                    assert(!history_is_complete(all));
                    return None;
                },
            }
            k += 1;
        }
        assert(history_is_complete(all));
        assert(comments@.map_values(|c: FullComment| c@) =~= all.map_values(
            |c: Result<FullCommentView, FullCommentErrorView>| c->Ok_0,
        ));
        let order_id = match require(self.order_id) { Some(x) => x, None => return None };
        let internal_order_id = match require(self.internal_order_id) { Some(x) => x, None => return None };
        let order_type = match require(self.order_type) { Some(x) => x, None => return None };
        let creation_date = match require(self.creation_date) { Some(x) => x, None => return None };
        let internal_status = match require(self.internal_status) { Some(x) => x, None => return None };
        let address = match self.address { Some(x) => x, None => return None };
        let client = match self.client { Some(x) => x, None => return None };
        let pa = match self.pa { Some(x) => x, None => return None };
        let time_constrains = match require(self.time_constrains) { Some(x) => x, None => return None };
        let status = match require(self.status) { Some(x) => x, None => return None };
        let assigned_for = match require(self.assigned_for) { Some(x) => x, None => return None };
        Some(
            GuaranteedViewRequest {
                order_id,
                internal_order_id,
                order_type,
                creation_date,
                internal_status,
                address,
                client,
                service: self.service,
                pa,
                seller: self.seller,
                time_constrains,
                installers: self.installers,
                status,
                phones: self.phones,
                assigned_for,
                comments,
            },
        )
    }
}

} // verus!
