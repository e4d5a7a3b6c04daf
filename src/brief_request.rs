//! Brief orders: the short view of an order, a table of `label: value`
//! rows read by the label scan.

pub mod guaranteed;

use vstd::prelude::*;
use crate::data::address::{Address, AddressView};
use crate::data::comment::{comment_of, Comment, CommentError, CommentView};
use crate::data::datetime::{kyiv_datetime_of, DateTime};
use crate::data::internal_status::{internal_status_result, InternalStatus, InternalStatusError};
use crate::data::order_type::{order_type_result, OrderType, OrderTypeError};
use crate::data::status::{status_result, Status, StatusError};
use crate::data::time_constrains::{window_from_text, TimeConstrains, TimeConstrainsError};
use crate::dom::{document_of, leaves, DocView, Document};
use crate::field::{
    assemble_address, assemble_address_exec, field_view, opt_view, strings_view, u32_field,
};
use crate::scan::{
    comment_value, datetime_value, first_label, first_match, internal_status_value, label_table,
    labels_view, order_type_value, status_value, u32_value, window_value,
};
use crate::serializable_int_error_kind::SerializableIntErrorKind;
use crate::serializable_parse_error_kind::SerializableParseErrorKind;
use crate::text::{string_of, trim, trim_exec};

verus! {

/// A brief order as read from its document; every field keeps its own
/// validity.
#[derive(Clone, PartialEq, Eq, PartialOrd, Ord, Debug, Hash)]
pub struct BriefRequest {
    pub order_id: Option<Result<u32, SerializableIntErrorKind>>,
    pub internal_order_id: Option<Result<u32, SerializableIntErrorKind>>,
    pub order_type: Option<Result<OrderType, OrderTypeError>>,
    pub creation_date: Option<Result<DateTime, SerializableParseErrorKind>>,
    pub internal_status: Option<Result<InternalStatus, InternalStatusError>>,
    pub address: Option<Address>,
    pub client: Option<String>,
    pub service: Option<String>,
    pub pa: Option<String>,
    pub time_constrains: Option<Result<TimeConstrains, TimeConstrainsError>>,
    pub installers: Vec<String>,
    pub last_comment: Option<Result<Comment, CommentError>>,
    pub first_comment: Option<Result<Comment, CommentError>>,
    pub status: Option<Result<Status, StatusError>>,
    pub phones: Vec<String>,
}

pub struct BriefRequestView {
    pub order_id: Option<Result<u32, SerializableIntErrorKind>>,
    pub internal_order_id: Option<Result<u32, SerializableIntErrorKind>>,
    pub order_type: Option<Result<OrderType, Seq<char>>>,
    pub creation_date: Option<Result<DateTime, SerializableParseErrorKind>>,
    pub internal_status: Option<Result<InternalStatus, Seq<char>>>,
    pub address: Option<AddressView>,
    pub client: Option<Seq<char>>,
    pub service: Option<Seq<char>>,
    pub pa: Option<Seq<char>>,
    pub time_constrains: Option<Result<TimeConstrains, TimeConstrainsError>>,
    pub installers: Seq<Seq<char>>,
    pub last_comment: Option<Result<CommentView, (Seq<char>, SerializableParseErrorKind)>>,
    pub first_comment: Option<Result<CommentView, (Seq<char>, SerializableParseErrorKind)>>,
    pub status: Option<Result<Status, Seq<char>>>,
    pub phones: Seq<Seq<char>>,
}

impl View for BriefRequest {
    type V = BriefRequestView;

    open spec fn view(&self) -> BriefRequestView {
        BriefRequestView {
            order_id: self.order_id,
            internal_order_id: self.internal_order_id,
            order_type: field_view(self.order_type),
            creation_date: self.creation_date,
            internal_status: field_view(self.internal_status),
            address: opt_view(self.address),
            client: opt_view(self.client),
            service: opt_view(self.service),
            pa: opt_view(self.pa),
            time_constrains: self.time_constrains,
            installers: strings_view(self.installers@),
            last_comment: field_view(self.last_comment),
            first_comment: field_view(self.first_comment),
            status: field_view(self.status),
            phones: strings_view(self.phones@),
        }
    }
}

impl Default for BriefRequest {
    fn default() -> (r: BriefRequest)
        ensures
            r@ == empty_brief(),
    {
        let r = BriefRequest {
            order_id: None,
            internal_order_id: None,
            order_type: None,
            creation_date: None,
            internal_status: None,
            address: None,
            client: None,
            service: None,
            pa: None,
            time_constrains: None,
            installers: Vec::new(),
            last_comment: None,
            first_comment: None,
            status: None,
            phones: Vec::new(),
        };
        assert(r@.installers =~= Seq::<Seq<char>>::empty());
        assert(r@.phones =~= Seq::<Seq<char>>::empty());
        r
    }
}

/// A brief order with no field found.
pub open spec fn empty_brief() -> BriefRequestView {
    BriefRequestView {
        order_id: None,
        internal_order_id: None,
        order_type: None,
        creation_date: None,
        internal_status: None,
        address: None,
        client: None,
        service: None,
        pa: None,
        time_constrains: None,
        installers: Seq::empty(),
        last_comment: None,
        first_comment: None,
        status: None,
        phones: Seq::empty(),
    }
}

/// The labels of a brief order, in the order they are tried.
pub open spec fn brief_labels() -> Seq<Seq<char>> {
    seq![
        "заявка:"@,
        "наряд:"@,
        "подтип:"@,
        "дата создания:"@,
        "статус:"@,
        "город:"@,
        "адрес:"@,
        "квартира:"@,
        "клиент:"@,
        "пакет:"@,
        "телефон:"@,
        "телефон 2:"@,
        "лицевой счет:"@,
        "время подключения:"@,
        "монтажник:"@,
        "монтажник 2:"@,
        "статус заказчика:"@,
        "начальный комментарий:"@,
        "последний комментарий:"@,
    ]
}

/// The state of the scan: the record so far, and the parts of the address
/// that wait for one another.
pub struct BriefScan {
    pub rec: BriefRequestView,
    pub city: Option<Seq<char>>,
    pub line: Option<Seq<char>>,
    pub apartment: Option<Seq<char>>,
}

/// What the value `t` found for label `k` does to the scan.
pub open spec fn brief_apply(st: BriefScan, k: int, t: Seq<char>) -> BriefScan {
    let r = st.rec;
    if k == 0 {
        BriefScan { rec: BriefRequestView { internal_order_id: Some(u32_field(t)), ..r }, ..st }
    } else if k == 1 {
        BriefScan { rec: BriefRequestView { order_id: Some(u32_field(t)), ..r }, ..st }
    } else if k == 2 {
        BriefScan { rec: BriefRequestView { order_type: Some(order_type_result(t)), ..r }, ..st }
    } else if k == 3 {
        BriefScan { rec: BriefRequestView { creation_date: Some(kyiv_datetime_of(t)), ..r }, ..st }
    } else if k == 4 {
        BriefScan {
            rec: BriefRequestView { internal_status: Some(internal_status_result(t)), ..r },
            ..st
        }
    } else if k == 5 {
        BriefScan { city: Some(t), ..st }
    } else if k == 6 {
        BriefScan { line: Some(t), ..st }
    } else if k == 7 {
        BriefScan { apartment: Some(t), ..st }
    } else if k == 8 {
        BriefScan { rec: BriefRequestView { client: Some(trim(t)), ..r }, ..st }
    } else if k == 9 {
        BriefScan {
            rec: BriefRequestView {
                service: if t.len() == 0 {
                    None
                } else {
                    Some(t)
                },
                ..r
            },
            ..st
        }
    } else if k == 10 || k == 11 {
        BriefScan { rec: BriefRequestView { phones: r.phones.push(trim(t)), ..r }, ..st }
    } else if k == 12 {
        BriefScan { rec: BriefRequestView { pa: Some(t), ..r }, ..st }
    } else if k == 13 {
        BriefScan { rec: BriefRequestView { time_constrains: Some(window_from_text(t)), ..r }, ..st }
    } else if k == 14 || k == 15 {
        BriefScan { rec: BriefRequestView { installers: r.installers.push(t), ..r }, ..st }
    } else if k == 16 {
        BriefScan { rec: BriefRequestView { status: Some(status_result(t)), ..r }, ..st }
    } else if k == 17 {
        BriefScan { rec: BriefRequestView { first_comment: Some(comment_of(t)), ..r }, ..st }
    } else if k == 18 {
        BriefScan { rec: BriefRequestView { last_comment: Some(comment_of(t)), ..r }, ..st }
    } else {
        st
    }
}

/// The scan after the first `k` leaves of `ls`.
pub open spec fn brief_scan(d: DocView, ls: Seq<int>, k: int) -> BriefScan
    decreases k,
{
    if k <= 0 {
        BriefScan { rec: empty_brief(), city: None, line: None, apartment: None }
    } else {
        let st = brief_scan(d, ls, k - 1);
        match first_match(d, ls[k - 1], brief_labels(), 0) {
            Some((j, t)) => brief_apply(st, j, t),
            None => st,
        }
    }
}

/// The brief order that a document gives: every leaf-like element is
/// scanned in document order, then the address is assembled from its parts.
pub open spec fn brief_of(d: DocView) -> BriefRequestView {
    let st = brief_scan(d, leaves(d), leaves(d).len() as int);
    BriefRequestView { address: assemble_address(st.city, st.line, st.apartment), ..st.rec }
}

/// Reading the same text twice gives equal brief orders: two records that
/// `from` gave for one text hold the same values, since each is what the
/// text alone determines.
pub proof fn lemma_brief_same_text(text: Seq<char>, first: BriefRequest, second: BriefRequest)
    requires
        first@ == brief_of(document_of(text)),
        second@ == brief_of(document_of(text)),
    ensures
        first@ == second@,
{
}

impl BriefRequest {
    /// Reads a brief order from its HTML.
    pub fn from(html: &str) -> (r: BriefRequest)
        ensures
            r@ == brief_of(document_of(html@)),
    {
        let d = Document::parse(html);
        BriefRequest::from_document(&d)
    }

    /// Reads a brief order from a parsed document.
    pub fn from_document(d: &Document) -> (r: BriefRequest)
        requires
            d.wf(),
        ensures
            r@ == brief_of(d@),
    {
        let labels = label_table(
            &[
                "заявка:",
                "наряд:",
                "подтип:",
                "дата создания:",
                "статус:",
                "город:",
                "адрес:",
                "квартира:",
                "клиент:",
                "пакет:",
                "телефон:",
                "телефон 2:",
                "лицевой счет:",
                "время подключения:",
                "монтажник:",
                "монтажник 2:",
                "статус заказчика:",
                "начальный комментарий:",
                "последний комментарий:",
            ],
        );
        assert(labels_view(labels@) =~= brief_labels());
        let ls = d.leaves();
        let mut rec = BriefRequest::default();
        let mut city: Option<Vec<char>> = None;
        let mut line: Option<Vec<char>> = None;
        let mut apartment: Option<Vec<char>> = None;
        let mut i: usize = 0;
        while i < ls.len()
            invariant
                d.wf(),
                labels_view(labels@) == brief_labels(),
                crate::dom::indices_view(ls@) == leaves(d@),
                forall|k: int| 0 <= k < ls@.len() ==> #[trigger] ls@[k] < d.len(),
                i <= ls@.len(),
                brief_scan(d@, leaves(d@), i as int) == (BriefScan {
                    rec: rec@,
                    city: opt_view(city),
                    line: opt_view(line),
                    apartment: opt_view(apartment),
                }),
            decreases ls.len() - i,
        {
            let leaf = ls[i];
            assert(leaves(d@)[i as int] == leaf as int);
            match first_label(d, leaf, &labels) {
                Some((k, t)) => {
                    let ghost before = rec@;
                    if k == 0 {
                        rec.internal_order_id = Some(u32_value(t.as_slice()));
                    } else if k == 1 {
                        rec.order_id = Some(u32_value(t.as_slice()));
                    } else if k == 2 {
                        rec.order_type = Some(order_type_value(t.as_slice()));
                    } else if k == 3 {
                        rec.creation_date = Some(datetime_value(t.as_slice()));
                    } else if k == 4 {
                        rec.internal_status = Some(internal_status_value(t.as_slice()));
                    } else if k == 5 {
                        city = Some(t);
                    } else if k == 6 {
                        line = Some(t);
                    } else if k == 7 {
                        apartment = Some(t);
                    } else if k == 8 {
                        rec.client = Some(string_of(trim_exec(t.as_slice()).as_slice()));
                    } else if k == 9 {
                        rec.service = if t.len() == 0 {
                            None
                        } else {
                            Some(string_of(t.as_slice()))
                        };
                    } else if k == 10 || k == 11 {
                        rec.phones.push(string_of(trim_exec(t.as_slice()).as_slice()));
                        assert(rec@.phones =~= before.phones.push(trim(t@)));
                    } else if k == 12 {
                        rec.pa = Some(string_of(t.as_slice()));
                    } else if k == 13 {
                        rec.time_constrains = Some(window_value(t.as_slice()));
                    } else if k == 14 || k == 15 {
                        rec.installers.push(string_of(t.as_slice()));
                        assert(rec@.installers =~= before.installers.push(t@));
                    } else if k == 16 {
                        rec.status = Some(status_value(t.as_slice()));
                    } else if k == 17 {
                        rec.first_comment = Some(comment_value(t.as_slice()));
                    } else if k == 18 {
                        rec.last_comment = Some(comment_value(t.as_slice()));
                    }
                },
                None => {},
            }
            i += 1;
        }
        assert(ls@.len() == leaves(d@).len());
        rec.address = assemble_address_exec(city, line, apartment);
        rec
    }
}

} // verus!
