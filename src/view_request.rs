//! Detailed orders: the full view of an order, read by the label scan,
//! with the order's history read from its history table.

pub mod guaranteed;

use vstd::prelude::*;
use crate::data::address::{Address, AddressView};
use crate::data::datetime::{date_parse, kyiv_datetime_of, parse_date, Date, DateTime};
use crate::data::full_comment::{full_comment_of, row_cells, FullComment, FullCommentError, FullCommentErrorView, FullCommentView};
use crate::data::internal_status::{internal_status_result, InternalStatus, InternalStatusError};
use crate::data::order_type::{order_type_result, OrderType, OrderTypeError};
use crate::data::status::{status_result, Status, StatusError};
use crate::data::time_constrains::{window_from_text, TimeConstrains, TimeConstrainsError};
use crate::dom::{document_of, is_element, joined_text, leaves, name, select_all, DocView, Document};
use crate::field::{
    assemble_address, assemble_address_exec, field_view, opt_view, res_view, strings_view, u32_field,
};
use crate::scan::{
    datetime_value, first_label, first_match, internal_status_value, label_table,
    labels_view, order_type_value, status_value, u32_value, window_value,
};
use crate::serializable_int_error_kind::SerializableIntErrorKind;
use crate::serializable_parse_error_kind::SerializableParseErrorKind;
use crate::text::{chars_of, contains_literal, contains_seq, replace_all, replace_all_exec, string_of, trim, trim_exec};

verus! {

/// A detailed order as read from its document; every field keeps its own
/// validity.
#[derive(Clone, PartialEq, Eq, PartialOrd, Ord, Debug, Hash)]
pub struct ViewRequest {
    pub order_id: Option<Result<u32, SerializableIntErrorKind>>,
    pub internal_order_id: Option<Result<u32, SerializableIntErrorKind>>,
    pub order_type: Option<Result<OrderType, OrderTypeError>>,
    pub creation_date: Option<Result<DateTime, SerializableParseErrorKind>>,
    pub internal_status: Option<Result<InternalStatus, InternalStatusError>>,
    pub address: Option<Address>,
    pub client: Option<String>,
    pub service: Option<String>,
    pub pa: Option<String>,
    /// Name or phone number of whoever created the order.
    pub seller: Option<String>,
    pub time_constrains: Option<Result<TimeConstrains, TimeConstrainsError>>,
    /// An order has up to two installers.
    pub installers: Vec<String>,
    pub status: Option<Result<Status, StatusError>>,
    pub phones: Vec<String>,
    /// The date for which the order is scheduled.
    pub assigned_for: Option<Result<Date, SerializableParseErrorKind>>,
    pub comments: Vec<Result<FullComment, FullCommentError>>,
}

pub struct ViewRequestView {
    pub order_id: Option<Result<u32, SerializableIntErrorKind>>,
    pub internal_order_id: Option<Result<u32, SerializableIntErrorKind>>,
    pub order_type: Option<Result<OrderType, Seq<char>>>,
    pub creation_date: Option<Result<DateTime, SerializableParseErrorKind>>,
    pub internal_status: Option<Result<InternalStatus, Seq<char>>>,
    pub address: Option<AddressView>,
    pub client: Option<Seq<char>>,
    pub service: Option<Seq<char>>,
    pub pa: Option<Seq<char>>,
    pub seller: Option<Seq<char>>,
    pub time_constrains: Option<Result<TimeConstrains, TimeConstrainsError>>,
    pub installers: Seq<Seq<char>>,
    pub status: Option<Result<Status, Seq<char>>>,
    pub phones: Seq<Seq<char>>,
    pub assigned_for: Option<Result<Date, SerializableParseErrorKind>>,
    pub comments: Seq<Result<FullCommentView, FullCommentErrorView>>,
}

impl View for ViewRequest {
    type V = ViewRequestView;

    open spec fn view(&self) -> ViewRequestView {
        ViewRequestView {
            order_id: self.order_id,
            internal_order_id: self.internal_order_id,
            order_type: field_view(self.order_type),
            creation_date: self.creation_date,
            internal_status: field_view(self.internal_status),
            address: opt_view(self.address),
            client: opt_view(self.client),
            service: opt_view(self.service),
            pa: opt_view(self.pa),
            seller: opt_view(self.seller),
            time_constrains: self.time_constrains,
            installers: strings_view(self.installers@),
            status: field_view(self.status),
            phones: strings_view(self.phones@),
            assigned_for: self.assigned_for,
            comments: self.comments@.map_values(|c: Result<FullComment, FullCommentError>| res_view(c)),
        }
    }
}

impl Default for ViewRequest {
    fn default() -> (r: ViewRequest)
        ensures
            r@ == empty_view(),
    {
        let r = ViewRequest {
            order_id: None,
            internal_order_id: None,
            order_type: None,
            creation_date: None,
            internal_status: None,
            address: None,
            client: None,
            service: None,
            pa: None,
            seller: None,
            time_constrains: None,
            installers: Vec::new(),
            status: None,
            phones: Vec::new(),
            assigned_for: None,
            comments: Vec::new(),
        };
        assert(r@.installers =~= Seq::<Seq<char>>::empty());
        assert(r@.phones =~= Seq::<Seq<char>>::empty());
        assert(r@.comments =~= Seq::<Result<FullCommentView, FullCommentErrorView>>::empty());
        r
    }
}

/// A detailed order with no field found.
pub open spec fn empty_view() -> ViewRequestView {
    ViewRequestView {
        order_id: None,
        internal_order_id: None,
        order_type: None,
        creation_date: None,
        internal_status: None,
        address: None,
        client: None,
        service: None,
        pa: None,
        seller: None,
        time_constrains: None,
        installers: Seq::empty(),
        status: None,
        phones: Seq::empty(),
        assigned_for: None,
        comments: Seq::empty(),
    }
}

/// The labels of a detailed order, in the order they are tried.
pub open spec fn view_labels() -> Seq<Seq<char>> {
    seq![
        "наряд:"@,
        "подтип:"@,
        "дата создания:"@,
        "статус:"@,
        "город:"@,
        "адрес:"@,
        "квартира:"@,
        "клиент:"@,
        "пакет:"@,
        "телефон:"@,
        "телефон 2:"@,
        "лицевой счет:"@,
        "телефон продавца:"@,
        "время подключения:"@,
        "монтажник:"@,
        "монтажник 2:"@,
        "статус у заказчика:"@,
        "дата подключения:"@,
    ]
}

/// The state of the scan: the record so far, and the parts of the address
/// that wait for one another.
pub struct ViewScan {
    pub rec: ViewRequestView,
    pub city: Option<Seq<char>>,
    pub line: Option<Seq<char>>,
    pub apartment: Option<Seq<char>>,
}

/// What the value `t` found for label `k` does to the scan.
pub open spec fn view_apply(st: ViewScan, k: int, t: Seq<char>) -> ViewScan {
    let r = st.rec;
    if k == 0 {
        ViewScan { rec: ViewRequestView { order_id: Some(u32_field(t)), ..r }, ..st }
    } else if k == 1 {
        ViewScan { rec: ViewRequestView { order_type: Some(order_type_result(t)), ..r }, ..st }
    } else if k == 2 {
        ViewScan { rec: ViewRequestView { creation_date: Some(kyiv_datetime_of(t)), ..r }, ..st }
    } else if k == 3 {
        ViewScan {
            rec: ViewRequestView { internal_status: Some(internal_status_result(t)), ..r },
            ..st
        }
    } else if k == 4 {
        ViewScan { city: Some(t), ..st }
    } else if k == 5 {
        ViewScan { line: Some(t), ..st }
    } else if k == 6 {
        ViewScan { apartment: Some(t), ..st }
    } else if k == 7 {
        ViewScan { rec: ViewRequestView { client: Some(trim(t)), ..r }, ..st }
    } else if k == 8 {
        ViewScan {
            rec: ViewRequestView {
                service: if t.len() == 0 {
                    None
                } else {
                    Some(t)
                },
                ..r
            },
            ..st
        }
    } else if k == 9 || k == 10 {
        ViewScan { rec: ViewRequestView { phones: r.phones.push(t), ..r }, ..st }
    } else if k == 11 {
        ViewScan { rec: ViewRequestView { pa: Some(t), ..r }, ..st }
    } else if k == 12 {
        ViewScan { rec: ViewRequestView { seller: Some(t), ..r }, ..st }
    } else if k == 13 {
        ViewScan { rec: ViewRequestView { time_constrains: Some(window_from_text(t)), ..r }, ..st }
    } else if k == 14 || k == 15 {
        ViewScan { rec: ViewRequestView { installers: r.installers.push(t), ..r }, ..st }
    } else if k == 16 {
        ViewScan { rec: ViewRequestView { status: Some(status_result(t)), ..r }, ..st }
    } else if k == 17 {
        ViewScan { rec: ViewRequestView { assigned_for: Some(date_parse(t, "%d.%m.%Y"@)), ..r }, ..st }
    } else {
        st
    }
}

/// Whether element `i` is the heading that names the order, `Заявка №<id>`.
pub open spec fn is_order_heading(d: DocView, i: int) -> bool {
    is_element(d, i) && name(d, i) == "h3"@ && contains_seq(joined_text(d, i), "Заявка №"@)
}

/// The internal order id that a heading gives.
pub open spec fn heading_id(d: DocView, i: int) -> Result<u32, SerializableIntErrorKind> {
    u32_field(replace_all(joined_text(d, i), "Заявка №"@, Seq::empty()))
}

/// The scan after the first `k` leaves of `ls`.
pub open spec fn view_scan(d: DocView, ls: Seq<int>, k: int) -> ViewScan
    decreases k,
{
    if k <= 0 {
        ViewScan { rec: empty_view(), city: None, line: None, apartment: None }
    } else {
        let st = view_scan(d, ls, k - 1);
        if is_order_heading(d, ls[k - 1]) {
            ViewScan {
                rec: ViewRequestView { internal_order_id: Some(heading_id(d, ls[k - 1])), ..st.rec },
                ..st
            }
        } else {
            match first_match(d, ls[k - 1], view_labels(), 0) {
                Some((j, t)) => view_apply(st, j, t),
                None => st,
            }
        }
    }
}

/// The selector of the rows of the history table, report rows left out.
pub open spec fn history_selector() -> Seq<char> {
    "#tblHistory > table > tbody > tr.tdeven:not([classcontext=\"tradereport\"]),#tblHistory > table > tbody > tr.tdodd:not([classcontext=\"tradereport\"])"@
}

/// The history entries of a document, one for each history row.
pub open spec fn history_of(d: DocView) -> Seq<Result<FullCommentView, FullCommentErrorView>> {
    select_all(d, history_selector()).map_values(|row: int| full_comment_of(row_cells(d, row)))
}

/// The detailed order that a document gives: every leaf-like element is
/// scanned in document order (a heading naming the order first, then the
/// label table), the history rows are read, and the address is assembled
/// from its parts.
pub open spec fn view_of(d: DocView) -> ViewRequestView {
    let st = view_scan(d, leaves(d), leaves(d).len() as int);
    ViewRequestView {
        address: assemble_address(st.city, st.line, st.apartment),
        comments: history_of(d),
        ..st.rec
    }
}

/// Reading the same text twice gives equal detailed orders.
pub proof fn lemma_view_same_text(text: Seq<char>, first: ViewRequest, second: ViewRequest)
    requires
        first@ == view_of(document_of(text)),
        second@ == view_of(document_of(text)),
    ensures
        first@ == second@,
{
}

impl ViewRequest {
    /// Reads a detailed order from its HTML.
    pub fn from(html: &str) -> (r: ViewRequest)
        ensures
            r@ == view_of(document_of(html@)),
    {
        let d = Document::parse(html);
        ViewRequest::from_document(&d)
    }

    /// Reads a detailed order from a parsed document.
    pub fn from_document(d: &Document) -> (r: ViewRequest)
        requires
            d.wf(),
        ensures
            r@ == view_of(d@),
    {
        let labels = label_table(
            &[
                "наряд:",
                "подтип:",
                "дата создания:",
                "статус:",
                "город:",
                "адрес:",
                "квартира:",
                "клиент:",
                "пакет:",
                "телефон:",
                "телефон 2:",
                "лицевой счет:",
                "телефон продавца:",
                "время подключения:",
                "монтажник:",
                "монтажник 2:",
                "статус у заказчика:",
                "дата подключения:",
            ],
        );
        assert(labels_view(labels@) =~= view_labels());
        let ls = d.leaves();
        let mut rec = ViewRequest::default();
        let mut city: Option<Vec<char>> = None;
        let mut line: Option<Vec<char>> = None;
        let mut apartment: Option<Vec<char>> = None;
        let mut i: usize = 0;
        while i < ls.len()
            invariant
                d.wf(),
                labels_view(labels@) == view_labels(),
                crate::dom::indices_view(ls@) == leaves(d@),
                forall|k: int| 0 <= k < ls@.len() ==> #[trigger] ls@[k] < d.len(),
                i <= ls@.len(),
                view_scan(d@, leaves(d@), i as int) == (ViewScan {
                    rec: rec@,
                    city: opt_view(city),
                    line: opt_view(line),
                    apartment: opt_view(apartment),
                }),
            decreases ls.len() - i,
        {
            let leaf = ls[i];
            assert(leaves(d@)[i as int] == leaf as int);
            let heading = if d.is_tag(leaf, "h3") {
                let t = d.joined_text(leaf);
                if contains_literal(t.as_slice(), "Заявка №") {
                    Some(t)
                } else {
                    None
                }
            } else {
                None
            };
            match heading {
                Some(t) => {
                    let marker = chars_of("Заявка №");
                    let none: Vec<char> = Vec::new();
                    assert(none@ =~= Seq::<char>::empty());
                    let id = replace_all_exec(t.as_slice(), marker.as_slice(), none.as_slice());
                    rec.internal_order_id = Some(u32_value(id.as_slice()));
                },
                None => match first_label(d, leaf, &labels) {
                    Some((k, t)) => {
                        let ghost before = rec@;
                        if k == 0 {
                            rec.order_id = Some(u32_value(t.as_slice()));
                        } else if k == 1 {
                            rec.order_type = Some(order_type_value(t.as_slice()));
                        } else if k == 2 {
                            rec.creation_date = Some(datetime_value(t.as_slice()));
                        } else if k == 3 {
                            rec.internal_status = Some(internal_status_value(t.as_slice()));
                        } else if k == 4 {
                            city = Some(t);
                        } else if k == 5 {
                            line = Some(t);
                        } else if k == 6 {
                            apartment = Some(t);
                        } else if k == 7 {
                            rec.client = Some(string_of(trim_exec(t.as_slice()).as_slice()));
                        } else if k == 8 {
                            rec.service = if t.len() == 0 {
                                None
                            } else {
                                Some(string_of(t.as_slice()))
                            };
                        } else if k == 9 || k == 10 {
                            rec.phones.push(string_of(t.as_slice()));
                            assert(rec@.phones =~= before.phones.push(t@));
                        } else if k == 11 {
                            rec.pa = Some(string_of(t.as_slice()));
                        } else if k == 12 {
                            rec.seller = Some(string_of(t.as_slice()));
                        } else if k == 13 {
                            rec.time_constrains = Some(window_value(t.as_slice()));
                        } else if k == 14 || k == 15 {
                            rec.installers.push(string_of(t.as_slice()));
                            assert(rec@.installers =~= before.installers.push(t@));
                        } else if k == 16 {
                            rec.status = Some(status_value(t.as_slice()));
                        } else if k == 17 {
                            let s = string_of(t.as_slice());
                            rec.assigned_for = Some(parse_date(s.as_str(), "%d.%m.%Y"));
                        }
                    },
                    None => {},
                },
            }
            i += 1;
        }
        assert(ls@.len() == leaves(d@).len());
        rec.comments = ViewRequest::history(d);
        rec.address = assemble_address_exec(city, line, apartment);
        rec
    }

    /// The history entries of a parsed document.
    pub fn history(d: &Document) -> (r: Vec<Result<FullComment, FullCommentError>>)
        requires
            d.wf(),
        ensures
            r@.map_values(|c: Result<FullComment, FullCommentError>| res_view(c)) == history_of(d@),
    {
        let rows = d.select_in(
            "#tblHistory > table > tbody > tr.tdeven:not([classcontext=\"tradereport\"]),#tblHistory > table > tbody > tr.tdodd:not([classcontext=\"tradereport\"])",
            0,
            d.nodes.len(),
        );
        let mut out: Vec<Result<FullComment, FullCommentError>> = Vec::new();
        let mut k: usize = 0;
        while k < rows.len()
            invariant
                d.wf(),
                crate::dom::indices_view(rows@) == select_all(d@, history_selector()),
                forall|j: int| 0 <= j < rows@.len() ==> #[trigger] rows@[j] < d.len(),
                k <= rows@.len(),
                out@.len() == k,
                forall|j: int| 0 <= j < k ==> res_view(#[trigger] out@[j]) == full_comment_of(row_cells(d@, rows@[j] as int)),
            decreases rows.len() - k,
        {
            let c = FullComment::from(d, rows[k]);
            out.push(c);
            k += 1;
        }
        assert(out@.map_values(|c: Result<FullComment, FullCommentError>| res_view(c)) =~= history_of(d@));
        out
    }
}

} // verus!
