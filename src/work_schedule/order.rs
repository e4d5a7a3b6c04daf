//! One order of a work schedule, read from its request row with selectors
//! and from the row that holds its phone numbers.

use vstd::prelude::*;
use crate::data::address::{address_line, address_of_line, Address, AddressError, AddressView};
use crate::data::internal_status::{internal_status_result, InternalStatus, InternalStatusError};
use crate::data::mdu::{mdu_of, MduView, MDUError, MDU};
use crate::data::order_type::{order_type_result, OrderType, OrderTypeError};
use crate::data::status::{status_result, Status, StatusError};
use crate::data::time_constrains::{window_from_parts, TimeConstrains, TimeConstrainsError};
use crate::dom::{attr, attrs, joined_text, parent, select_all, select_below, DocView, Document};
use crate::field::{field_view, opt_view, require, required, strings_view, u32_field};
use crate::number::{parse_u8, parse_unsigned};
use crate::scan::{internal_status_value, order_type_value, status_value, u32_value};
use crate::serializable_int_error_kind::SerializableIntErrorKind;
use crate::text::{
    chars_of, replace_all, replace_all_exec, seq_equal, split_first, split_first_exec,
    string_of, trim, trim_exec,
};

verus! {

/// One order of a work schedule; every field keeps its own validity.
#[derive(Clone, PartialEq, Eq, PartialOrd, Ord, Debug, Hash)]
pub struct Order {
    /// Position of the order in its schedule; not unique across schedules
    /// of one day.
    pub order_index: Option<Result<u8, SerializableIntErrorKind>>,
    pub order_id: Option<Result<u32, SerializableIntErrorKind>>,
    pub internal_order_id: Option<Result<u32, SerializableIntErrorKind>>,
    pub time_constrains: Option<Result<TimeConstrains, TimeConstrainsError>>,
    /// The client's contact phone numbers.
    pub phones: Option<Vec<String>>,
    /// The client's personal account.
    pub pa: Option<String>,
    pub address: Option<Result<Address, AddressError>>,
    pub mdu: Option<Result<MDU, MDUError>>,
    pub status: Option<Result<Status, StatusError>>,
    pub order_type: Option<Result<OrderType, OrderTypeError>>,
    pub client: Option<String>,
    pub internal_status: Option<Result<InternalStatus, InternalStatusError>>,
}

pub struct OrderView {
    pub order_index: Option<Result<u8, SerializableIntErrorKind>>,
    pub order_id: Option<Result<u32, SerializableIntErrorKind>>,
    pub internal_order_id: Option<Result<u32, SerializableIntErrorKind>>,
    pub time_constrains: Option<Result<TimeConstrains, TimeConstrainsError>>,
    pub phones: Option<Seq<Seq<char>>>,
    pub pa: Option<Seq<char>>,
    pub address: Option<Result<AddressView, AddressError>>,
    pub mdu: Option<Result<MduView, MDUError>>,
    pub status: Option<Result<Status, Seq<char>>>,
    pub order_type: Option<Result<OrderType, Seq<char>>>,
    pub client: Option<Seq<char>>,
    pub internal_status: Option<Result<InternalStatus, Seq<char>>>,
}

pub open spec fn phones_view(p: Option<Vec<String>>) -> Option<Seq<Seq<char>>> {
    match p {
        Some(v) => Some(strings_view(v@)),
        None => None,
    }
}

impl View for Order {
    type V = OrderView;

    open spec fn view(&self) -> OrderView {
        OrderView {
            order_index: self.order_index,
            order_id: self.order_id,
            internal_order_id: self.internal_order_id,
            time_constrains: self.time_constrains,
            phones: phones_view(self.phones),
            pa: opt_view(self.pa),
            address: field_view(self.address),
            mdu: field_view(self.mdu),
            status: field_view(self.status),
            order_type: field_view(self.order_type),
            client: opt_view(self.client),
            internal_status: field_view(self.internal_status),
        }
    }
}

impl Default for Order {
    fn default() -> (r: Order)
        ensures
            r.order_index is None && r.order_id is None && r.internal_order_id is None
                && r.time_constrains is None && r.phones is None && r.pa is None && r.address is None
                && r.mdu is None && r.status is None && r.order_type is None && r.client is None
                && r.internal_status is None,
    {
        Order {
            order_index: None,
            order_id: None,
            internal_order_id: None,
            time_constrains: None,
            phones: None,
            pa: None,
            address: None,
            mdu: None,
            status: None,
            order_type: None,
            client: None,
            internal_status: None,
        }
    }
}

/// The text of an element; none where it is empty.
pub open spec fn inner_text(d: DocView, i: int) -> Option<Seq<char>> {
    if joined_text(d, i).len() > 0 {
        Some(joined_text(d, i))
    } else {
        None
    }
}

/// The text of the `k`-th element of `picked`; none where there is no such
/// element or its text is empty.
pub open spec fn nth_text(d: DocView, picked: Seq<int>, k: int) -> Option<Seq<char>> {
    if 0 <= k < picked.len() {
        inner_text(d, picked[k])
    } else {
        None
    }
}

/// The text of the first descendant of `row` that `selector` matches.
pub open spec fn first_text_below(d: DocView, row: int, selector: Seq<char>) -> Option<Seq<char>> {
    nth_text(d, select_below(d, row, selector), 0)
}

/// The cells below `row` that carry no attribute at all, in order.
pub open spec fn bare_cells_in(d: DocView, cells: Seq<int>, k: int) -> Seq<int>
    decreases k,
{
    if k <= 0 || k > cells.len() {
        Seq::empty()
    } else {
        let rest = bare_cells_in(d, cells, k - 1);
        if attrs(d, cells[k - 1]).len() == 0 {
            rest.push(cells[k - 1])
        } else {
            rest
        }
    }
}

pub open spec fn bare_cells(d: DocView, row: int) -> Seq<int> {
    let cells = select_below(d, row, "td"@);
    bare_cells_in(d, cells, cells.len() as int)
}

/// The pieces of `s` between its commas, all of them.
pub open spec fn split_commas(s: Seq<char>) -> Seq<Seq<char>>
    decreases s.len(),
{
    match split_first(s, ',') {
        Some((a, b)) => if b.len() < s.len() {
            seq![a] + split_commas(b)
        } else {
            seq![s]
        },
        None => seq![s],
    }
}

/// The selector of the cells that hold the phone numbers of an order; the
/// row around such a cell names the order in its `rowid` attribute.
pub open spec fn phone_cells() -> Seq<char> {
    "table tr td table tr.requestrow2 > td[rowspan=\"2\"]"@
}

/// The first phone cell of the document whose row has the given `rowid`.
pub open spec fn phone_cell_from(d: DocView, cells: Seq<int>, rowid: Seq<char>, k: int) -> Option<int>
    decreases cells.len() - k,
{
    if k < 0 || k >= cells.len() {
        None
    } else if parent(d, cells[k]) matches Some(p) && attr(d, p, "rowid"@) == Some(rowid) {
        Some(cells[k])
    } else {
        phone_cell_from(d, cells, rowid, k + 1)
    }
}

/// The phone numbers of the order with the given `rowid`: the text of its
/// phone cell split at commas.
pub open spec fn phones_of(d: DocView, rowid: Option<Seq<char>>) -> Option<Seq<Seq<char>>> {
    match rowid {
        Some(id) => match phone_cell_from(d, select_all(d, phone_cells()), id, 0) {
            Some(c) => match inner_text(d, c) {
                Some(t) => Some(split_commas(t)),
                None => None,
            },
            None => None,
        },
        None => None,
    }
}

pub open spec fn u8_field(t: Seq<char>) -> Result<u8, SerializableIntErrorKind> {
    match parse_unsigned(t, u8::MAX as int) {
        Ok(v) => Ok(v as u8),
        Err(e) => Err(e),
    }
}

pub open spec fn address_result(t: Seq<char>) -> Result<AddressView, AddressError> {
    match address_line(t) {
        Some(l) => Ok(address_of_line(l)),
        None => Err(AddressError::NoMatch),
    }
}

/// The order that a request row gives: the index from its first header
/// cell, the order id from its `td.td_nocontext` cell, the internal id from
/// its `rowid`, the time window from its second and third header cells, the
/// phones from the phone row with the same `rowid`, the personal account,
/// address, dwelling unit and status from their selectors, the client and
/// the order type from the first and the second cell with no attributes, and
/// the internal status from the last cell.
pub open spec fn order_of(d: DocView, row: int) -> OrderView {
    let rowid = attr(d, row, "rowid"@);
    let ths = select_below(d, row, "th"@);
    let tds = select_below(d, row, "td"@);
    let bare = bare_cells(d, row);
    OrderView {
        order_index: match nth_text(d, ths, 0) {
            Some(t) => Some(u8_field(replace_all(t, "."@, Seq::empty()))),
            None => None,
        },
        order_id: match first_text_below(d, row, "td.td_nocontext"@) {
            Some(t) => Some(u32_field(replace_all(t, "№ наряда: "@, Seq::empty()))),
            None => None,
        },
        internal_order_id: match rowid {
            Some(t) => Some(u32_field(t)),
            None => None,
        },
        time_constrains: match (nth_text(d, ths, 1), nth_text(d, ths, 2)) {
            (Some(f), Some(t)) => Some(window_from_parts(f, t)),
            _ => None,
        },
        phones: phones_of(d, rowid),
        pa: first_text_below(d, row, "td.td_nocontext > b"@),
        address: match first_text_below(d, row, "a.viewAddrLink"@) {
            Some(t) => Some(address_result(t)),
            None => None,
        },
        mdu: match first_text_below(d, row, "td span.small"@) {
            Some(t) => Some(mdu_of(t)),
            None => None,
        },
        status: match first_text_below(d, row, "span.networkstatus"@) {
            Some(t) => Some(status_result(t)),
            None => None,
        },
        order_type: match nth_text(d, bare, 1) {
            Some(t) => Some(order_type_result(t)),
            None => None,
        },
        client: match nth_text(d, bare, 0) {
            Some(t) => Some(trim(t)),
            None => None,
        },
        internal_status: match nth_text(d, tds, tds.len() - 1) {
            Some(t) => Some(internal_status_result(t)),
            None => None,
        },
    }
}

/// A schedule order with every field resolved.
#[derive(Clone, PartialEq, Eq, PartialOrd, Ord, Debug, Hash)]
pub struct GuaranteedOrder {
    pub order_index: u8,
    pub order_id: u32,
    pub internal_order_id: u32,
    pub time_constrains: TimeConstrains,
    pub phones: Vec<String>,
    pub pa: String,
    pub address: Address,
    pub mdu: MDU,
    pub status: Status,
    pub order_type: OrderType,
    pub client: String,
    pub internal_status: InternalStatus,
}

pub struct GuaranteedOrderView {
    pub order_index: u8,
    pub order_id: u32,
    pub internal_order_id: u32,
    pub time_constrains: TimeConstrains,
    pub phones: Seq<Seq<char>>,
    pub pa: Seq<char>,
    pub address: AddressView,
    pub mdu: MduView,
    pub status: Status,
    pub order_type: OrderType,
    pub client: Seq<char>,
    pub internal_status: InternalStatus,
}

impl View for GuaranteedOrder {
    type V = GuaranteedOrderView;

    open spec fn view(&self) -> GuaranteedOrderView {
        GuaranteedOrderView {
            order_index: self.order_index,
            order_id: self.order_id,
            internal_order_id: self.internal_order_id,
            time_constrains: self.time_constrains,
            phones: strings_view(self.phones@),
            pa: self.pa@,
            address: self.address@,
            mdu: self.mdu@,
            status: self.status,
            order_type: self.order_type,
            client: self.client@,
            internal_status: self.internal_status,
        }
    }
}

/// Whether every field of a schedule order is present and valid.
pub open spec fn order_is_complete(v: OrderView) -> bool {
    &&& required(v.order_index) is Some
    &&& required(v.order_id) is Some
    &&& required(v.internal_order_id) is Some
    &&& required(v.time_constrains) is Some
    &&& v.phones is Some
    &&& v.pa is Some
    &&& required(v.address) is Some
    &&& required(v.mdu) is Some
    &&& required(v.status) is Some
    &&& required(v.order_type) is Some
    &&& v.client is Some
    &&& required(v.internal_status) is Some
}

/// The guaranteed form of a complete schedule order.
pub open spec fn order_guaranteed(v: OrderView) -> GuaranteedOrderView {
    GuaranteedOrderView {
        order_index: required(v.order_index)->0,
        order_id: required(v.order_id)->0,
        internal_order_id: required(v.internal_order_id)->0,
        time_constrains: required(v.time_constrains)->0,
        phones: v.phones->0,
        pa: v.pa->0,
        address: required(v.address)->0,
        mdu: required(v.mdu)->0,
        status: required(v.status)->0,
        order_type: required(v.order_type)->0,
        client: v.client->0,
        internal_status: required(v.internal_status)->0,
    }
}

fn inner_text_exec(d: &Document, i: usize) -> (r: Option<Vec<char>>)
    requires
        d.wf(),
        i < d.len(),
    ensures
        opt_view(r) == inner_text(d@, i as int),
{
    let t = d.joined_text(i);
    if t.len() > 0 {
        Some(t)
    } else {
        None
    }
}

fn nth_text_exec(d: &Document, picked: &Vec<usize>, k: usize) -> (r: Option<Vec<char>>)
    requires
        d.wf(),
        forall|j: int| 0 <= j < picked@.len() ==> #[trigger] picked@[j] < d.len(),
    ensures
        opt_view(r) == nth_text(d@, crate::dom::indices_view(picked@), k as int),
{
    if k < picked.len() {
        inner_text_exec(d, picked[k])
    } else {
        None
    }
}

fn first_text_below_exec(d: &Document, row: usize, selector: &str) -> (r: Option<Vec<char>>)
    requires
        d.wf(),
        row < d.len(),
    ensures
        opt_view(r) == first_text_below(d@, row as int, selector@),
{
    let n = d.nodes.len();
    let picked = d.select_in(selector, row + 1, d.ends[row]);
    nth_text_exec(d, &picked, 0)
}

fn split_commas_exec(s: &[char]) -> (r: Vec<String>)
    ensures
        strings_view(r@) == split_commas(s@),
    decreases s@.len(),
{
    match split_first_exec(s, ',') {
        Some((a, b)) => {
            if b.len() < s.len() {
                let mut out: Vec<String> = Vec::new();
                out.push(string_of(a.as_slice()));
                let mut rest = split_commas_exec(b.as_slice());
                out.append(&mut rest);
                assert(strings_view(out@) =~= seq![a@] + split_commas(b@));
                out
            } else {
                let mut out: Vec<String> = Vec::new();
                out.push(string_of(s));
                assert(strings_view(out@) =~= seq![s@]);
                out
            }
        },
        None => {
            let mut out: Vec<String> = Vec::new();
            out.push(string_of(s));
            assert(strings_view(out@) =~= seq![s@]);
            out
        },
    }
}

fn phones_exec(d: &Document, rowid: &Option<String>) -> (r: Option<Vec<String>>)
    requires
        d.wf(),
    ensures
        phones_view(r) == phones_of(d@, opt_view(*rowid)),
{
    let id = match rowid {
        Some(id) => id,
        None => return None,
    };
    let idc = chars_of(id.as_str());
    let cells = d.select_in("table tr td table tr.requestrow2 > td[rowspan=\"2\"]", 0, d.nodes.len());
    let ghost cv = crate::dom::indices_view(cells@);
    let mut k: usize = 0;
    while k < cells.len()
        invariant
            d.wf(),
            cv == crate::dom::indices_view(cells@),
            cv == select_all(d@, phone_cells()),
            forall|j: int| 0 <= j < cells@.len() ==> #[trigger] cells@[j] < d.len(),
            k <= cells@.len(),
            idc@ == id@,
            opt_view(*rowid) == Some(id@),
            phone_cell_from(d@, cv, id@, 0) == phone_cell_from(d@, cv, id@, k as int),
        decreases cells.len() - k,
    {
        let c = cells[k];
        proof {
            crate::dom::lemma_parent_before(d@, c as int);
            assert(opt_usize_view_of(d.parents@[c as int]) == parent(d@, c as int));
        }
        let matched = match d.parents[c] {
            Some(p) => match d.attr(p, "rowid") {
                Some(v) => {
                    let vc = chars_of(v.as_str());
                    seq_equal(vc.as_slice(), idc.as_slice())
                },
                None => false,
            },
            None => false,
        };
        proof {
            assert(opt_usize_view_of(d.parents@[c as int]) == parent(d@, c as int));
        }
        if matched {
            assert(cv[k as int] == c as int);
            assert(phone_cell_from(d@, cv, id@, k as int) == Some(c as int));
            return match inner_text_exec(d, c) {
                Some(t) => Some(split_commas_exec(t.as_slice())),
                None => None,
            };
        }
        k += 1;
    }
    assert(phone_cell_from(d@, cv, id@, k as int) is None);
    None
}

pub open spec fn opt_usize_view_of(o: Option<usize>) -> Option<int> {
    crate::dom::opt_usize_view(o)
}

fn bare_cells_exec(d: &Document, cells: &Vec<usize>) -> (r: Vec<usize>)
    requires
        d.wf(),
        forall|j: int| 0 <= j < cells@.len() ==> #[trigger] cells@[j] < d.len(),
    ensures
        crate::dom::indices_view(r@) == bare_cells_in(
            d@,
            crate::dom::indices_view(cells@),
            cells@.len() as int,
        ),
        forall|j: int| 0 <= j < r@.len() ==> #[trigger] r@[j] < d.len(),
{
    let ghost cv = crate::dom::indices_view(cells@);
    let mut out: Vec<usize> = Vec::new();
    let mut k: usize = 0;
    while k < cells.len()
        invariant
            d.wf(),
            cv == crate::dom::indices_view(cells@),
            forall|j: int| 0 <= j < cells@.len() ==> #[trigger] cells@[j] < d.len(),
            k <= cells@.len(),
            crate::dom::indices_view(out@) == bare_cells_in(d@, cv, k as int),
            forall|j: int| 0 <= j < out@.len() ==> #[trigger] out@[j] < d.len(),
        decreases cells.len() - k,
    {
        if d.attr_count(cells[k]) == 0 {
            out.push(cells[k]);
        }
        assert(crate::dom::indices_view(out@) =~= bare_cells_in(d@, cv, k + 1));
        k += 1;
    }
    out
}

impl Order {
    /// Reads the order of a request row of a parsed schedule.
    pub fn from_row_and_fragment(d: &Document, row: usize) -> (r: Order)
        requires
            d.wf(),
            row < d.len(),
        ensures
            r@ == order_of(d@, row as int),
    {
        let n = d.nodes.len();
        let rowid = d.attr(row, "rowid");
        let end = d.ends[row];
        let ths = d.select_in("th", row + 1, end);
        let tds = d.select_in("td", row + 1, end);
        let bare = bare_cells_exec(d, &tds);
        let none: Vec<char> = Vec::new();
        assert(none@ =~= Seq::<char>::empty());
        let order_index = match nth_text_exec(d, &ths, 0) {
            Some(t) => {
                let dot = chars_of(".");
                let c = replace_all_exec(t.as_slice(), dot.as_slice(), none.as_slice());
                Some(parse_u8(c.as_slice()))
            },
            None => None,
        };
        let order_id = match first_text_below_exec(d, row, "td.td_nocontext") {
            Some(t) => {
                let prefix = chars_of("№ наряда: ");
                let c = replace_all_exec(t.as_slice(), prefix.as_slice(), none.as_slice());
                Some(u32_value(c.as_slice()))
            },
            None => None,
        };
        let internal_order_id = match &rowid {
            Some(t) => {
                let c = chars_of(t.as_str());
                Some(u32_value(c.as_slice()))
            },
            None => None,
        };
        let time_constrains = match (nth_text_exec(d, &ths, 1), nth_text_exec(d, &ths, 2)) {
            (Some(f), Some(t)) => {
                let fs = string_of(f.as_slice());
                let ts = string_of(t.as_slice());
                Some(TimeConstrains::from_work_schedule(fs.as_str(), ts.as_str()))
            },
            _ => None,
        };
        let phones = phones_exec(d, &rowid);
        let pa = match first_text_below_exec(d, row, "td.td_nocontext > b") {
            Some(t) => Some(string_of(t.as_slice())),
            None => None,
        };
        let address = match first_text_below_exec(d, row, "a.viewAddrLink") {
            Some(t) => {
                let s = string_of(t.as_slice());
                Some(Address::from_work_schedule(s.as_str()))
            },
            None => None,
        };
        let mdu = match first_text_below_exec(d, row, "td span.small") {
            Some(t) => {
                let s = string_of(t.as_slice());
                Some(MDU::from_work_schedule(s.as_str()))
            },
            None => None,
        };
        let status = match first_text_below_exec(d, row, "span.networkstatus") {
            Some(t) => Some(status_value(t.as_slice())),
            None => None,
        };
        let order_type = match nth_text_exec(d, &bare, 1) {
            Some(t) => Some(order_type_value(t.as_slice())),
            None => None,
        };
        let client = match nth_text_exec(d, &bare, 0) {
            Some(t) => Some(string_of(trim_exec(t.as_slice()).as_slice())),
            None => None,
        };
        let internal_status = if tds.len() > 0 {
            match nth_text_exec(d, &tds, tds.len() - 1) {
                Some(t) => Some(internal_status_value(t.as_slice())),
                None => None,
            }
        } else {
            None
        };
        Order {
            order_index,
            order_id,
            internal_order_id,
            time_constrains,
            phones,
            pa,
            address,
            mdu,
            status,
            order_type,
            client,
            internal_status,
        }
    }

    /// The guaranteed form of this order, present exactly when every field
    /// is present and valid.
    pub fn into_guaranteed(self) -> (r: Option<GuaranteedOrder>)
        ensures
            r is Some <==> order_is_complete(self@),
            r matches Some(g) ==> g@ == order_guaranteed(self@),
    {
        let order_id = match require(self.order_id) { Some(x) => x, None => return None };
        let internal_order_id = match require(self.internal_order_id) { Some(x) => x, None => return None };
        let order_index = match require(self.order_index) { Some(x) => x, None => return None };
        let time_constrains = match require(self.time_constrains) { Some(x) => x, None => return None };
        let phones = match self.phones { Some(x) => x, None => return None };
        let pa = match self.pa { Some(x) => x, None => return None };
        let address = match require(self.address) { Some(x) => x, None => return None };
        let mdu = match require(self.mdu) { Some(x) => x, None => return None };
        let status = match require(self.status) { Some(x) => x, None => return None };
        let order_type = match require(self.order_type) { Some(x) => x, None => return None };
        let client = match self.client { Some(x) => x, None => return None };
        let internal_status = match require(self.internal_status) { Some(x) => x, None => return None };
        Some(
            GuaranteedOrder {
                order_index,
                order_id,
                internal_order_id,
                time_constrains,
                phones,
                pa,
                address,
                mdu,
                status,
                order_type,
                client,
                internal_status,
            },
        )
    }
}

} // verus!
