//! One entry of the search results.

use vstd::prelude::*;
use crate::data::address::{address_from_parts, Address, AddressView};
use crate::data::datetime::{date_parse, parse_date, Date};
use crate::data::internal_status::{internal_status_result, InternalStatus, InternalStatusError};
use crate::data::mdu::{mdu_of, MduView, MDUError, MDU};
use crate::dom::{child_elements, joined_text, DocView, Document};
use crate::field::{field_view, opt_view, require, required, u32_field};
use crate::scan::{internal_status_value, u32_value};
use crate::serializable_int_error_kind::SerializableIntErrorKind;
use crate::serializable_parse_error_kind::SerializableParseErrorKind;
use crate::text::{string_of, trim, trim_exec};

verus! {

/// One row of the search results; every field keeps its own validity.
#[derive(Clone, PartialEq, Eq, PartialOrd, Ord, Debug, Hash)]
pub struct SearchEntry {
    pub order_id: Option<Result<u32, SerializableIntErrorKind>>,
    pub internal_order_id: Option<Result<u32, SerializableIntErrorKind>>,
    /// The client's first phone number.
    pub phone_number: Option<String>,
    pub address: Option<Address>,
    pub mdu: Option<Result<MDU, MDUError>>,
    pub client: Option<String>,
    /// The first installer.
    pub installer: Option<String>,
    pub internal_status: Option<Result<InternalStatus, InternalStatusError>>,
    /// Date of the last update of the order.
    pub last_updated: Option<Result<Date, SerializableParseErrorKind>>,
}

pub struct SearchEntryView {
    pub order_id: Option<Result<u32, SerializableIntErrorKind>>,
    pub internal_order_id: Option<Result<u32, SerializableIntErrorKind>>,
    pub phone_number: Option<Seq<char>>,
    pub address: Option<AddressView>,
    pub mdu: Option<Result<MduView, MDUError>>,
    pub client: Option<Seq<char>>,
    pub installer: Option<Seq<char>>,
    pub internal_status: Option<Result<InternalStatus, Seq<char>>>,
    pub last_updated: Option<Result<Date, SerializableParseErrorKind>>,
}

impl View for SearchEntry {
    type V = SearchEntryView;

    open spec fn view(&self) -> SearchEntryView {
        SearchEntryView {
            order_id: self.order_id,
            internal_order_id: self.internal_order_id,
            phone_number: opt_view(self.phone_number),
            address: opt_view(self.address),
            mdu: field_view(self.mdu),
            client: opt_view(self.client),
            installer: opt_view(self.installer),
            internal_status: field_view(self.internal_status),
            last_updated: self.last_updated,
        }
    }
}

impl Default for SearchEntry {
    fn default() -> (r: SearchEntry)
        ensures
            r.order_id is None && r.internal_order_id is None && r.phone_number is None
                && r.address is None && r.mdu is None && r.client is None && r.installer is None
                && r.internal_status is None && r.last_updated is None,
    {
        SearchEntry {
            order_id: None,
            internal_order_id: None,
            phone_number: None,
            address: None,
            mdu: None,
            client: None,
            installer: None,
            internal_status: None,
            last_updated: None,
        }
    }
}

/// The text of the `k`-th cell of a row; none where the row has no such
/// cell or the cell is empty.
pub open spec fn column(d: DocView, row: int, k: int) -> Option<Seq<char>> {
    let cells = child_elements(d, row);
    if 0 <= k < cells.len() && joined_text(d, cells[k]).len() > 0 {
        Some(joined_text(d, cells[k]))
    } else {
        None
    }
}

/// The entry that a row gives, by column: internal order id, order id,
/// city, street, building, apartment, client, phone, date of the last
/// update, two columns left aside, installer, internal status, dwelling unit.
pub open spec fn search_entry_of(d: DocView, row: int) -> SearchEntryView {
    SearchEntryView {
        internal_order_id: match column(d, row, 0) {
            Some(t) => Some(u32_field(t)),
            None => None,
        },
        order_id: match column(d, row, 1) {
            Some(t) => Some(u32_field(t)),
            None => None,
        },
        address: match (column(d, row, 2), column(d, row, 3), column(d, row, 4), column(d, row, 5)) {
            (Some(c), Some(s), Some(b), Some(a)) => Some(address_from_parts(c, s, b, a)),
            _ => None,
        },
        client: match column(d, row, 6) {
            Some(t) => Some(trim(t)),
            None => None,
        },
        phone_number: column(d, row, 7),
        last_updated: match column(d, row, 8) {
            Some(t) => Some(date_parse(t, "%Y-%m-%d"@)),
            None => None,
        },
        installer: column(d, row, 11),
        internal_status: match column(d, row, 12) {
            Some(t) => Some(internal_status_result(t)),
            None => None,
        },
        mdu: match column(d, row, 13) {
            Some(t) => Some(mdu_of(t)),
            None => None,
        },
    }
}

/// A search entry with every required field resolved; the installer stays
/// optional.
#[derive(Clone, PartialEq, Eq, PartialOrd, Ord, Debug, Hash)]
pub struct GuaranteedSearchEntry {
    pub order_id: u32,
    pub internal_order_id: u32,
    pub phone_number: String,
    pub address: Address,
    pub mdu: MDU,
    pub client: String,
    pub installer: Option<String>,
    pub internal_status: InternalStatus,
    pub last_updated: Date,
}

pub struct GuaranteedSearchEntryView {
    pub order_id: u32,
    pub internal_order_id: u32,
    pub phone_number: Seq<char>,
    pub address: AddressView,
    pub mdu: MduView,
    pub client: Seq<char>,
    pub installer: Option<Seq<char>>,
    pub internal_status: InternalStatus,
    pub last_updated: Date,
}

impl View for GuaranteedSearchEntry {
    type V = GuaranteedSearchEntryView;

    open spec fn view(&self) -> GuaranteedSearchEntryView {
        GuaranteedSearchEntryView {
            order_id: self.order_id,
            internal_order_id: self.internal_order_id,
            phone_number: self.phone_number@,
            address: self.address@,
            mdu: self.mdu@,
            client: self.client@,
            installer: opt_view(self.installer),
            internal_status: self.internal_status,
            last_updated: self.last_updated,
        }
    }
}

/// Whether every field of a search entry but the installer is present and
/// valid.
pub open spec fn search_entry_is_complete(v: SearchEntryView) -> bool {
    &&& required(v.order_id) is Some
    &&& required(v.internal_order_id) is Some
    &&& v.phone_number is Some
    &&& v.address is Some
    &&& required(v.mdu) is Some
    &&& v.client is Some
    &&& required(v.internal_status) is Some
    &&& required(v.last_updated) is Some
}

/// The guaranteed form of a complete search entry.
pub open spec fn search_entry_guaranteed(v: SearchEntryView) -> GuaranteedSearchEntryView {
    GuaranteedSearchEntryView {
        order_id: required(v.order_id)->0,
        internal_order_id: required(v.internal_order_id)->0,
        phone_number: v.phone_number->0,
        address: v.address->0,
        mdu: required(v.mdu)->0,
        client: v.client->0,
        installer: v.installer,
        internal_status: required(v.internal_status)->0,
        last_updated: required(v.last_updated)->0,
    }
}

impl SearchEntry {
    /// The text of the `k`-th cell of a row.
    fn column(d: &Document, cells: &Vec<usize>, row: usize, k: usize) -> (r: Option<Vec<char>>)
        requires
            d.wf(),
            row < d.len(),
            crate::dom::indices_view(cells@) == child_elements(d@, row as int),
            forall|j: int| 0 <= j < cells@.len() ==> #[trigger] cells@[j] < d.len(),
        ensures
            opt_view(r) == column(d@, row as int, k as int),
    {
        if k < cells.len() {
            let t = d.joined_text(cells[k]);
            if t.len() > 0 {
                Some(t)
            } else {
                None
            }
        } else {
            None
        }
    }

    /// Reads the entry of one row of the search results.
    pub fn from_row(d: &Document, row: usize) -> (r: SearchEntry)
        requires
            d.wf(),
            row < d.len(),
        ensures
            r@ == search_entry_of(d@, row as int),
    {
        let cells = d.child_elements(row);
        let internal_order_id = match SearchEntry::column(d, &cells, row, 0) {
            Some(t) => Some(u32_value(t.as_slice())),
            None => None,
        };
        let order_id = match SearchEntry::column(d, &cells, row, 1) {
            Some(t) => Some(u32_value(t.as_slice())),
            None => None,
        };
        let city = SearchEntry::column(d, &cells, row, 2);
        let street = SearchEntry::column(d, &cells, row, 3);
        let building = SearchEntry::column(d, &cells, row, 4);
        let apartment = SearchEntry::column(d, &cells, row, 5);
        let client = match SearchEntry::column(d, &cells, row, 6) {
            Some(t) => Some(string_of(trim_exec(t.as_slice()).as_slice())),
            None => None,
        };
        let phone_number = match SearchEntry::column(d, &cells, row, 7) {
            Some(t) => Some(string_of(t.as_slice())),
            None => None,
        };
        let last_updated = match SearchEntry::column(d, &cells, row, 8) {
            Some(t) => {
                let s = string_of(t.as_slice());
                Some(parse_date(s.as_str(), "%Y-%m-%d"))
            },
            None => None,
        };
        let installer = match SearchEntry::column(d, &cells, row, 11) {
            Some(t) => Some(string_of(t.as_slice())),
            None => None,
        };
        let internal_status = match SearchEntry::column(d, &cells, row, 12) {
            Some(t) => Some(internal_status_value(t.as_slice())),
            None => None,
        };
        let mdu = match SearchEntry::column(d, &cells, row, 13) {
            Some(t) => {
                let s = string_of(t.as_slice());
                Some(MDU::from_work_schedule(s.as_str()))
            },
            None => None,
        };
        let address = match (city, street, building, apartment) {
            (Some(c), Some(s), Some(b), Some(a)) => Some(
                Address::from_parts(
                    string_of(c.as_slice()),
                    string_of(s.as_slice()),
                    string_of(b.as_slice()),
                    string_of(a.as_slice()),
                ),
            ),
            _ => None,
        };
        SearchEntry {
            order_id,
            internal_order_id,
            phone_number,
            address,
            mdu,
            client,
            installer,
            internal_status,
            last_updated,
        }
    }

    /// The guaranteed form of this entry, present exactly when every field
    /// but the installer is.
    pub fn into_guaranteed(self) -> (r: Option<GuaranteedSearchEntry>)
        ensures
            r is Some <==> search_entry_is_complete(self@),
            r matches Some(g) ==> g@ == search_entry_guaranteed(self@),
    {
        let order_id = match require(self.order_id) { Some(x) => x, None => return None };
        let internal_order_id = match require(self.internal_order_id) { Some(x) => x, None => return None };
        let phone_number = match self.phone_number { Some(x) => x, None => return None };
        let address = match self.address { Some(x) => x, None => return None };
        let mdu = match require(self.mdu) { Some(x) => x, None => return None };
        let client = match self.client { Some(x) => x, None => return None };
        let internal_status = match require(self.internal_status) { Some(x) => x, None => return None };
        let last_updated = match require(self.last_updated) { Some(x) => x, None => return None };
        Some(
            GuaranteedSearchEntry {
                order_id,
                internal_order_id,
                phone_number,
                address,
                mdu,
                client,
                installer: self.installer,
                internal_status,
                last_updated,
            },
        )
    }
}

} // verus!
