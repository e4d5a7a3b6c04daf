//! Entries of an order's history: each one sets the order's internal status
//! and may carry a text.

use vstd::prelude::*;
use crate::data::comment::opt_string_view;
use crate::data::datetime::{kyiv_datetime, kyiv_datetime_of, DateTime};
use crate::data::internal_status::{internal_status_of, InternalStatus, InternalStatusError};
use crate::serializable_parse_error_kind::SerializableParseErrorKind;
use crate::dom::{child_elements, texts, DocView, Document};
use crate::text::{chars_of, normalize_markup, normalize_markup_exec, string_of};

verus! {

/// Why a history entry could not be read.
#[derive(Clone, PartialEq, Eq, PartialOrd, Ord, Debug, Hash)]
pub enum FullCommentError {
    /// The row has fewer than the six cells of a history entry.
    NotEnoughCells,
    /// The row has no cell with the date-time.
    DateTimeShouldBePresent,
    /// The row has no cell with the author.
    UserShouldBePresent,
    /// The row has no cell with the internal status.
    InternalStatusShouldBePresent,
    /// The date-time cell could not be read.
    DateTimeFailed(String, SerializableParseErrorKind),
    /// The status cell names no internal status.
    InvalidInternalStatus(InternalStatusError),
}

/// One entry of an order's history.
#[derive(Clone, PartialEq, Eq, PartialOrd, Ord, Debug, Hash)]
pub struct FullComment {
    pub text: Option<String>,
    pub user: String,
    pub datetime: DateTime,
    /// The internal status that the entry set.
    pub internal_status: InternalStatus,
}

pub struct FullCommentView {
    pub text: Option<Seq<char>>,
    pub user: Seq<char>,
    pub datetime: DateTime,
    pub internal_status: InternalStatus,
}

pub enum FullCommentErrorView {
    NotEnoughCells,
    DateTimeShouldBePresent,
    UserShouldBePresent,
    InternalStatusShouldBePresent,
    DateTimeFailed(Seq<char>, SerializableParseErrorKind),
    InvalidInternalStatus(Seq<char>),
}

impl View for FullComment {
    type V = FullCommentView;

    open spec fn view(&self) -> FullCommentView {
        FullCommentView {
            text: opt_string_view(self.text),
            user: self.user@,
            datetime: self.datetime,
            internal_status: self.internal_status,
        }
    }
}

impl View for FullCommentError {
    type V = FullCommentErrorView;

    open spec fn view(&self) -> FullCommentErrorView {
        match self {
            FullCommentError::NotEnoughCells => FullCommentErrorView::NotEnoughCells,
            FullCommentError::DateTimeShouldBePresent => FullCommentErrorView::DateTimeShouldBePresent,
            FullCommentError::UserShouldBePresent => FullCommentErrorView::UserShouldBePresent,
            FullCommentError::InternalStatusShouldBePresent => FullCommentErrorView::InternalStatusShouldBePresent,
            FullCommentError::DateTimeFailed(s, k) => FullCommentErrorView::DateTimeFailed(s@, *k),
            FullCommentError::InvalidInternalStatus(e) => FullCommentErrorView::InvalidInternalStatus(e@),
        }
    }
}

/// The cell at `i`, absent where the row is shorter or the cell holds no text.
pub open spec fn cell(cells: Seq<Option<Seq<char>>>, i: int) -> Option<Seq<char>> {
    if 0 <= i < cells.len() {
        cells[i]
    } else {
        None
    }
}

/// What a history row gives, from the first text of each of its cells: the
/// date-time at 0, the author at 2, the status at 4 and the text at 5.
/// A row of fewer than six cells is reported first; then cells without
/// text, in that order; then the date-time and then the status are read.
pub open spec fn full_comment_of(cells: Seq<Option<Seq<char>>>) -> Result<FullCommentView, FullCommentErrorView> {
    if cells.len() < 6 {
        Err(FullCommentErrorView::NotEnoughCells)
    } else if cell(cells, 0) is None {
        Err(FullCommentErrorView::DateTimeShouldBePresent)
    } else if cell(cells, 2) is None {
        Err(FullCommentErrorView::UserShouldBePresent)
    } else if cell(cells, 4) is None {
        Err(FullCommentErrorView::InternalStatusShouldBePresent)
    } else {
        let raw_datetime = cell(cells, 0)->0;
        let raw_status = cell(cells, 4)->0;
        match kyiv_datetime_of(raw_datetime) {
            Err(k) => Err(FullCommentErrorView::DateTimeFailed(raw_datetime, k)),
            Ok(datetime) => match internal_status_of(raw_status) {
                None => Err(FullCommentErrorView::InvalidInternalStatus(raw_status)),
                Some(internal_status) => Ok(
                    FullCommentView {
                        text: match cell(cells, 5) {
                            Some(t) => Some(normalize_markup(t)),
                            None => None,
                        },
                        user: cell(cells, 2)->0,
                        datetime,
                        internal_status,
                    },
                ),
            },
        }
    }
}

pub open spec fn cells_view(cells: Seq<Option<String>>) -> Seq<Option<Seq<char>>> {
    cells.map_values(|c: Option<String>| opt_string_view(c))
}

/// The first text of node `c`, if it has any.
pub open spec fn first_text(d: DocView, c: int) -> Option<Seq<char>> {
    if texts(d, c).len() > 0 {
        Some(texts(d, c)[0])
    } else {
        None
    }
}

/// The first text of each element child of `row`.
pub open spec fn row_cells(d: DocView, row: int) -> Seq<Option<Seq<char>>> {
    child_elements(d, row).map_values(|c: int| first_text(d, c))
}

fn cell_exec(cells: &Vec<Option<String>>, i: usize) -> (r: Option<&String>)
    ensures
        r is Some <==> cell(cells_view(cells@), i as int) is Some,
        r matches Some(s) ==> s@ == cell(cells_view(cells@), i as int)->0,
{
    if i < cells.len() {
        match &cells[i] {
            Some(s) => Some(s),
            None => None,
        }
    } else {
        None
    }
}

impl FullComment {
    /// Reads a history entry from its table row.
    pub fn from(d: &Document, row: usize) -> (r: Result<FullComment, FullCommentError>)
        requires
            d.wf(),
            row < d.len(),
        ensures
            match r {
                Ok(c) => full_comment_of(row_cells(d@, row as int)) == Ok::<FullCommentView, FullCommentErrorView>(c@),
                Err(e) => full_comment_of(row_cells(d@, row as int)) == Err::<FullCommentView, FullCommentErrorView>(e@),
            },
    {
        let children = d.child_elements(row);
        let mut cells: Vec<Option<String>> = Vec::new();
        let mut k: usize = 0;
        while k < children.len()
            invariant
                d.wf(),
                crate::dom::indices_view(children@) == child_elements(d@, row as int),
                forall|j: int| 0 <= j < children@.len() ==> #[trigger] children@[j] < d.len(),
                k <= children@.len(),
                cells@.len() == k,
                forall|j: int| 0 <= j < k ==> opt_string_view(#[trigger] cells@[j]) == first_text(d@, children@[j] as int),
            decreases children.len() - k,
        {
            cells.push(d.first_text(children[k]));
            k += 1;
        }
        assert(cells_view(cells@) =~= row_cells(d@, row as int));
        FullComment::from_cells(&cells)
    }

    /// Reads a history entry from the first text of each cell of its row, as
    /// [`full_comment_of`] says.
    pub fn from_cells(cells: &Vec<Option<String>>) -> (r: Result<FullComment, FullCommentError>)
        ensures
            match r {
                Ok(c) => full_comment_of(cells_view(cells@)) == Ok::<FullCommentView, FullCommentErrorView>(c@),
                Err(e) => full_comment_of(cells_view(cells@)) == Err::<FullCommentView, FullCommentErrorView>(e@),
            },
    {
        if cells.len() < 6 {
            return Err(FullCommentError::NotEnoughCells);
        }
        let raw_datetime = match cell_exec(cells, 0) {
            Some(s) => s,
            None => return Err(FullCommentError::DateTimeShouldBePresent),
        };
        let user = match cell_exec(cells, 2) {
            Some(s) => s,
            None => return Err(FullCommentError::UserShouldBePresent),
        };
        let raw_status = match cell_exec(cells, 4) {
            Some(s) => s,
            None => return Err(FullCommentError::InternalStatusShouldBePresent),
        };
        let text = match cell_exec(cells, 5) {
            Some(t) => {
                let c = chars_of(t.as_str());
                Some(string_of(normalize_markup_exec(c.as_slice()).as_slice()))
            },
            None => None,
        };
        let datetime = match kyiv_datetime(raw_datetime.as_str()) {
            Ok(d) => d,
            Err(k) => {
                let raw = chars_of(raw_datetime.as_str());
                return Err(FullCommentError::DateTimeFailed(string_of(raw.as_slice()), k));
            },
        };
        let internal_status = match InternalStatus::parse(raw_status.as_str()) {
            Ok(s) => s,
            Err(e) => return Err(FullCommentError::InvalidInternalStatus(e)),
        };
        let u = chars_of(user.as_str());
        Ok(FullComment { text, user: string_of(u.as_slice()), datetime, internal_status })
    }
}

} // verus!
