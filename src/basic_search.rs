//! Search results: a table whose rows are orders, each column in a fixed
//! place.

pub mod search_entry;

use vstd::prelude::*;
use self::search_entry::{search_entry_of, SearchEntry, SearchEntryView};
use crate::dom::{document_of, select_all, DocView, Document};
use crate::text::{chars_of, string_of};

verus! {

/// The search results, one entry for each row.
#[derive(Clone, PartialEq, Eq, PartialOrd, Ord, Debug, Hash)]
pub struct BasicSearch(pub Vec<SearchEntry>);

impl View for BasicSearch {
    type V = Seq<SearchEntryView>;

    open spec fn view(&self) -> Seq<SearchEntryView> {
        self.0@.map_values(|e: SearchEntry| e@)
    }
}

/// The rows of a table as the portal sends them, wrapped in a table.
pub open spec fn wrapped_in_table(html: Seq<char>) -> Seq<char> {
    "<table>"@ + html + "</table>"@
}

/// The entries that a parsed table gives, one for each `tr`.
pub open spec fn search_of(d: DocView) -> Seq<SearchEntryView> {
    select_all(d, "tr"@).map_values(|row: int| search_entry_of(d, row))
}

/// Reading the same text twice gives equal search results.
pub proof fn lemma_search_same_text(text: Seq<char>, first: BasicSearch, second: BasicSearch)
    requires
        first@ == search_of(document_of(wrapped_in_table(text))),
        second@ == search_of(document_of(wrapped_in_table(text))),
    ensures
        first@ == second@,
{
}

impl BasicSearch {
    /// Reads search results from the rows the portal sends.
    pub fn from(html: &str) -> (r: BasicSearch)
        ensures
            r@ == search_of(document_of(wrapped_in_table(html@))),
    {
        let mut text = chars_of("<table>");
        let mut body = chars_of(html);
        let mut tail = chars_of("</table>");
        text.append(&mut body);
        text.append(&mut tail);
        let s = string_of(text.as_slice());
        let d = Document::parse(s.as_str());
        BasicSearch::from_document(&d)
    }

    /// Reads search results from a parsed table.
    pub fn from_document(d: &Document) -> (r: BasicSearch)
        requires
            d.wf(),
        ensures
            r@ == search_of(d@),
    {
        let rows = d.select_in("tr", 0, d.nodes.len());
        let mut out: Vec<SearchEntry> = Vec::new();
        let mut k: usize = 0;
        while k < rows.len()
            invariant
                d.wf(),
                crate::dom::indices_view(rows@) == select_all(d@, "tr"@),
                forall|j: int| 0 <= j < rows@.len() ==> #[trigger] rows@[j] < d.len(),
                k <= rows@.len(),
                out@.len() == k,
                forall|j: int| 0 <= j < k ==> (#[trigger] out@[j])@ == search_entry_of(d@, rows@[j] as int),
            decreases rows.len() - k,
        {
            out.push(SearchEntry::from_row(d, rows[k]));
            k += 1;
        }
        let r = BasicSearch(out);
        assert(r@ =~= search_of(d@));
        r
    }
}

} // verus!
