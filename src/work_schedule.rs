//! Work schedules: the orders planned for a day, one request row each.

pub mod order;

use vstd::prelude::*;
use self::order::{order_of, Order, OrderView};
use crate::dom::{document_of, select_all, DocView, Document};

verus! {

/// The orders of a work schedule.
#[derive(Clone, PartialEq, Eq, PartialOrd, Ord, Debug, Hash)]
pub struct WorkSchedule(pub Vec<Order>);

impl View for WorkSchedule {
    type V = Seq<OrderView>;

    open spec fn view(&self) -> Seq<OrderView> {
        self.0@.map_values(|o: Order| o@)
    }
}

/// The selector of the request rows of a schedule.
pub open spec fn request_rows() -> Seq<char> {
    "table tr td table tr.requestrow"@
}

/// The orders that a schedule gives, one for each request row.
pub open spec fn schedule_of(d: DocView) -> Seq<OrderView> {
    select_all(d, request_rows()).map_values(|row: int| order_of(d, row))
}

/// Reading the same text twice gives equal work schedules.
pub proof fn lemma_schedule_same_text(text: Seq<char>, first: WorkSchedule, second: WorkSchedule)
    requires
        first@ == schedule_of(document_of(text)),
        second@ == schedule_of(document_of(text)),
    ensures
        first@ == second@,
{
}

impl WorkSchedule {
    /// Reads a work schedule from its HTML.
    pub fn from(html: &str) -> (r: WorkSchedule)
        ensures
            r@ == schedule_of(document_of(html@)),
    {
        let d = Document::parse(html);
        WorkSchedule::parse(&d)
    }

    /// Reads the orders of a parsed schedule.
    pub fn parse(d: &Document) -> (r: WorkSchedule)
        requires
            d.wf(),
        ensures
            r@ == schedule_of(d@),
    {
        let rows = d.select_in("table tr td table tr.requestrow", 0, d.nodes.len());
        let mut out: Vec<Order> = Vec::new();
        let mut k: usize = 0;
        while k < rows.len()
            invariant
                d.wf(),
                crate::dom::indices_view(rows@) == select_all(d@, request_rows()),
                forall|j: int| 0 <= j < rows@.len() ==> #[trigger] rows@[j] < d.len(),
                k <= rows@.len(),
                out@.len() == k,
                forall|j: int| 0 <= j < k ==> (#[trigger] out@[j])@ == order_of(d@, rows@[j] as int),
            decreases rows.len() - k,
        {
            out.push(Order::from_row_and_fragment(d, rows[k]));
            k += 1;
        }
        let r = WorkSchedule(out);
        assert(r@ =~= schedule_of(d@));
        r
    }
}

} // verus!
