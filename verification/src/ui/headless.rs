//! The headless driver's decisions, for scripted runs without a terminal:
//! which row a pick screen answers with, and how the offered rows are
//! recorded. The answers come from the environment:
//!
//!   PALETTE_STUB_SELECT_ID  — applied to every pick screen: select the row
//!                             whose id matches; no match → cancelled;
//!                             unset → the first row.
//!   PALETTE_STUB_SELECT_IDS — newline-separated answers consumed one per
//!                             pick screen (takes precedence).

use vstd::prelude::*;

use crate::text::{lines, split_lines, str_eq, views};
use crate::ui::{PickOutcome, PickScreen, Row, RowV, outcome_view, row_views};

verus! {

pub struct HeadlessUi {
    /// The answers left for the coming pick screens, when a list of them
    /// was given.
    select_queue: Option<Vec<String>>,
}

impl View for HeadlessUi {
    type V = Option<Seq<Seq<char>>>;

    closed spec fn view(&self) -> Option<Seq<Seq<char>>> {
        match self.select_queue {
            Some(q) => Some(views(q@)),
            None => None,
        }
    }
}

/// The answer to a pick screen: the wanted id when a row has it (else a
/// cancel), the first row when nothing is wanted (a cancel when there is
/// none).
pub open spec fn pick_answer(rows: Seq<RowV>, wanted: Option<Seq<char>>) -> Option<Seq<char>> {
    match wanted {
        Some(id) => if exists|i: int| 0 <= i < rows.len() && #[trigger] rows[i].id == id {
            Some(id)
        } else {
            None
        },
        None => if rows.len() > 0 {
            Some(rows[0].id)
        } else {
            None
        },
    }
}

/// Whether a row has this id.
fn has_row(rows: &Vec<Row>, id: &str) -> (r: bool)
    ensures
        r == exists|i: int| 0 <= i < rows@.len() && #[trigger] row_views(rows@)[i].id == id@,
{
    let ghost rv = row_views(rows@);
    let mut i: usize = 0;
    while i < rows.len()
        invariant
            0 <= i <= rows@.len(),
            rv == row_views(rows@),
            forall|j: int| 0 <= j < i ==> rv[j].id != id@,
        decreases rows@.len() - i,
    {
        if str_eq(rows[i].id.as_str(), id) {
            assert(rv[i as int].id == id@);
            return true;
        }
        i += 1;
    }
    false
}

impl HeadlessUi {
    /// The driver for a `PALETTE_STUB_SELECT_IDS` value (`None` when unset):
    /// one answer per line.
    pub fn new(select_ids: Option<&str>) -> (r: HeadlessUi)
        ensures
            r@ == match select_ids {
                Some(t) => Some(lines(t@)),
                None => None,
            },
    {
        match select_ids {
            Some(t) => HeadlessUi { select_queue: Some(split_lines(t)) },
            None => HeadlessUi { select_queue: None },
        }
    }

    /// Answers one pick screen, as `pick_answer` defines it: the wanted id is
    /// the next queued answer when there is a queue (none once it is used
    /// up), else `select_id` (the `PALETTE_STUB_SELECT_ID` value).
    pub fn answer(&mut self, screen: &PickScreen, select_id: Option<&str>) -> (r: PickOutcome)
        ensures
            final(self)@ == match old(self)@ {
                Some(q) => Some(
                    if q.len() > 0 {
                        q.drop_first()
                    } else {
                        q
                    },
                ),
                None => None,
            },
            outcome_view(r) == pick_answer(
                row_views(screen.rows@),
                match old(self)@ {
                    Some(q) => if q.len() > 0 {
                        Some(q[0])
                    } else {
                        None
                    },
                    None => match select_id {
                        Some(s) => Some(s@),
                        None => None,
                    },
                },
            ),
    {
        let wanted: Option<String> = match &mut self.select_queue {
            Some(queue) => {
                if queue.len() > 0 {
                    let ghost before = views(queue@);
                    let first = queue.remove(0);
                    assert(views(queue@) =~= before.drop_first());
                    Some(first)
                } else {
                    None
                }
            },
            None => match select_id {
                Some(s) => Some(crate::text::owned(s)),
                None => None,
            },
        };
        let ghost rows = row_views(screen.rows@);
        match wanted {
            Some(id) => {
                if has_row(&screen.rows, id.as_str()) {
                    PickOutcome::Selected(id)
                } else {
                    PickOutcome::Cancelled
                }
            },
            None => {
                if screen.rows.len() > 0 {
                    PickOutcome::Selected(screen.rows[0].id.clone())
                } else {
                    PickOutcome::Cancelled
                }
            },
        }
    }
}

/// How a pick screen's rows are recorded: one `id\tlabel` line per row,
/// or the bare id when the label is the id (as on the confirm screen).
pub open spec fn dump_lines(rows: Seq<RowV>) -> Seq<char>
    decreases rows.len(),
{
    if rows.len() == 0 {
        Seq::empty()
    } else {
        let r = rows.last();
        dump_lines(rows.drop_last()) + if r.id == r.label {
            r.id + "\n"@
        } else {
            r.id + "\t"@ + r.label + "\n"@
        }
    }
}

pub fn dump_text(rows: &Vec<Row>) -> (r: String)
    ensures
        r@ == dump_lines(row_views(rows@)),
{
    let mut out = String::new();
    let mut i: usize = 0;
    assert(row_views(rows@).take(0) =~= Seq::<RowV>::empty());
    while i < rows.len()
        invariant
            0 <= i <= rows@.len(),
            out@ == dump_lines(row_views(rows@).take(i as int)),
        decreases rows@.len() - i,
    {
        let row = &rows[i];
        assert(row_views(rows@).take(i + 1).drop_last() =~= row_views(rows@).take(i as int));
        out.append(row.id.as_str());
        if !str_eq(row.id.as_str(), row.label.as_str()) {
            out.append("\t");
            out.append(row.label.as_str());
        }
        out.append("\n");
        i += 1;
    }
    assert(row_views(rows@).take(rows@.len() as int) =~= row_views(rows@));
    out
}

} // verus!
