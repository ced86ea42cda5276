//! The page-shaped in-memory store: a table is an ordered run of pages,
//! each page a fixed-capacity run of rows, with slots addressed by an
//! absolute row index.  Pages come into being lazily, one at a time, as
//! the slot just past the stored rows is first touched.

use crate::row::{lemma_capacity_constants, zero_row, zero_row_view, Row, RowView,
    ROWS_PER_PAGE, TABLE_MAX_PAGES, TABLE_MAX_ROWS};
use vstd::prelude::*;

verus! {

/// A fixed-capacity block of rows.
pub struct Page {
    pub rows: Vec<Row>,
}

impl View for Page {
    type V = Seq<RowView>;

    open spec fn view(&self) -> Seq<RowView> {
        Seq::new(self.rows@.len(), |i: int| self.rows@[i]@)
    }
}

impl Page {
    /// Makes an empty page, with room for a full page of rows reserved.
    pub fn new() -> (p: Page)
        ensures
            p@ =~= Seq::<RowView>::empty(),
    {
        Page { rows: Vec::with_capacity(ROWS_PER_PAGE) }
    }
}

/// How many pages are needed to hold `n` row slots.
pub open spec fn page_count(n: int) -> int {
    (n + ROWS_PER_PAGE - 1) / (ROWS_PER_PAGE as int)
}

/// How many of `n` row slots fall on page `p`: a full page on every page
/// before the last, the remainder on the last.
pub open spec fn page_fill(n: int, p: int) -> int {
    if n - p * ROWS_PER_PAGE >= ROWS_PER_PAGE {
        ROWS_PER_PAGE as int
    } else {
        n - p * ROWS_PER_PAGE
    }
}

/// How many slots stand materialized once the slot `i` has been touched
/// in a table of `n` rows: touching the slot just past the rows adds one.
pub open spec fn touched_count(n: int, i: int) -> int {
    if i < n {
        n
    } else {
        i + 1
    }
}

/// The whole in-memory store: the pages plus the count of logically
/// valid rows.
pub struct Table {
    pub num_rows: usize,
    pub pages: Vec<Page>,
}

impl View for Table {
    type V = Seq<RowView>;

    open spec fn view(&self) -> Seq<RowView> {
        self.slots(self.num_rows as int)
    }
}

impl Table {
    /// The pages hold exactly `n` row slots, laid out in order: every
    /// page full but the last, which holds what is left.
    pub open spec fn has_layout(self, n: int) -> bool {
        &&& self.pages@.len() == page_count(n)
        &&& forall|p: int|
            0 <= p < self.pages@.len() ==> (#[trigger] self.pages@[p])@.len() == page_fill(n, p)
    }

    /// The row stored at absolute slot `i`.
    pub open spec fn slot_view(self, i: int) -> RowView {
        self.pages@[i / (ROWS_PER_PAGE as int)]@[i % (ROWS_PER_PAGE as int)]
    }

    /// The first `n` slots, in slot order.
    pub open spec fn slots(self, n: int) -> Seq<RowView> {
        Seq::new(n as nat, |i: int| self.slot_view(i))
    }

    /// The table invariant: the row count never passes the fixed ceiling
    /// and the pages hold exactly that many slots.
    pub open spec fn well_formed(self) -> bool {
        &&& self.num_rows <= TABLE_MAX_ROWS
        &&& self.has_layout(self.num_rows as int)
    }

    /// Makes the empty table: no rows and no pages yet.
    pub fn new() -> (t: Table)
        ensures
            t.well_formed(),
            t@ =~= Seq::<RowView>::empty(),
            t.num_rows == 0,
    {
        let t = Table { num_rows: 0, pages: Vec::with_capacity(TABLE_MAX_PAGES) };
        proof {
            lemma_capacity_constants();
            assert(t.has_layout(0));
        }
        t
    }

    /// Decides the table invariant, for callers that cannot carry the
    /// proof themselves.
    pub fn is_well_formed(&self) -> (b: bool)
        ensures
            b == self.well_formed(),
    {
        proof {
            lemma_capacity_constants();
        }
        if self.num_rows > TABLE_MAX_ROWS {
            return false;
        }
        let n = self.num_rows;
        let want_pages = (n + ROWS_PER_PAGE - 1) / ROWS_PER_PAGE;
        if self.pages.len() != want_pages {
            return false;
        }
        let mut p: usize = 0;
        while p < self.pages.len()
            invariant
                0 <= p <= self.pages@.len(),
                self.num_rows == n,
                n <= TABLE_MAX_ROWS,
                self.pages@.len() == page_count(n as int),
                forall|q: int|
                    0 <= q < p ==> (#[trigger] self.pages@[q])@.len() == page_fill(n as int, q),
            decreases self.pages@.len() - p,
        {
            proof {
                lemma_capacity_constants();
                assert(ROWS_PER_PAGE * ((n as int + ROWS_PER_PAGE - 1) / (ROWS_PER_PAGE as int))
                    <= n as int + ROWS_PER_PAGE - 1);
                assert(p * ROWS_PER_PAGE < n);
            }
            let fill = if n >= (p + 1) * ROWS_PER_PAGE {
                ROWS_PER_PAGE
            } else {
                n - p * ROWS_PER_PAGE
            };
            proof {
                assert(fill == page_fill(n as int, p as int));
            }
            if self.pages[p].rows.len() != fill {
                return false;
            }
            p = p + 1;
        }
        true
    }
}

/// Hands out the slot for absolute row index `row_num`, materializing the
/// containing page, and a zero-valued row in it, when the index lies just
/// past the stored rows.  The caller may write through the returned
/// reference; the last clause says what the table then holds.
pub fn row_slot(table: &mut Table, row_num: usize) -> (row: &mut Row)
    requires
        old(table).well_formed(),
        row_num <= old(table).num_rows,
        row_num < TABLE_MAX_ROWS,
    ensures
        (*row)@ == if row_num < old(table).num_rows {
            old(table)@[row_num as int]
        } else {
            zero_row_view()
        },
        final(table).num_rows == old(table).num_rows,
        final(table).has_layout(touched_count(old(table).num_rows as int, row_num as int)),
        final(table).slots(touched_count(old(table).num_rows as int, row_num as int)) == (
        if row_num < old(table).num_rows {
            old(table)@
        } else {
            old(table)@.push(zero_row_view())
        }).update(row_num as int, final(row)@),
{
    proof {
        lemma_capacity_constants();
    }
    let ghost n = old(table).num_rows as int;
    let ghost i = row_num as int;
    let ghost m = touched_count(n, i);
    let page_num = row_num / ROWS_PER_PAGE;
    let row_offset = row_num % ROWS_PER_PAGE;
    let ghost p = page_num as int;
    let ghost o = row_offset as int;
    if page_num >= table.pages.len() {
        proof {
            assert(i == n && o == 0 && p == page_count(n));
            assert(page_count(n + 1) == p + 1);
        }
        table.pages.push(Page::new());
    }
    proof {
        assert(p < table.pages@.len());
        assert(table.pages@.len() == page_count(m));
        assert(o <= table.pages@[p]@.len());
        assert(i < n ==> o < table.pages@[p]@.len());
    }
    let page = &mut table.pages[page_num];
    if row_offset >= page.rows.len() {
        page.rows.push(zero_row());
    }
    proof {
        assert(o < page.rows@.len());
        assert(page.rows@.len() == page_fill(m, p));
    }
    &mut page.rows[row_offset]
}

/// Reads the row stored at absolute row index `row_num`.
pub fn row_at(table: &Table, row_num: usize) -> (row: &Row)
    requires
        table.well_formed(),
        row_num < table.num_rows,
    ensures
        row@ == table@[row_num as int],
{
    proof {
        lemma_capacity_constants();
        let n = table.num_rows as int;
        let i = row_num as int;
        assert(i / (ROWS_PER_PAGE as int) < page_count(n));
        assert(i % (ROWS_PER_PAGE as int) < page_fill(n, i / (ROWS_PER_PAGE as int)));
    }
    &table.pages[row_num / ROWS_PER_PAGE].rows[row_num % ROWS_PER_PAGE]
}

} // verus!
