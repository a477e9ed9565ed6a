use vstd::arithmetic::div_mod::{lemma_mod_multiples_basic, lemma_mod_multiples_vanish, lemma_small_mod};
use vstd::prelude::*;

use crate::enums::{ExecuteError, ExecuteResult, ExecutionFailure, StatementType};
use crate::page::{per_page, views_of, Page};
use crate::row::{Row, RowView};
use crate::statement::Statement;

verus! {

/// Bytes in one page of a table made by `Table::new`.
pub const TABLE_PAGE_SIZE: usize = 4096;

/// Pages in a table made by `Table::new`.
pub const TABLE_MAX_PAGES: usize = 100;

/// The rows of a sequence of pages, page after page.
pub open spec fn rows_in(pages: Seq<Page>) -> Seq<RowView>
    decreases pages.len(),
{
    if pages.len() == 0 {
        Seq::empty()
    } else {
        rows_in(pages.drop_last()) + pages.last()@
    }
}

/// Whether a table holding `n` rows, with `per` rows to a page and room for
/// `max_pages` pages, takes one more row. It does not when no row fits in a
/// page, nor when the last page has just filled up while the row count is
/// still under the table's capacity: the table then reports itself full
/// rather than open a new page.
pub open spec fn accepts(n: nat, per: nat, max_pages: nat) -> bool {
    per > 0 && !(n > 0 && n % per == 0 && n < max_pages * per)
}

/// The rows after one insert of `row` into a table holding `rows`.
pub open spec fn after_insert(rows: Seq<RowView>, row: RowView, per: nat, max_pages: nat) -> Seq<
    RowView,
> {
    if accepts(rows.len(), per, max_pages) {
        rows.push(row)
    } else {
        rows
    }
}

/// The rows after inserting each row of `batch` in turn into a table
/// holding `rows`.
pub open spec fn after_inserts(rows: Seq<RowView>, batch: Seq<RowView>, per: nat, max_pages: nat) -> Seq<
    RowView,
>
    decreases batch.len(),
{
    if batch.len() == 0 {
        rows
    } else {
        after_inserts(after_insert(rows, batch[0], per, max_pages), batch.drop_first(), per, max_pages)
    }
}

/// Rows inserted one after another, each of them taken, are stored after
/// the rows already there and in the order they were inserted.
pub proof fn lemma_inserts_keep_order(rows: Seq<RowView>, batch: Seq<RowView>, per: nat, max_pages: nat)
    requires
        forall|i: nat| i < batch.len() ==> #[trigger] accepts(rows.len() + i, per, max_pages),
    ensures
        after_inserts(rows, batch, per, max_pages) == rows + batch,
    decreases batch.len(),
{
    if batch.len() > 0 {
        assert(accepts(rows.len() + 0, per, max_pages));
        let next = rows.push(batch[0]);
        assert forall|i: nat| i < batch.drop_first().len() implies #[trigger] accepts(
            next.len() + i,
            per,
            max_pages,
        ) by {
            assert(accepts(rows.len() + (i + 1) as nat, per, max_pages));
        }
        lemma_inserts_keep_order(next, batch.drop_first(), per, max_pages);
        assert(next + batch.drop_first() =~= rows + batch);
    }
}

/// Where the table has room for at most one page, or no row fits in a
/// page, as many rows as the capacity are all taken into an empty table,
/// in order.
pub proof fn lemma_capacity_is_reached(batch: Seq<RowView>, per: nat, max_pages: nat)
    requires
        max_pages <= 1 || per == 0,
        batch.len() == max_pages * per,
    ensures
        forall|i: nat| i < batch.len() ==> #[trigger] accepts(i, per, max_pages),
        after_inserts(Seq::empty(), batch, per, max_pages) == batch,
{
    assert forall|i: nat| i < batch.len() implies #[trigger] accepts(i, per, max_pages) by {
        if max_pages == 0 {
            assert(batch.len() == 0) by (nonlinear_arith)
                requires
                    batch.len() == max_pages * per,
                    max_pages == 0,
            ;
        } else if per == 0 {
            assert(batch.len() == 0) by (nonlinear_arith)
                requires
                    batch.len() == max_pages * per,
                    per == 0,
            ;
        } else {
            assert(max_pages * per == per) by (nonlinear_arith)
                requires
                    max_pages == 1,
            ;
            lemma_small_mod(i, per);
        }
    }
    assert forall|i: nat| i < batch.len() implies #[trigger] accepts(
        Seq::<RowView>::empty().len() + i,
        per,
        max_pages,
    ) by {
        assert(accepts(i, per, max_pages));
    }
    lemma_inserts_keep_order(Seq::empty(), batch, per, max_pages);
    assert(Seq::<RowView>::empty() + batch =~= batch);
}

/// Where the table has room for two pages or more, the first page fills
/// and the next insert is refused as table-full, though the capacity is
/// not reached: the table never opens its second page.
pub proof fn lemma_first_full_page_stops_inserts(per: nat, max_pages: nat)
    requires
        per > 0,
        max_pages >= 2,
    ensures
        forall|i: nat| i < per ==> #[trigger] accepts(i, per, max_pages),
        !accepts(per, per, max_pages),
        per < max_pages * per,
{
    assert forall|i: nat| i < per implies #[trigger] accepts(i, per, max_pages) by {
        lemma_small_mod(i, per);
    }
    lemma_mod_multiples_basic(1, per as int);
    assert(per < max_pages * per) by (nonlinear_arith)
        requires
            per > 0,
            max_pages >= 2,
    ;
}

/// The single table: pages of rows, filled one after the other.
pub struct Table {
    pub num_rows: usize,
    pub pages: Vec<Page>,
    pub page_size: usize,
    pub max_pages: usize,
}

impl View for Table {
    type V = Seq<RowView>;

    open spec fn view(&self) -> Seq<RowView> {
        rows_in(self.pages@)
    }
}

/// Pages that are all full hold `per` rows each.
proof fn lemma_full_pages_len(pages: Seq<Page>, per: nat)
    requires
        forall|i: int| 0 <= i < pages.len() ==> (#[trigger] pages[i]).rows@.len() == per,
    ensures
        rows_in(pages).len() == pages.len() * per,
    decreases pages.len(),
{
    if pages.len() > 0 {
        let init = pages.drop_last();
        assert forall|i: int| 0 <= i < init.len() implies (#[trigger] init[i]).rows@.len() == per by {
            assert(init[i] == pages[i]);
        }
        lemma_full_pages_len(init, per);
        assert(pages.len() * per == init.len() * per + per) by (nonlinear_arith)
            requires
                init.len() + 1 == pages.len(),
        ;
    }
}

/// Appending a page appends its rows.
proof fn lemma_rows_in_push(pages: Seq<Page>, p: Page)
    ensures
        rows_in(pages.push(p)) == rows_in(pages) + p@,
{
    assert(pages.push(p).drop_last() =~= pages);
}

/// Replacing the last page changes only the rows of that page.
proof fn lemma_rows_in_last(pages: Seq<Page>, p: Page)
    requires
        pages.len() > 0,
    ensures
        rows_in(pages.update(pages.len() - 1, p)) == rows_in(pages.drop_last()) + p@,
{
    assert(pages.update(pages.len() - 1, p).drop_last() =~= pages.drop_last());
}

impl Table {
    /// In a well-formed table whose pages hold rows, the last page is full
    /// exactly when the row count is a positive multiple of the page capacity.
    proof fn lemma_last_full(&self)
        requires
            self.wf(),
            self.per() > 0,
        ensures
            self.pages@.len() == 0 <==> self.num_rows == 0,
            self.pages@.len() > 0 ==> (self.pages@.last().full() <==> (self.num_rows as nat)
                % self.per() == 0),
    {
        let pages = self.pages@;
        let per = self.per();
        if pages.len() > 0 {
            let init = pages.drop_last();
            assert forall|i: int| 0 <= i < init.len() implies (#[trigger] init[i]).rows@.len()
                == per by {
                assert(init[i] == pages[i]);
            }
            lemma_full_pages_len(init, per);
            let l = pages.last().rows@.len();
            assert(pages.last().wf());
            assert(self@.len() == init.len() * per + l);
            if l == per {
                assert(init.len() * per + per == (init.len() + 1) * per) by (nonlinear_arith);
                lemma_mod_multiples_basic((init.len() + 1) as int, per as int);
            } else {
                lemma_mod_multiples_vanish(init.len() as int, l as int, per as int);
                lemma_small_mod(l, per);
                assert((per * init.len() + l) == init.len() * per + l) by (nonlinear_arith);
            }
        }
    }
}

impl Table {
    /// Rows that fit in one page of this table.
    pub open spec fn per(&self) -> nat {
        per_page(self.page_size as nat)
    }

    /// Rows that the table is sized for.
    pub open spec fn capacity(&self) -> nat {
        (self.max_pages as nat) * self.per()
    }

    pub open spec fn wf(&self) -> bool {
        let pages = self.pages@;
        &&& forall|i: int| 0 <= i < pages.len() ==> (#[trigger] pages[i]).max_rows == self.per()
        &&& forall|i: int| 0 <= i < pages.len() ==> (#[trigger] pages[i]).wf()
        &&& forall|i: int| 0 <= i < pages.len() - 1 ==> (#[trigger] pages[i]).full()
        &&& (self.per() > 0 && pages.len() > 0 ==> pages.last().rows@.len() > 0)
        &&& self.num_rows == self@.len()
        &&& self.capacity() <= usize::MAX
    }

    /// An empty table with pages of 4096 bytes and room for 100 pages.
    pub fn new() -> (r: Table)
        ensures
            r.wf(),
            r@ == Seq::<RowView>::empty(),
            r.page_size == TABLE_PAGE_SIZE,
            r.max_pages == TABLE_MAX_PAGES,
    {
        let per = Page::max_rows_per_page(TABLE_PAGE_SIZE);
        assert(per_page(4096) <= 1024) by (nonlinear_arith)
            requires
                crate::row::row_size_word() >= 4,
        ;
        Table::with_limits(TABLE_PAGE_SIZE, TABLE_MAX_PAGES)
    }

    /// An empty table with pages of `page_size` bytes and room for
    /// `max_pages` pages.
    pub fn with_limits(page_size: usize, max_pages: usize) -> (r: Table)
        requires
            (max_pages as nat) * per_page(page_size as nat) <= usize::MAX,
        ensures
            r.wf(),
            r@ == Seq::<RowView>::empty(),
            r.page_size == page_size,
            r.max_pages == max_pages,
    {
        Table { num_rows: 0, pages: Vec::new(), page_size, max_pages }
    }

    /// The number of rows the table is sized for.
    pub fn max_rows(&self) -> (r: usize)
        requires
            self.wf(),
        ensures
            r == self.capacity(),
    {
        self.max_pages * Page::max_rows_per_page(self.page_size)
    }

    /// Runs `statement`: an insert adds its row, a select reads every row.
    pub fn execute(&mut self, statement: Statement) -> (r: Result<ExecuteResult, ExecuteError>)
        requires
            old(self).wf(),
            old(self).num_rows < usize::MAX,
        ensures
            final(self).wf(),
            final(self).page_size == old(self).page_size,
            final(self).max_pages == old(self).max_pages,
            statement.statement_type == StatementType::Select ==> {
                &&& *final(self) == *old(self)
                &&& r matches Ok(ExecuteResult::Success(rows)) && views_of(rows@) == old(self)@
            },
            statement.statement_type == StatementType::Insert ==> match statement.row_to_insert {
                None => r == Err::<ExecuteResult, ExecuteError>(ExecuteError::NoRowForInsertion)
                    && *final(self) == *old(self),
                Some(row) => old(self).insert_outcome(row, r, *final(self)),
            },
    {
        match statement.statement_type {
            StatementType::Insert => self.execute_insert(statement.row_to_insert),
            StatementType::Select => Ok(self.execute_select()),
        }
    }

    /// What one insert of `row` into `self` owes: `r` is its result and
    /// `after` the table it leaves.
    pub open spec fn insert_outcome(
        self,
        row: Row,
        r: Result<ExecuteResult, ExecuteError>,
        after: Table,
    ) -> bool {
        if self.per() == 0 {
            &&& r == Err::<ExecuteResult, ExecuteError>(ExecuteError::PageFull)
            &&& after@ == self@
        } else if !accepts(self@.len(), self.per(), self.max_pages as nat) {
            &&& r matches Ok(ExecuteResult::ExecutionFailure(f)) && f == ExecutionFailure::TableFull
            &&& after == self
        } else {
            &&& r matches Ok(ExecuteResult::Success(rows)) && views_of(rows@) == seq![row@]
            &&& after@ == self@.push(row@)
        }
    }

    /// The rows an insert leaves are those that `after_insert` gives.
    pub proof fn lemma_outcome_rows(self, row: Row, r: Result<ExecuteResult, ExecuteError>, after: Table)
        requires
            self.insert_outcome(row, r, after),
        ensures
            after@ == after_insert(self@, row@, self.per(), self.max_pages as nat),
    {
    }

    fn execute_insert(&mut self, row: Option<Row>) -> (r: Result<ExecuteResult, ExecuteError>)
        requires
            old(self).wf(),
            old(self).num_rows < usize::MAX,
        ensures
            final(self).wf(),
            final(self).page_size == old(self).page_size,
            final(self).max_pages == old(self).max_pages,
            match row {
                None => r == Err::<ExecuteResult, ExecuteError>(ExecuteError::NoRowForInsertion)
                    && *final(self) == *old(self),
                Some(row) => old(self).insert_outcome(row, r, *final(self)),
            },
    {
        let row = match row {
            Some(row) => row,
            None => return Err(ExecuteError::NoRowForInsertion),
        };
        let ghost old_rows = self@;
        let per = Page::max_rows_per_page(self.page_size);
        proof {
            if per > 0 {
                self.lemma_last_full();
            }
        }
        if self.pages.len() == 0 {
            let ghost before = self.pages@;
            self.pages.push(Page::new(self.page_size));
            proof {
                lemma_rows_in_push(before, self.pages@.last());
                assert(self.pages@.last()@ =~= Seq::<RowView>::empty());
                assert(self@ =~= old_rows);
            }
        }
        let last = self.pages.len() - 1;
        if self.pages[last].is_full() {
            if self.num_rows < self.max_rows() {
                return Ok(ExecuteResult::ExecutionFailure(ExecutionFailure::TableFull));
            }
            let ghost before = self.pages@;
            self.pages.push(Page::new(self.page_size));
            proof {
                lemma_rows_in_push(before, self.pages@.last());
                assert(self.pages@.last()@ =~= Seq::<RowView>::empty());
                assert(self@ =~= old_rows);
            }
        }
        let ghost before = self.pages@;
        let mut page = self.pages.pop().unwrap();
        let copy = row.duplicate();
        match page.add_row(row) {
            Ok(()) => {},
            Err(_) => {
                self.pages.push(page);
                proof {
                    assert(self.pages@ =~= before);
                }
                return Err(ExecuteError::PageFull);
            },
        }
        self.pages.push(page);
        self.num_rows = self.num_rows + 1;
        proof {
            lemma_rows_in_last(before, page);
            assert(page@ =~= before.last()@.push(copy@));
            assert(before.update(before.len() - 1, page) =~= self.pages@);
            assert(before =~= before.drop_last().push(before.last()));
            lemma_rows_in_push(before.drop_last(), before.last());
            assert(self@ =~= old_rows.push(copy@));
            assert forall|i: int| 0 <= i < self.pages@.len() - 1 implies (
            #[trigger] self.pages@[i]).full() by {
                assert(self.pages@[i] == before[i]);
            }
        }
        let mut rows: Vec<Row> = Vec::new();
        rows.push(copy);
        proof {
            assert(views_of(rows@) =~= seq![copy@]);
        }
        Ok(ExecuteResult::Success(rows))
    }

    /// Every row, page after page and in insertion order within a page.
    pub fn execute_select(&self) -> (r: ExecuteResult)
        ensures
            r matches ExecuteResult::Success(rows) && views_of(rows@) == self@,
    {
        ExecuteResult::Success(self.select_all())
    }

    /// Copies of every row, page after page and in insertion order within a page.
    pub fn select_all(&self) -> (r: Vec<Row>)
        ensures
            views_of(r@) == self@,
    {
        let mut out: Vec<Row> = Vec::new();
        let mut i: usize = 0;
        while i < self.pages.len()
            invariant
                i <= self.pages@.len(),
                views_of(out@) == rows_in(self.pages@.take(i as int)),
            decreases self.pages@.len() - i,
        {
            let page = &self.pages[i];
            let mut j: usize = 0;
            while j < page.rows.len()
                invariant
                    i < self.pages@.len(),
                    *page == self.pages@[i as int],
                    j <= page.rows@.len(),
                    views_of(out@) == rows_in(self.pages@.take(i as int)) + page@.take(j as int),
                decreases page.rows@.len() - j,
            {
                let ghost prev = out@;
                out.push(page.rows[j].duplicate());
                proof {
                    assert(views_of(out@) =~= views_of(prev).push(page.rows@[j as int]@));
                    assert(page@.take(j + 1) =~= page@.take(j as int).push(page.rows@[j as int]@));
                }
                j = j + 1;
            }
            proof {
                assert(page@.take(j as int) =~= page@);
                assert(self.pages@.take(i + 1).drop_last() =~= self.pages@.take(i as int));
            }
            i = i + 1;
        }
        proof {
            assert(self.pages@.take(i as int) =~= self.pages@);
        }
        out
    }
}

} // verus!
