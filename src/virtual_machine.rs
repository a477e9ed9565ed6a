use vstd::prelude::*;

use crate::enums::{ExecuteError, ExecuteResult, StatementType};
use crate::page::views_of;
use crate::row::RowView;
use crate::statement::Statement;
use crate::table::{Table, TABLE_MAX_PAGES, TABLE_PAGE_SIZE};

verus! {

/// Owns the table for the life of a session and runs statements against it.
pub struct VirtualMachine {
    table: Table,
}

impl VirtualMachine {
    /// The table this machine runs statements against.
    pub closed spec fn table(&self) -> Table {
        self.table
    }

    pub open spec fn wf(&self) -> bool {
        self.table().wf()
    }

    /// A machine over an empty table with the default page size and page count.
    pub fn new() -> (r: Self)
        ensures
            r.wf(),
            r.table()@ == Seq::<RowView>::empty(),
            r.table().page_size == TABLE_PAGE_SIZE,
            r.table().max_pages == TABLE_MAX_PAGES,
    {
        Self { table: Table::new() }
    }

    /// The number of rows inserted so far.
    pub fn row_count(&self) -> (r: usize)
        ensures
            r == self.table().num_rows,
    {
        self.table.num_rows
    }

    /// Hands `statement` to the table and returns what the table returns.
    pub fn execute(&mut self, statement: Statement) -> (r: Result<ExecuteResult, ExecuteError>)
        requires
            old(self).wf(),
            old(self).table().num_rows < usize::MAX,
        ensures
            final(self).wf(),
            final(self).table().page_size == old(self).table().page_size,
            final(self).table().max_pages == old(self).table().max_pages,
            statement.statement_type == StatementType::Select ==> {
                &&& final(self).table() == old(self).table()
                &&& r matches Ok(ExecuteResult::Success(rows)) && views_of(rows@) == old(
                    self,
                ).table()@
            },
            statement.statement_type == StatementType::Insert ==> match statement.row_to_insert {
                None => r == Err::<ExecuteResult, ExecuteError>(ExecuteError::NoRowForInsertion)
                    && final(self).table() == old(self).table(),
                Some(row) => old(self).table().insert_outcome(row, r, final(self).table()),
            },
    {
        self.table.execute(statement)
    }
}

} // verus!
