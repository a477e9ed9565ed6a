use vstd::prelude::*;
use vstd::string::StringExecFns;

use crate::row::{row_size_word, Row, RowView};

verus! {

/// How many rows fit in a page of `page_size` bytes.
pub open spec fn per_page(page_size: nat) -> nat {
    page_size / row_size_word()
}

/// The record views of a sequence of rows.
pub open spec fn views_of(rows: Seq<Row>) -> Seq<RowView> {
    rows.map_values(|r: Row| r@)
}

/// A row offered to a page that had no room left.
#[derive(Debug, Clone, Copy, PartialEq, Eq, Structural)]
pub struct PageFullError;

impl PageFullError {
    pub open spec fn text(self) -> Seq<char> {
        "Page is full"@
    }

    /// The message shown for this error.
    pub fn to_string(&self) -> (r: String)
        ensures
            r@ == self.text(),
    {
        String::from_str("Page is full")
    }
}

/// A bounded, append-only run of rows.
pub struct Page {
    pub rows: Vec<Row>,
    pub max_rows: usize,
}

impl View for Page {
    type V = Seq<RowView>;

    open spec fn view(&self) -> Seq<RowView> {
        views_of(self.rows@)
    }
}

impl Page {
    /// A page never holds more rows than its capacity.
    pub open spec fn wf(&self) -> bool {
        self.rows@.len() <= self.max_rows
    }

    pub open spec fn full(&self) -> bool {
        self.rows@.len() == self.max_rows
    }

    /// An empty page sized for `page_size` bytes.
    pub fn new(page_size: usize) -> (r: Page)
        ensures
            r.rows@.len() == 0,
            r.max_rows == per_page(page_size as nat),
            r.wf(),
    {
        Page { rows: Vec::new(), max_rows: Self::max_rows_per_page(page_size) }
    }

    /// Appends `row` unless the page is full.
    pub fn add_row(&mut self, row: Row) -> (r: Result<(), PageFullError>)
        ensures
            r is Err <==> old(self).full(),
            r is Err ==> *final(self) == *old(self),
            r is Ok ==> final(self).rows@ == old(self).rows@.push(row),
            final(self).max_rows == old(self).max_rows,
    {
        if self.is_full() {
            return Err(PageFullError);
        }
        self.rows.push(row);
        Ok(())
    }

    /// Whether the page holds as many rows as it can.
    pub fn is_full(&self) -> (r: bool)
        ensures
            r == self.full(),
    {
        self.rows.len() == self.max_rows
    }

    /// How many rows fit in `page_size` bytes.
    pub fn max_rows_per_page(page_size: usize) -> (r: usize)
        ensures
            r == per_page(page_size as nat),
    {
        page_size / Row::max_size()
    }
}

} // verus!
