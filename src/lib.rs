//! A single-table, in-memory record store driven by a line-oriented
//! command language (`insert <id> <username> <email>`, `select`).

pub mod enums;
pub mod page;
pub mod row;
pub mod statement;
pub mod table;
pub mod text;
pub mod virtual_machine;

pub use enums::{
    ExecuteError, ExecuteResult, ExecutionFailure, MetaCommand, MetaCommandError, PrepareResult,
    StatementType,
};
pub use page::{Page, PageFullError};
pub use row::{Row, RowView};
pub use statement::{ParseError, Statement};
pub use table::Table;
pub use virtual_machine::VirtualMachine;
