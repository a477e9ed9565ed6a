use vstd::prelude::*;
use vstd::string::StringExecFns;

use crate::row::Row;
use crate::statement::Statement;
use crate::text::same_text;

verus! {

/// A command addressed to the interpreter itself, written after a leading dot.
#[derive(Debug, Clone, Copy, PartialEq, Eq, Structural)]
pub enum MetaCommand {
    Exit,
}

/// A dot-command that names no known meta-command.
#[derive(Debug, Clone, Copy, PartialEq, Eq, Structural)]
pub enum MetaCommandError {
    Invalid,
}

impl MetaCommandError {
    pub open spec fn text(self) -> Seq<char> {
        "Invalid meta-command"@
    }

    /// The message shown for this error.
    pub fn to_string(&self) -> (r: String)
        ensures
            r@ == self.text(),
    {
        String::from_str("Invalid meta-command")
    }
}

impl MetaCommand {
    /// Reads the text after the dot: only `exit` is a meta-command.
    pub fn from_str(input: &str) -> (r: Result<MetaCommand, MetaCommandError>)
        ensures
            r == (if input@ == "exit"@ {
                Ok(MetaCommand::Exit)
            } else {
                Err(MetaCommandError::Invalid)
            }),
    {
        if same_text(input, "exit") {
            Ok(MetaCommand::Exit)
        } else {
            Err(MetaCommandError::Invalid)
        }
    }
}

/// What a parsed input line turned out to be.
#[derive(Debug)]
pub enum PrepareResult {
    Success(Statement),
    SyntaxError(String),
    UnrecognizedStatement,
}

/// A well-formed statement that the table declined to carry out.
#[derive(Debug, Clone, Copy, PartialEq, Eq, Structural)]
pub enum ExecutionFailure {
    TableFull,
}

/// The outcome of running a statement: the rows it produced, or a failure.
#[derive(Debug)]
pub enum ExecuteResult {
    Success(Vec<Row>),
    ExecutionFailure(ExecutionFailure),
}

/// A statement that cannot be run at all.
#[derive(Debug, Clone, Copy, PartialEq, Eq, Structural)]
pub enum ExecuteError {
    /// An insert statement that carries no row.
    NoRowForInsertion,
    /// The page chosen for a row had no room: the page size leaves no room
    /// for even one row.
    PageFull,
}

impl ExecuteError {
    pub open spec fn text(self) -> Seq<char> {
        match self {
            ExecuteError::NoRowForInsertion => "No row for insertion"@,
            ExecuteError::PageFull => "Page is full"@,
        }
    }

    /// The message shown for this error.
    pub fn to_string(&self) -> (r: String)
        ensures
            r@ == self.text(),
    {
        match self {
            ExecuteError::NoRowForInsertion => String::from_str("No row for insertion"),
            ExecuteError::PageFull => String::from_str("Page is full"),
        }
    }
}

/// The two kinds of statement.
#[derive(Debug, Clone, Copy, PartialEq, Eq, Structural)]
pub enum StatementType {
    Insert,
    Select,
}

} // verus!
