use vstd::prelude::*;
use vstd::string::{StrSliceExecFns, StringExecFns};
use vstd::utf8::encode_utf8;

use crate::enums::{ExecuteError, ExecuteResult, PrepareResult, StatementType};
use crate::page::views_of;
use crate::table::{accepts, Table};
use crate::row::{email_from, username_from, Row, RowView, EMAIL_MAX, USERNAME_MAX};
use crate::text::{
    chars_of, has_token, i32_value, lemma_space_end_bounds, lemma_word_end_bounds, parse_i32,
    skip_spaces, skip_word, starts_with, token, token_start,
};

verus! {

/// One parsed command, ready to run.
#[derive(Debug)]
pub struct Statement {
    pub statement_type: StatementType,
    pub row_to_insert: Option<Row>,
}

/// Why an insert line could not be read.
#[derive(Debug, Clone, Copy, PartialEq, Eq, Structural)]
pub enum ParseError {
    MissingId,
    InvalidId,
    MissingUsername,
    UsernameTooLong,
    MissingEmail,
    EmailTooLong,
}

impl ParseError {
    pub open spec fn text(self) -> Seq<char> {
        match self {
            ParseError::MissingId => "No id provided"@,
            ParseError::InvalidId => "Id should be a number"@,
            ParseError::MissingUsername => "Username not provided"@,
            ParseError::UsernameTooLong =>
                "Input provided for field(Username) length exceeds the configured length: 32"@,
            ParseError::MissingEmail => "Email not provided"@,
            ParseError::EmailTooLong =>
                "Input provided for field(Email) length exceeds the configured length: 256"@,
        }
    }

    /// The message shown for this error.
    pub fn to_string(&self) -> (r: String)
        ensures
            r@ == self.text(),
    {
        match self {
            ParseError::MissingId => String::from_str("No id provided"),
            ParseError::InvalidId => String::from_str("Id should be a number"),
            ParseError::MissingUsername => String::from_str("Username not provided"),
            ParseError::UsernameTooLong => String::from_str(
                "Input provided for field(Username) length exceeds the configured length: 32",
            ),
            ParseError::MissingEmail => String::from_str("Email not provided"),
            ParseError::EmailTooLong => String::from_str(
                "Input provided for field(Email) length exceeds the configured length: 256",
            ),
        }
    }
}

/// The record an insert line `s` describes: after the keyword come the id,
/// the username and the email, as whitespace-separated tokens; anything
/// after them is ignored. The first problem found, in that order, is the
/// error.
pub open spec fn insert_fields(s: Seq<char>) -> Result<RowView, ParseError> {
    if !has_token(s, 1) {
        Err(ParseError::MissingId)
    } else if i32_value(token(s, 1)) is None {
        Err(ParseError::InvalidId)
    } else if !has_token(s, 2) {
        Err(ParseError::MissingUsername)
    } else if encode_utf8(token(s, 2)).len() > USERNAME_MAX {
        Err(ParseError::UsernameTooLong)
    } else if !has_token(s, 3) {
        Err(ParseError::MissingEmail)
    } else if encode_utf8(token(s, 3)).len() > EMAIL_MAX {
        Err(ParseError::EmailTooLong)
    } else {
        Ok(RowView { id: i32_value(token(s, 1))->Some_0, username: token(s, 2), email: token(s, 3) })
    }
}

/// A row read from an insert line and then inserted into a table that
/// takes one more row: the insert succeeds, returns that row, and a select
/// afterwards returns it as the last row.
pub proof fn lemma_parsed_insert_is_stored(
    line: Seq<char>,
    row: Row,
    t: Table,
    r: Result<ExecuteResult, ExecuteError>,
    after: Table,
)
    requires
        insert_fields(line) == Ok::<RowView, ParseError>(row@),
        t.wf(),
        accepts(t@.len(), t.per(), t.max_pages as nat),
        t.insert_outcome(row, r, after),
    ensures
        r matches Ok(ExecuteResult::Success(rows)) && views_of(rows@) == seq![row@],
        after@.len() == t@.len() + 1,
        after@.last() == row@,
        after@.contains(row@),
{
    assert(after@[after@.len() - 1] == row@);
}

/// Whether `s` begins with `p`.
pub open spec fn begins_with(s: Seq<char>, p: Seq<char>) -> bool {
    p.len() <= s.len() && s.take(p.len() as int) == p
}

/// `r` is an insert statement carrying a row that holds `v`.
pub open spec fn inserts(r: PrepareResult, v: RowView) -> bool {
    match r {
        PrepareResult::Success(st) => st.statement_type == StatementType::Insert && match st.row_to_insert {
            Some(row) => row@ == v,
            None => false,
        },
        _ => false,
    }
}

/// `r` is a select statement.
pub open spec fn selects(r: PrepareResult) -> bool {
    match r {
        PrepareResult::Success(st) => st.statement_type == StatementType::Select && st.row_to_insert is None,
        _ => false,
    }
}

impl Statement {
    /// Reads one input line: `insert ...` gives an insert statement or a
    /// syntax error, `select ...` a select statement, anything else is
    /// unrecognized.
    pub fn prepare(input: &str) -> (r: PrepareResult)
        ensures
            begins_with(input@, "insert"@) ==> match insert_fields(input@) {
                Ok(v) => inserts(r, v),
                Err(e) => (r matches PrepareResult::SyntaxError(m) && m@ == e.text()),
            },
            !begins_with(input@, "insert"@) && begins_with(input@, "select"@) ==> selects(r),
            !begins_with(input@, "insert"@) && !begins_with(input@, "select"@) ==> r is UnrecognizedStatement,
    {
        if starts_with(input, "insert") {
            match Statement::parse_insert_input(input) {
                Ok(row) => PrepareResult::Success(
                    Statement { statement_type: StatementType::Insert, row_to_insert: Some(row) },
                ),
                Err(err) => PrepareResult::SyntaxError(err.to_string()),
            }
        } else if starts_with(input, "select") {
            PrepareResult::Success(Statement { statement_type: StatementType::Select, row_to_insert: None })
        } else {
            PrepareResult::UnrecognizedStatement
        }
    }

    /// Reads the record of an insert line; the first token, the keyword,
    /// is skipped.
    pub fn parse_insert_input(input: &str) -> (r: Result<Row, ParseError>)
        ensures
            match r {
                Ok(row) => insert_fields(input@) == Ok::<RowView, ParseError>(row@),
                Err(e) => insert_fields(input@) == Err::<RowView, ParseError>(e),
            },
    {
        let s = chars_of(input);
        let ghost t = input@;
        proof {
            lemma_space_end_bounds(t, 0);
        }
        let start0 = skip_spaces(&s, 0);
        assert(start0 == token_start(t, 0));
        proof {
            lemma_word_end_bounds(t, start0 as nat);
        }
        let end0 = skip_word(&s, start0);
        proof {
            lemma_space_end_bounds(t, end0 as nat);
        }
        let start1 = skip_spaces(&s, end0);
        assert(start1 == token_start(t, 1));
        if start1 >= s.len() {
            return Err(ParseError::MissingId);
        }
        proof {
            lemma_word_end_bounds(t, start1 as nat);
        }
        let end1 = skip_word(&s, start1);
        let id = match parse_i32(input.substring_char(start1, end1)) {
            Some(id) => id,
            None => return Err(ParseError::InvalidId),
        };
        proof {
            lemma_space_end_bounds(t, end1 as nat);
        }
        let start2 = skip_spaces(&s, end1);
        assert(start2 == token_start(t, 2));
        if start2 >= s.len() {
            return Err(ParseError::MissingUsername);
        }
        proof {
            lemma_word_end_bounds(t, start2 as nat);
        }
        let end2 = skip_word(&s, start2);
        let username = match username_from(input.substring_char(start2, end2)) {
            Some(u) => u,
            None => return Err(ParseError::UsernameTooLong),
        };
        proof {
            lemma_space_end_bounds(t, end2 as nat);
        }
        let start3 = skip_spaces(&s, end2);
        assert(start3 == token_start(t, 3));
        if start3 >= s.len() {
            return Err(ParseError::MissingEmail);
        }
        proof {
            lemma_word_end_bounds(t, start3 as nat);
        }
        let end3 = skip_word(&s, start3);
        let email = match email_from(input.substring_char(start3, end3)) {
            Some(e) => e,
            None => return Err(ParseError::EmailTooLong),
        };
        Ok(Row { id, username, email })
    }
}

} // verus!
