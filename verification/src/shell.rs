//! The per-line step of the read-eval-print loop: one input line goes in,
//! the table moves at most one insert forward, and the shell learns what
//! to print, or that the loop is over.  The surrounding program only
//! reads lines, prints what this step hands back, and stops when told.

use crate::command::{do_meta_command, insert_form_ok, insert_row_of, is_insert_line,
    is_select_line, prepare_statement, select_form_ok, MetaCommand, PrepareError, Statement};
use crate::executor::{execute_statement, select_lines, ExecuteError};
use crate::row::{RowView, TABLE_MAX_ROWS};
use crate::table::Table;
use vstd::prelude::*;
use vstd::string::StrSliceExecFns;

verus! {

/// What the shell should do after one line.
pub enum LineAction {
    /// Leave the loop with success.
    Exit,
    /// Print these lines, then prompt for the next line.
    Output(Vec<String>),
}

/// Whether the line is a meta-command line: it begins with a period.
pub open spec fn is_meta_line(s: Seq<char>) -> bool {
    s.len() > 0 && s[0] == '.'
}

/// The table contents after one line: only a well-formed insert on a
/// table short of its ceiling appends its row; every other line leaves
/// the table as it was.
pub open spec fn table_after_line(t: Seq<RowView>, s: Seq<char>) -> Seq<RowView> {
    if !is_meta_line(s) && is_insert_line(s) && insert_form_ok(s) && t.len() < TABLE_MAX_ROWS {
        t.push(insert_row_of(s))
    } else {
        t
    }
}

/// What one processed line answers: nothing at all for the exit
/// meta-command, otherwise the lines to print.
pub open spec fn reply_lines(t: Seq<RowView>, s: Seq<char>) -> Option<Seq<Seq<char>>> {
    if is_meta_line(s) {
        if s == ".exit"@ {
            None
        } else {
            Some(seq!["Unrecognized Command!"@])
        }
    } else if is_insert_line(s) {
        if !insert_form_ok(s) {
            Some(seq!["Syntax Error!"@])
        } else if t.len() >= TABLE_MAX_ROWS {
            Some(seq!["Error: Table full."@])
        } else {
            Some(seq!["Executed."@])
        }
    } else if is_select_line(s) {
        if !select_form_ok(s) {
            Some(seq!["Syntax Error!"@])
        } else {
            Some(select_lines(t))
        }
    } else {
        Some(seq!["Unrecognized Statement!"@])
    }
}

/// Select changes nothing and is idempotent: a select line leaves the
/// table as it was, so reading it twice in a row, with nothing in
/// between, answers exactly the same lines both times.
pub proof fn lemma_select_idempotent(t: Seq<RowView>, s: Seq<char>)
    requires
        is_select_line(s),
    ensures
        table_after_line(t, s) == t,
        reply_lines(table_after_line(t, s), s) == reply_lines(t, s),
{
    reveal_strlit("insert");
    reveal_strlit("select");
    if is_insert_line(s) {
        assert("insert"@[0] == "select"@[0]);
        assert(false);
    }
}

/// Capacity: once the table holds its full `rows_per_page` by
/// `max_pages` count of rows, any further insert line leaves the table
/// exactly as it was, and a well-formed one answers the table-full
/// error.
pub proof fn lemma_full_table_insert_changes_nothing(t: Seq<RowView>, s: Seq<char>)
    requires
        t.len() >= TABLE_MAX_ROWS,
        is_insert_line(s),
    ensures
        table_after_line(t, s) == t,
        !is_meta_line(s) && insert_form_ok(s) ==> reply_lines(t, s) == Some(
            seq!["Error: Table full."@],
        ),
{
}

/// Wraps one message as the whole reply.
fn one_line(msg: &str) -> (v: Vec<String>)
    ensures
        v.deep_view() == seq![msg@],
{
    let mut v: Vec<String> = Vec::new();
    v.push(msg.to_owned());
    proof {
        assert(v.deep_view() =~= seq![msg@]);
    }
    v
}

/// Runs one line of input against the table: a meta-command is handled
/// on the spot, anything else is prepared as a statement and executed,
/// and the answer says what to print, or that the loop is over.
pub fn process_line(table: &mut Table, line: &String) -> (action: LineAction)
    requires
        old(table).well_formed(),
    ensures
        final(table).well_formed(),
        final(table)@ == table_after_line(old(table)@, line@),
        match action {
            LineAction::Exit => reply_lines(old(table)@, line@) is None,
            LineAction::Output(lines) => reply_lines(old(table)@, line@) == Some(
                lines.deep_view(),
            ),
        },
{
    let s = line.as_str();
    if !s.is_empty() {
        let c = s.get_char(0);
        if c == '.' {
            match do_meta_command(line) {
                Ok(MetaCommand::Exit) => {
                    return LineAction::Exit;
                },
                Err(_) => {
                    return LineAction::Output(one_line("Unrecognized Command!"));
                },
            }
        }
    }
    match prepare_statement(line) {
        Ok(st) => {
            let is_insert = match &st {
                Statement::Insert(_) => true,
                Statement::Select => false,
            };
            match execute_statement(&st, table) {
                Ok(lines) => {
                    if is_insert {
                        LineAction::Output(one_line("Executed."))
                    } else {
                        LineAction::Output(lines)
                    }
                },
                Err(ExecuteError::TableFull) => {
                    LineAction::Output(one_line("Error: Table full."))
                },
            }
        },
        Err(PrepareError::SyntaxError) => LineAction::Output(one_line("Syntax Error!")),
        Err(PrepareError::UnrecognizedStatement) => LineAction::Output(
            one_line("Unrecognized Statement!"),
        ),
    }
}

} // verus!
