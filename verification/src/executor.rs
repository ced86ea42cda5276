//! The executor: applies a prepared statement to a table.  An insert
//! appends the carried row at the next free slot or reports the table
//! full; a select renders every stored row, in insertion order, as one
//! output line each.

use crate::command::Statement;
use crate::row::{zero_row_view, Row, RowView, TABLE_MAX_ROWS};
use crate::table::{row_at, row_slot, Table};
use crate::text::{dec_numeral, u32_to_decimal};
use vstd::prelude::*;
use vstd::string::StringExecFns;

verus! {

/// Why executing a statement failed.
#[derive(PartialEq, Eq, Structural, Clone, Copy, Debug)]
pub enum ExecuteError {
    /// An insert found the table already holding its maximum of rows.
    TableFull,
}

/// The printed form of one stored row: id, username and email, separated
/// by single spaces.
pub open spec fn row_line(r: RowView) -> Seq<char> {
    dec_numeral(r.id as nat) + seq![' '] + r.username + seq![' '] + r.email
}

/// The lines a select of the whole table prints, in insertion order.
pub open spec fn select_lines(rows: Seq<RowView>) -> Seq<Seq<char>> {
    rows.map_values(|r: RowView| row_line(r))
}

/// Prints one row as its select output line.
pub fn render_row(row: &Row) -> (line: String)
    ensures
        line@ == row_line(row@),
{
    let mut line = u32_to_decimal(row.id);
    line.append(" ");
    line.append(row.username.as_str());
    line.append(" ");
    line.append(row.email.as_str());
    proof {
        reveal_strlit(" ");
        assert(" "@ =~= seq![' ']);
        assert(line@ =~= row_line(row@));
    }
    line
}

/// Writes the statement's row into the slot at the current row count and
/// then counts it, unless the table is already full, in which case
/// nothing changes.
pub fn execute_insert(statement: &Statement, table: &mut Table) -> (res: Result<
    (),
    ExecuteError,
>)
    requires
        old(table).well_formed(),
        statement matches Statement::Insert(_),
    ensures
        final(table).well_formed(),
        res is Ok <==> old(table).num_rows < TABLE_MAX_ROWS,
        res is Err ==> res == Err::<(), ExecuteError>(ExecuteError::TableFull) && *final(table)
            == *old(table),
        statement matches Statement::Insert(row) ==> (res is Ok ==> final(table)@ == old(
            table,
        )@.push(row@) && final(table).num_rows == old(table).num_rows + 1),
{
    if table.num_rows >= TABLE_MAX_ROWS {
        return Err(ExecuteError::TableFull);
    }
    let n = table.num_rows;
    let slot = row_slot(table, n);
    match statement {
        Statement::Insert(row_to_insert) => {
            slot.id = row_to_insert.id;
            slot.username = row_to_insert.username.clone();
            slot.email = row_to_insert.email.clone();
        },
        Statement::Select => {
            proof {
                assert(false);
            }
        },
    }
    let ghost before = table.slots(n as int + 1);
    proof {
        let written = old(table)@.push(zero_row_view()).update(n as int, before[n as int]);
        assert forall|k: int| 0 <= k < n implies before[k] == old(table)@[k] by {
            assert(written[k] == old(table)@[k]);
        }
        assert(before[n as int] == statement->Insert_0@);
        assert(before =~= old(table)@.push(statement->Insert_0@));
    }
    table.num_rows = n + 1;
    proof {
        assert(table@ =~= before);
    }
    Ok(())
}

/// Renders every stored row, in insertion order.
pub fn execute_select(table: &Table) -> (lines: Vec<String>)
    requires
        table.well_formed(),
    ensures
        lines.deep_view() == select_lines(table@),
{
    let mut lines: Vec<String> = Vec::new();
    let mut i: usize = 0;
    proof {
        assert(lines.deep_view() =~= select_lines(table@).take(0));
    }
    while i < table.num_rows
        invariant
            table.well_formed(),
            0 <= i <= table.num_rows,
            lines.deep_view() == select_lines(table@).take(i as int),
        decreases table.num_rows - i,
    {
        let ghost l0 = lines.deep_view();
        let row = row_at(table, i);
        let line = render_row(row);
        lines.push(line);
        proof {
            assert(lines.deep_view() =~= l0.push(line@));
            assert(lines.deep_view() =~= select_lines(table@).take(i + 1));
        }
        i = i + 1;
    }
    proof {
        assert(select_lines(table@).take(table.num_rows as int) =~= select_lines(table@));
    }
    lines
}

/// Routes a statement to its executor.  An insert answers with no output
/// lines; a select answers with one line per stored row and leaves the
/// table as it was.
pub fn execute_statement(statement: &Statement, table: &mut Table) -> (res: Result<
    Vec<String>,
    ExecuteError,
>)
    requires
        old(table).well_formed(),
    ensures
        final(table).well_formed(),
        statement matches Statement::Insert(row) ==> {
            &&& old(table).num_rows < TABLE_MAX_ROWS ==> (res matches Ok(lines)
                && lines.deep_view() == Seq::<Seq<char>>::empty()) && final(table)@ == old(
                table,
            )@.push(row@) && final(table).num_rows == old(table).num_rows + 1
            &&& old(table).num_rows >= TABLE_MAX_ROWS ==> res == Err::<Vec<String>, ExecuteError>(
                ExecuteError::TableFull,
            ) && *final(table) == *old(table)
        },
        statement matches Statement::Select ==> *final(table) == *old(table) && (res matches Ok(
            lines,
        ) && lines.deep_view() == select_lines(old(table)@)),
{
    match statement {
        Statement::Insert(_) => {
            match execute_insert(statement, table) {
                Ok(_) => {
                    let lines: Vec<String> = Vec::new();
                    proof {
                        assert(lines.deep_view() =~= Seq::<Seq<char>>::empty());
                    }
                    Ok(lines)
                },
                Err(e) => Err(e),
            }
        },
        Statement::Select => {
            let lines = execute_select(table);
            Ok(lines)
        },
    }
}

/// The table contents after a run of inserts that all succeed: each row
/// appended in turn at the end.
pub open spec fn after_inserts(rows: Seq<RowView>) -> Seq<RowView>
    decreases rows.len(),
{
    if rows.len() == 0 {
        Seq::<RowView>::empty()
    } else {
        after_inserts(rows.drop_last()).push(rows.last())
    }
}

/// Round trip: a run of inserts that stays within the table's capacity
/// stores exactly the inserted rows, in insertion order and with their
/// field values unchanged, and a select then prints exactly one line per
/// inserted row, in that same order.
pub proof fn lemma_insert_select_round_trip(rows: Seq<RowView>)
    requires
        rows.len() <= TABLE_MAX_ROWS,
    ensures
        after_inserts(rows) == rows,
        after_inserts(rows).len() == rows.len(),
        select_lines(after_inserts(rows)) == rows.map_values(|r: RowView| row_line(r)),
    decreases rows.len(),
{
    if rows.len() > 0 {
        lemma_insert_select_round_trip(rows.drop_last());
        assert(after_inserts(rows) =~= rows);
    } else {
        assert(after_inserts(rows) =~= rows);
    }
}

} // verus!
