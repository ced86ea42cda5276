//! The command processor: one line of input is classified as a
//! meta-command or parsed into a statement, with nothing executed yet.

use crate::row::{valid_row, Row, RowView, EMAIL_SIZE, USERNAME_SIZE};
use crate::text::{dec_value, is_dec_digits, lemma_dec_value_nonneg, lemma_split_spaces_len,
    lower_char, lower_chars, parse_u32, split_line, split_spaces};
use vstd::prelude::*;
use vstd::string::StrSliceExecFns;

verus! {

/// A parsed data statement, ready for the executor: an insert carries the
/// row to write, a select carries nothing.
pub enum Statement {
    Insert(Row),
    Select,
}

/// Why a line could not be prepared as a statement.
#[derive(PartialEq, Eq, Structural, Clone, Copy, Debug)]
pub enum PrepareError {
    /// A recognized keyword with malformed arguments.
    SyntaxError,
    /// A leading keyword that names no statement.
    UnrecognizedStatement,
}

/// A recognized meta-command.
#[derive(PartialEq, Eq, Structural, Clone, Copy, Debug)]
pub enum MetaCommand {
    /// Leave the shell loop with success.
    Exit,
}

/// Why a meta-command line was turned away.
#[derive(PartialEq, Eq, Structural, Clone, Copy, Debug)]
pub enum MetaCommandError {
    UnrecognizedCommand,
}

/// Whether the line's first token is the given keyword, compared without
/// regard to ASCII case.
pub open spec fn has_keyword(s: Seq<char>, kw: Seq<char>) -> bool {
    lower_chars(split_spaces(s)[0]) == kw
}

/// Whether the line is led by the insert keyword.
pub open spec fn is_insert_line(s: Seq<char>) -> bool {
    has_keyword(s, "insert"@)
}

/// Whether the line is led by the select keyword.
pub open spec fn is_select_line(s: Seq<char>) -> bool {
    has_keyword(s, "select"@)
}

/// Whether an insert line is fully well-formed: exactly three arguments
/// after the keyword, the id a decimal number that fits 32 bits, and the
/// two strings inside their byte bounds.
pub open spec fn insert_form_ok(s: Seq<char>) -> bool {
    let toks = split_spaces(s);
    &&& toks.len() == 4
    &&& is_dec_digits(toks[1])
    &&& dec_value(toks[1]) <= u32::MAX
    &&& vstd::utf8::encode_utf8(toks[2]).len() <= USERNAME_SIZE
    &&& vstd::utf8::encode_utf8(toks[3]).len() <= EMAIL_SIZE
}

/// The row a well-formed insert line asks to write.
pub open spec fn insert_row_of(s: Seq<char>) -> RowView {
    let toks = split_spaces(s);
    RowView { id: dec_value(toks[1]) as u32, username: toks[2], email: toks[3] }
}

/// Whether a select line is fully well-formed: the keyword alone.
pub open spec fn select_form_ok(s: Seq<char>) -> bool {
    split_spaces(s).len() == 1
}

/// Compares a token to a lowercase keyword, folding the token to ASCII
/// lowercase first.
fn matches_keyword(tok: &str, kw: &str) -> (r: bool)
    ensures
        r == (lower_chars(tok@) == kw@),
{
    let tn = tok.unicode_len();
    let kn = kw.unicode_len();
    if tn != kn {
        return false;
    }
    let mut j: usize = 0;
    while j < tn
        invariant
            0 <= j <= tn,
            tn == tok@.len(),
            tn == kw@.len(),
            forall|q: int| 0 <= q < j ==> lower_char(tok@[q]) == kw@[q],
        decreases tn - j,
    {
        let c = crate::text::to_lower(tok.get_char(j));
        let k = kw.get_char(j);
        if c != k {
            proof {
                assert(lower_chars(tok@)[j as int] != kw@[j as int]);
            }
            return false;
        }
        j = j + 1;
    }
    proof {
        assert(lower_chars(tok@) =~= kw@);
    }
    true
}

/// Classifies a meta-command line: only `.exit` is recognized.
pub fn do_meta_command(input_buffer: &String) -> (r: Result<MetaCommand, MetaCommandError>)
    ensures
        r == if input_buffer@ == ".exit"@ {
            Ok::<MetaCommand, MetaCommandError>(MetaCommand::Exit)
        } else {
            Err::<MetaCommand, MetaCommandError>(MetaCommandError::UnrecognizedCommand)
        },
{
    let exit_word: String = ".exit".to_owned();
    if input_buffer.eq(&exit_word) {
        Ok(MetaCommand::Exit)
    } else {
        Err(MetaCommandError::UnrecognizedCommand)
    }
}

/// Parses one trimmed line into a statement.  The leading keyword is
/// matched without regard to ASCII case; an insert takes exactly three
/// space-separated arguments (id, username, email) and a select takes
/// none; a malformed numeric id or an over-long string field is turned
/// away as a syntax error rather than accepted.
pub fn prepare_statement(input_buffer: &String) -> (r: Result<Statement, PrepareError>)
    ensures
        is_insert_line(input_buffer@) ==> match r {
            Ok(st) => insert_form_ok(input_buffer@) && (st matches Statement::Insert(row)
                && row@ == insert_row_of(input_buffer@) && valid_row(row@)),
            Err(e) => e == PrepareError::SyntaxError && !insert_form_ok(input_buffer@),
        },
        is_select_line(input_buffer@) ==> match r {
            Ok(st) => select_form_ok(input_buffer@) && (st matches Statement::Select),
            Err(e) => e == PrepareError::SyntaxError && !select_form_ok(input_buffer@),
        },
        !is_insert_line(input_buffer@) && !is_select_line(input_buffer@) ==> r == Err::<
            Statement,
            PrepareError,
        >(PrepareError::UnrecognizedStatement),
{
    proof {
        lemma_split_spaces_len(input_buffer@);
        reveal_strlit("insert");
        reveal_strlit("select");
    }
    let tokens = split_line(input_buffer.as_str());
    let ghost toks = split_spaces(input_buffer@);
    proof {
        assert(tokens@[0]@ == toks[0]);
        assert(lower_chars(toks[0]) == "insert"@ && lower_chars(toks[0]) == "select"@
            ==> "insert"@ == "select"@);
        assert("insert"@ != "select"@) by {
            assert("insert"@[0] != "select"@[0]);
        }
    }
    if matches_keyword(tokens[0].as_str(), "insert") {
        if tokens.len() != 4 {
            return Err(PrepareError::SyntaxError);
        }
        proof {
            assert(tokens@[1]@ == toks[1]);
            assert(tokens@[2]@ == toks[2]);
            assert(tokens@[3]@ == toks[3]);
        }
        let id = match parse_u32(tokens[1].as_str()) {
            Some(v) => v,
            None => {
                return Err(PrepareError::SyntaxError);
            },
        };
        if tokens[2].as_str().as_bytes().len() > USERNAME_SIZE {
            return Err(PrepareError::SyntaxError);
        }
        if tokens[3].as_str().as_bytes().len() > EMAIL_SIZE {
            return Err(PrepareError::SyntaxError);
        }
        let row = Row { id, username: tokens[2].clone(), email: tokens[3].clone() };
        proof {
            lemma_dec_value_nonneg(toks[1]);
        }
        Ok(Statement::Insert(row))
    } else if matches_keyword(tokens[0].as_str(), "select") {
        if tokens.len() != 1 {
            return Err(PrepareError::SyntaxError);
        }
        Ok(Statement::Select)
    } else {
        Err(PrepareError::UnrecognizedStatement)
    }
}

} // verus!
