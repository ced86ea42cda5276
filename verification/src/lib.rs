//! An in-memory, page-shaped table for a small command-line database shell.
//!
//! The library holds the whole logic of the shell: the fixed-size
//! row/page/table memory model, the statement parser, the executor, and the
//! per-line dispatch of the read-eval-print loop.  Reading a line from
//! standard input and printing the answer are left to the surrounding
//! program; everything that decides or computes is here, with a contract.

pub mod command;
pub mod executor;
pub mod row;
pub mod shell;
pub mod table;
pub mod text;
