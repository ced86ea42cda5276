//! The fixed-schema record stored by the table: an id, a username and an
//! email, with the byte budget of each field fixed up front.

use vstd::prelude::*;
use vstd::utf8::encode_utf8;

verus! {

/// Bytes a serialized id would occupy.
pub const ID_SIZE: usize = 4;

/// Byte bound on a username.
pub const USERNAME_SIZE: usize = 32;

/// Byte bound on an email.
pub const EMAIL_SIZE: usize = 255;

/// Bytes one serialized row would occupy.
pub const ROW_SIZE: usize = ID_SIZE + USERNAME_SIZE + EMAIL_SIZE;

/// Byte budget of one page.
pub const PAGE_SIZE: usize = 4096;

/// Hard ceiling on the number of pages of a table.
pub const TABLE_MAX_PAGES: usize = 100;

/// How many fixed-size rows fit in one page.
pub const ROWS_PER_PAGE: usize = PAGE_SIZE / ROW_SIZE;

/// How many rows a table can hold in all.
pub const TABLE_MAX_ROWS: usize = TABLE_MAX_PAGES * ROWS_PER_PAGE;

/// The sizing exercise worked out: fourteen 291-byte rows fit in a
/// 4096-byte page, and one hundred pages bound the table at 1400 rows.
pub proof fn lemma_capacity_constants()
    ensures
        ROW_SIZE == 291,
        ROWS_PER_PAGE == 14,
        TABLE_MAX_ROWS == 1400,
{
}

/// One record of the table.
pub struct Row {
    pub id: u32,
    pub username: String,
    pub email: String,
}

/// The mathematical value of a [`Row`]: the id together with the two
/// strings as sequences of characters.
pub struct RowView {
    pub id: u32,
    pub username: Seq<char>,
    pub email: Seq<char>,
}

impl View for Row {
    type V = RowView;

    open spec fn view(&self) -> RowView {
        RowView { id: self.id, username: self.username@, email: self.email@ }
    }
}

/// A row respects the byte bounds of its string fields.
pub open spec fn valid_row(r: RowView) -> bool {
    &&& encode_utf8(r.username).len() <= USERNAME_SIZE
    &&& encode_utf8(r.email).len() <= EMAIL_SIZE
}

/// The all-zero row that fills a slot which no insert has written yet.
pub open spec fn zero_row_view() -> RowView {
    RowView { id: 0, username: Seq::empty(), email: Seq::empty() }
}

/// Builds the row a slot starts out with: id zero and empty strings.
pub fn zero_row() -> (r: Row)
    ensures
        r@ == zero_row_view(),
{
    Row { id: 0, username: String::new(), email: String::new() }
}

} // verus!
