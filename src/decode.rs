//! Typed decoding of rows that the store hands back.
//!
//! A row is a list of columns, each null or a value of one of the column
//! types this schema uses. Decoding checks each column's type against the
//! schema and names the first column that does not match.

use crate::models::Tweet;
use crate::time::{stored_time, time_read_back};
use vstd::prelude::*;

verus! {

/// The value of one column of a row.
#[derive(Debug, Clone, PartialEq, Eq)]
pub enum Cell {
    Uuid(u128),
    Text(String),
    /// Milliseconds since the Unix epoch.
    Timestamp(i64),
    /// A value of a type that this schema does not use.
    Other,
}

/// A row as the store returns it; `None` is a null column.
#[derive(Debug, Clone, PartialEq, Eq)]
pub struct Row {
    pub columns: Vec<Option<Cell>>,
}

/// Decoding stopped at `column`, which is missing, null or of another type.
#[derive(Debug, Clone, Copy, PartialEq, Eq, Structural)]
pub struct DecodeError {
    pub column: usize,
}

pub open spec fn uuid_at(row: Row, i: int) -> Option<u128> {
    if 0 <= i < row.columns@.len() {
        match row.columns@[i] {
            Option::Some(Cell::Uuid(u)) => Option::Some(u),
            _ => Option::None,
        }
    } else {
        Option::None
    }
}

pub open spec fn text_at(row: Row, i: int) -> Option<Seq<char>> {
    if 0 <= i < row.columns@.len() {
        match row.columns@[i] {
            Option::Some(Cell::Text(s)) => Option::Some(s@),
            _ => Option::None,
        }
    } else {
        Option::None
    }
}

pub open spec fn timestamp_at(row: Row, i: int) -> Option<i64> {
    if 0 <= i < row.columns@.len() {
        match row.columns@[i] {
            Option::Some(Cell::Timestamp(t)) => Option::Some(t),
            _ => Option::None,
        }
    } else {
        Option::None
    }
}

/// Column `i` of a `tweets` row (`tweet_id, user_id, content, created_at`)
/// has the schema's type.
pub open spec fn tweet_column_ok(row: Row, i: int) -> bool {
    if i == 0 || i == 1 {
        uuid_at(row, i) is Some
    } else if i == 2 {
        text_at(row, i) is Some
    } else {
        timestamp_at(row, i) is Some
    }
}

pub open spec fn tweet_row_ok(row: Row) -> bool {
    forall|i: int| 0 <= i < 4 ==> tweet_column_ok(row, i)
}

/// `t` is what a well-typed `tweets` row decodes to.
pub open spec fn tweet_of_row(t: Tweet, row: Row) -> bool {
    &&& uuid_at(row, 0) == Option::Some(t.tweet_id)
    &&& uuid_at(row, 1) == Option::Some(t.user_id)
    &&& text_at(row, 2) == Option::Some(t.content@)
    &&& timestamp_at(row, 3) is Some
    &&& time_read_back(timestamp_at(row, 3)->0 as int, t.created_at as int)
}

/// Decoding `row` stops at column `c`: the first whose type does not match.
pub open spec fn first_bad_column(row: Row, c: int) -> bool {
    &&& 0 <= c < 4
    &&& !tweet_column_ok(row, c)
    &&& forall|i: int| 0 <= i < c ==> tweet_column_ok(row, i)
}

fn uuid_column(row: &Row, i: usize) -> (r: Option<u128>)
    ensures
        r == uuid_at(*row, i as int),
{
    if i < row.columns.len() {
        match &row.columns[i] {
            Some(Cell::Uuid(u)) => Some(*u),
            _ => None,
        }
    } else {
        None
    }
}

fn text_column(row: &Row, i: usize) -> (r: Option<String>)
    ensures
        r is Some == text_at(*row, i as int) is Some,
        r is Some ==> r->0@ == text_at(*row, i as int)->0,
{
    if i < row.columns.len() {
        match &row.columns[i] {
            Some(Cell::Text(s)) => Some(s.clone()),
            _ => None,
        }
    } else {
        None
    }
}

fn timestamp_column(row: &Row, i: usize) -> (r: Option<i64>)
    ensures
        r == timestamp_at(*row, i as int),
{
    if i < row.columns.len() {
        match &row.columns[i] {
            Some(Cell::Timestamp(t)) => Some(*t),
            _ => None,
        }
    } else {
        None
    }
}

/// Decodes a `tweets` row, or names the first column whose type does not
/// match the schema.
pub fn decode_tweet_row(row: &Row) -> (r: Result<Tweet, DecodeError>)
    ensures
        r is Ok <==> tweet_row_ok(*row),
        r is Ok ==> tweet_of_row(r->Ok_0, *row),
        r is Err ==> first_bad_column(*row, r->Err_0.column as int),
{
    let tweet_id = match uuid_column(row, 0) {
        Some(v) => v,
        None => {
            assert(!tweet_column_ok(*row, 0));
            return Err(DecodeError { column: 0 });
        },
    };
    let user_id = match uuid_column(row, 1) {
        Some(v) => v,
        None => {
            assert(!tweet_column_ok(*row, 1));
            return Err(DecodeError { column: 1 });
        },
    };
    let content = match text_column(row, 2) {
        Some(v) => v,
        None => {
            assert(!tweet_column_ok(*row, 2));
            return Err(DecodeError { column: 2 });
        },
    };
    let ts = match timestamp_column(row, 3) {
        Some(v) => v,
        None => {
            assert(!tweet_column_ok(*row, 3));
            return Err(DecodeError { column: 3 });
        },
    };
    assert forall|i: int| 0 <= i < 4 implies tweet_column_ok(*row, i) by {
        assert(i == 0 || i == 1 || i == 2 || i == 3);
    }
    Ok(Tweet { tweet_id, user_id, content, created_at: stored_time(ts) })
}

/// Decodes every row of a result set, in order, failing on the first row
/// that does not decode.
pub fn decode_tweet_rows(rows: &Vec<Row>) -> (r: Result<Vec<Tweet>, DecodeError>)
    ensures
        r is Ok <==> forall|k: int| 0 <= k < rows@.len() ==> tweet_row_ok(#[trigger] rows@[k]),
        r is Ok ==> r->Ok_0@.len() == rows@.len() && forall|k: int|
            0 <= k < rows@.len() ==> tweet_of_row(#[trigger] r->Ok_0@[k], rows@[k]),
        r is Err ==> exists|k: int|
            0 <= k < rows@.len() && first_bad_column(#[trigger] rows@[k], r->Err_0.column as int)
                && forall|j: int| 0 <= j < k ==> tweet_row_ok(#[trigger] rows@[j]),
{
    let mut out: Vec<Tweet> = Vec::new();
    let mut i: usize = 0;
    while i < rows.len()
        invariant
            i <= rows@.len(),
            out@.len() == i,
            forall|k: int| 0 <= k < i ==> tweet_row_ok(#[trigger] rows@[k]),
            forall|k: int| 0 <= k < i ==> tweet_of_row(#[trigger] out@[k], rows@[k]),
        decreases rows@.len() - i,
    {
        match decode_tweet_row(&rows[i]) {
            Ok(t) => out.push(t),
            Err(e) => {
                assert(first_bad_column(rows@[i as int], e.column as int));
                return Err(e);
            },
        }
        i += 1;
    }
    Ok(out)
}

} // verus!
