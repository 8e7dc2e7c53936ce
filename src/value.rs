//! Typed column values and the literal syntax they take in an insert
//! statement.

use vstd::prelude::*;
use crate::number::{Decimal, DecimalView, decimal_text, int_text, push_int};
use crate::text::{push_str, utf8};

verus! {

/// The byte of `"`.
pub const QUOTE: u8 = 34;
/// The byte of `\`.
pub const BACKSLASH: u8 = 92;
/// The byte of `,`.
pub const COMMA: u8 = 44;
/// The byte of `(`.
pub const OPEN: u8 = 40;
/// The byte of `)`.
pub const CLOSE: u8 = 41;

/// A value of one column of one row.
#[derive(Debug)]
pub enum SqlType {
    BigInt(i64),
    Int(i32),
    Decimal(Decimal),
    Varchar(String),
    Bool(bool),
    Null,
}

/// What a column value stands for.
pub enum SqlCell {
    BigInt(i64),
    Int(i32),
    Decimal(DecimalView),
    Text(Seq<char>),
    Bool(bool),
    Null,
}

impl View for SqlType {
    type V = SqlCell;

    open spec fn view(&self) -> SqlCell {
        match self {
            SqlType::BigInt(n) => SqlCell::BigInt(*n),
            SqlType::Int(n) => SqlCell::Int(*n),
            SqlType::Decimal(d) => SqlCell::Decimal(d@),
            SqlType::Varchar(s) => SqlCell::Text(s@),
            SqlType::Bool(b) => SqlCell::Bool(*b),
            SqlType::Null => SqlCell::Null,
        }
    }
}

/// The values of a row of column values.
pub open spec fn cells(row: Seq<SqlType>) -> Seq<SqlCell> {
    row.map_values(|v: SqlType| v@)
}

/// One byte of text inside a quoted literal: a quote or a backslash gets a
/// backslash before it.
pub open spec fn escape_byte(b: u8) -> Seq<u8> {
    if b == QUOTE || b == BACKSLASH {
        seq![BACKSLASH, b]
    } else {
        seq![b]
    }
}

/// Text as it stands between the quotes of a literal.
pub open spec fn escape(s: Seq<u8>) -> Seq<u8>
    decreases s.len(),
{
    if s.len() == 0 {
        Seq::empty()
    } else {
        escape(s.drop_last()) + escape_byte(s.last())
    }
}

/// The literal that stands for `v` in an insert statement.
pub open spec fn value_text(v: SqlCell) -> Seq<u8> {
    match v {
        SqlCell::BigInt(n) => int_text(n as int),
        SqlCell::Int(n) => int_text(n as int),
        SqlCell::Decimal(d) => decimal_text(d),
        SqlCell::Text(s) => seq![QUOTE] + escape(utf8(s)) + seq![QUOTE],
        SqlCell::Bool(b) => if b { utf8("1"@) } else { utf8("0"@) },
        SqlCell::Null => utf8("NULL"@),
    }
}

/// The literals of `row`, separated by commas.
pub open spec fn values_text(row: Seq<SqlCell>) -> Seq<u8>
    decreases row.len(),
{
    if row.len() == 0 {
        Seq::empty()
    } else if row.len() == 1 {
        value_text(row[0])
    } else {
        values_text(row.drop_last()) + seq![COMMA] + value_text(row.last())
    }
}

/// One value tuple: the row's literals in parentheses.
pub open spec fn tuple_text(row: Seq<SqlCell>) -> Seq<u8> {
    seq![OPEN] + values_text(row) + seq![CLOSE]
}

/// Appends `s` as it stands between the quotes of a literal.
pub fn push_escaped(out: &mut Vec<u8>, s: &[u8])
    ensures
        final(out)@ == old(out)@ + escape(s@),
{
    let mut i: usize = 0;
    while i < s.len()
        invariant
            i <= s@.len(),
            out@ == old(out)@ + escape(s@.take(i as int)),
        decreases s@.len() - i,
    {
        let b = s[i];
        if b == QUOTE || b == BACKSLASH {
            out.push(BACKSLASH);
        }
        out.push(b);
        assert(s@.take(i + 1).drop_last() =~= s@.take(i as int));
        i = i + 1;
        assert(out@ =~= old(out)@ + escape(s@.take(i as int)));
    }
    assert(s@.take(i as int) =~= s@);
}

impl SqlType {
    /// Appends the literal of this value.
    pub fn push_text(&self, out: &mut Vec<u8>)
        ensures
            final(out)@ == old(out)@ + value_text(self@),
    {
        match self {
            SqlType::BigInt(n) => push_int(out, *n),
            SqlType::Int(n) => push_int(out, *n as i64),
            SqlType::Decimal(d) => d.push_text(out),
            SqlType::Varchar(s) => {
                out.push(QUOTE);
                push_escaped(out, s.as_str().as_bytes());
                out.push(QUOTE);
                assert(out@ =~= old(out)@ + value_text(self@));
            },
            SqlType::Bool(b) => {
                if *b {
                    push_str(out, "1");
                } else {
                    push_str(out, "0");
                }
            },
            SqlType::Null => push_str(out, "NULL"),
        }
    }
}

/// Appends the value tuple of `row`.
pub fn push_tuple(out: &mut Vec<u8>, row: &Vec<SqlType>)
    ensures
        final(out)@ == old(out)@ + tuple_text(cells(row@)),
{
    out.push(OPEN);
    let ghost start = out@;
    let mut i: usize = 0;
    while i < row.len()
        invariant
            i <= row@.len(),
            out@ == start + values_text(cells(row@).take(i as int)),
        decreases row@.len() - i,
    {
        let ghost before = out@;
        if i > 0 {
            out.push(COMMA);
        }
        row[i].push_text(out);
        proof {
            let t = cells(row@).take(i + 1);
            assert(t.drop_last() =~= cells(row@).take(i as int));
            assert(t.last() == row@[i as int]@);
            if i == 0 {
                assert(t.len() == 1);
                assert(t[0] == row@[0]@);
            }
        }
        i = i + 1;
        assert(out@ =~= start + values_text(cells(row@).take(i as int)));
    }
    assert(cells(row@).take(i as int) =~= cells(row@));
    out.push(CLOSE);
    assert(out@ =~= old(out)@ + tuple_text(cells(row@)));
}

} // verus!
