//! The layout of a result on the wire: the bytes of its rows as one block,
//! then the number of its columns and the columns one after the other.

use super::types::{decode_text, encode_text_into};
use super::wire::{
    be_u32, be_u64, block_body, block_size, bool_byte, encode_block, encode_text, get_block,
    get_bool, get_u32, get_u64, get_u8, has_block, invalid_tag, lemma_block_round_trip,
    lemma_text_round_trip, lemma_u32_round_trip, lemma_u64_round_trip, parse_bool, parse_text,
    put_block, put_bool, put_u32, put_u64, put_u8, u32_of_be, u64_of_be, Fault, Parsed,
};
use super::Error;
use crate::storage::data::ResultSet;
use crate::storage::types::{column_views, Column, ColumnView, SqlType};
use vstd::prelude::*;
use vstd::slice::slice_subrange;
use vstd::utf8::encode_utf8;

verus! {

/// A column type on the wire: the number of its variant in four bytes, then,
/// for a text, one byte with its length.
pub open spec fn encode_sql_type(t: SqlType) -> Seq<u8> {
    match t {
        SqlType::Int => be_u32(0),
        SqlType::Bool => be_u32(1),
        SqlType::Char(n) => be_u32(2).push(n),
    }
}

/// The column type that `s` starts with.
pub open spec fn parse_sql_type(s: Seq<u8>) -> Parsed<SqlType> {
    if s.len() < 4 {
        Parsed::Incomplete
    } else if u32_of_be(s) == 0 {
        Parsed::Value(SqlType::Int, 4)
    } else if u32_of_be(s) == 1 {
        Parsed::Value(SqlType::Bool, 4)
    } else if u32_of_be(s) == 2 {
        if s.len() >= 5 {
            Parsed::Value(SqlType::Char(s[4]), 5)
        } else {
            Parsed::Incomplete
        }
    } else {
        Parsed::Invalid
    }
}

/// A column on the wire: its name, its type, one byte each for the primary
/// key flag and the null flag, and its description.
#[verifier::opaque]
pub open spec fn encode_column(c: ColumnView) -> Seq<u8> {
    encode_text(c.name) + encode_sql_type(c.sql_type) + seq![
        bool_byte(c.is_primary_key),
        bool_byte(c.allow_null),
    ] + encode_text(c.description)
}

/// The column that `s` starts with.
#[verifier::opaque]
pub open spec fn parse_column(s: Seq<u8>) -> Parsed<ColumnView> {
    match parse_text(s) {
        Parsed::Value(name, a) => match parse_sql_type(s.skip(a)) {
            Parsed::Value(sql_type, n) => match parse_bool(s.skip(a + n)) {
                Parsed::Value(is_primary_key, _) => match parse_bool(s.skip(a + n + 1)) {
                    Parsed::Value(allow_null, _) => match parse_text(s.skip(a + n + 2)) {
                        Parsed::Value(description, d) => Parsed::Value(
                            ColumnView { name, sql_type, is_primary_key, allow_null, description },
                            a + n + 2 + d,
                        ),
                        other => other.failure(),
                    },
                    other => other.failure(),
                },
                other => other.failure(),
            },
            other => other.failure(),
        },
        other => other.failure(),
    }
}

/// Columns on the wire, one after the other.
pub open spec fn encode_columns(cols: Seq<ColumnView>) -> Seq<u8>
    decreases cols.len(),
{
    if cols.len() == 0 {
        Seq::empty()
    } else {
        encode_column(cols[0]) + encode_columns(cols.skip(1))
    }
}

/// The `n` columns that `s` starts with.
pub open spec fn parse_columns(s: Seq<u8>, n: nat) -> Parsed<Seq<ColumnView>>
    decreases n,
{
    if n == 0 {
        Parsed::Value(Seq::empty(), 0)
    } else {
        match parse_column(s) {
            Parsed::Value(c, k) => match parse_columns(s.skip(k), (n - 1) as nat) {
                Parsed::Value(cs, m) => Parsed::Value(seq![c] + cs, k + m),
                other => other.failure(),
            },
            other => other.failure(),
        }
    }
}

/// The mathematical value of a [`ResultSet`].
pub struct ResultSetView {
    pub data: Seq<u8>,
    pub columns: Seq<ColumnView>,
}

impl View for ResultSet {
    type V = ResultSetView;

    open spec fn view(&self) -> ResultSetView {
        ResultSetView { data: self.data@, columns: column_views(self.columns@) }
    }
}

impl ResultSetView {
    /// The result on the wire: the block of the rows, the number of columns
    /// in eight bytes, and the columns.
    pub open spec fn encoding(self) -> Seq<u8> {
        encode_block(self.data) + be_u64(self.columns.len() as u64) + encode_columns(self.columns)
    }

    /// The result that `s` starts with.
    pub open spec fn parse(s: Seq<u8>) -> Parsed<ResultSetView> {
        if !has_block(s) || s.len() < block_size(s) + 8 {
            Parsed::Incomplete
        } else {
            let a = block_size(s);
            match parse_columns(s.skip(a + 8), u64_of_be(s.skip(a)) as nat) {
                Parsed::Value(cs, m) => Parsed::Value(
                    ResultSetView { data: block_body(s), columns: cs },
                    a + 8 + m,
                ),
                other => other.failure(),
            }
        }
    }
}

/// What a column type may be: its text length is a byte, so every type is.
/// A type is read back from its encoding, whatever follows it.
pub proof fn lemma_sql_type_round_trip(t: SqlType, rest: Seq<u8>)
    ensures
        parse_sql_type(encode_sql_type(t) + rest) == Parsed::Value(
            t,
            encode_sql_type(t).len() as int,
        ),
{
    match t {
        SqlType::Int => {
            lemma_u32_round_trip(0, rest);
        },
        SqlType::Bool => {
            lemma_u32_round_trip(1, rest);
        },
        SqlType::Char(n) => {
            lemma_u32_round_trip(2, seq![n] + rest);
            assert(encode_sql_type(t) + rest =~= be_u32(2) + (seq![n] + rest));
        },
    }
}

/// Whether the texts of a column fit the length field of a text.
pub open spec fn column_fits(c: ColumnView) -> bool {
    encode_utf8(c.name).len() <= u64::MAX && encode_utf8(c.description).len() <= u64::MAX
}

/// A column is read back from its encoding, whatever follows it.
pub proof fn lemma_column_round_trip(c: ColumnView, rest: Seq<u8>)
    requires
        column_fits(c),
    ensures
        parse_column(encode_column(c) + rest) == Parsed::Value(c, encode_column(c).len() as int),
{
    let name = encode_text(c.name);
    let kind = encode_sql_type(c.sql_type);
    let flags = seq![bool_byte(c.is_primary_key), bool_byte(c.allow_null)];
    let text = encode_text(c.description);
    let tail3 = text + rest;
    let tail2 = flags + tail3;
    let tail1 = kind + tail2;
    let s = encode_column(c) + rest;
    let a = name.len() as int;
    let b = a + kind.len();
    assert(encode_column(c) == name + kind + flags + text) by {
        reveal(encode_column);
    }
    assert(s == name + tail1) by {
        assert(s =~= name + tail1);
    }
    assert(parse_text(s) == Parsed::Value(c.name, a)) by {
        lemma_text_round_trip(c.name, tail1);
    }
    assert(s.skip(a) == tail1) by {
        assert(s.skip(a) =~= tail1);
    }
    assert(parse_sql_type(tail1) == Parsed::Value(c.sql_type, kind.len() as int)) by {
        lemma_sql_type_round_trip(c.sql_type, tail2);
    }
    assert(parse_bool(s.skip(b)) == Parsed::Value(c.is_primary_key, 1)) by {
        assert(s.skip(b) =~= tail2);
    }
    assert(parse_bool(s.skip(b + 1)) == Parsed::Value(c.allow_null, 1)) by {
        assert(s.skip(b + 1) =~= seq![bool_byte(c.allow_null)] + tail3);
    }
    assert(s.skip(b + 2) == tail3) by {
        assert(s.skip(b + 2) =~= tail3);
    }
    assert(parse_text(tail3) == Parsed::Value(c.description, text.len() as int)) by {
        lemma_text_round_trip(c.description, rest);
    }
    assert(encode_column(c).len() == b + 2 + text.len());
    reveal(parse_column);
}

/// Columns are read back from their encoding, whatever follows it.
pub proof fn lemma_columns_round_trip(cols: Seq<ColumnView>, rest: Seq<u8>)
    requires
        forall|i: int| 0 <= i < cols.len() ==> column_fits(#[trigger] cols[i]),
    ensures
        parse_columns(encode_columns(cols) + rest, cols.len()) == Parsed::Value(
            cols,
            encode_columns(cols).len() as int,
        ),
    decreases cols.len(),
{
    if cols.len() == 0 {
        assert(cols =~= Seq::<ColumnView>::empty());
    } else {
        let tail = encode_columns(cols.skip(1)) + rest;
        let s = encode_columns(cols) + rest;
        assert(s =~= encode_column(cols[0]) + tail);
        lemma_column_round_trip(cols[0], tail);
        let k = encode_column(cols[0]).len() as int;
        assert(s.skip(k) =~= tail);
        assert forall|i: int| 0 <= i < cols.skip(1).len() implies column_fits(
            #[trigger] cols.skip(1)[i],
        ) by {
            assert(cols.skip(1)[i] == cols[i + 1]);
        }
        lemma_columns_round_trip(cols.skip(1), rest);
        assert(seq![cols[0]] + cols.skip(1) =~= cols);
    }
}

/// A result whose parts fit their length fields is read back from its
/// encoding, whatever follows it.
pub proof fn lemma_result_set_round_trip(v: ResultSetView, rest: Seq<u8>)
    requires
        v.data.len() <= u64::MAX,
        v.columns.len() <= u64::MAX,
        forall|i: int| 0 <= i < v.columns.len() ==> column_fits(#[trigger] v.columns[i]),
    ensures
        ResultSetView::parse(v.encoding() + rest) == Parsed::Value(v, v.encoding().len() as int),
{
    let n = v.columns.len() as u64;
    let tail2 = encode_columns(v.columns) + rest;
    let tail1 = be_u64(n) + tail2;
    let s = v.encoding() + rest;
    assert(s =~= encode_block(v.data) + tail1);
    lemma_block_round_trip(v.data, tail1);
    let a = block_size(s);
    assert(s.skip(a) =~= tail1);
    lemma_u64_round_trip(n, tail2);
    assert(s.skip(a + 8) =~= tail2);
    lemma_columns_round_trip(v.columns, rest);
}

/// The encoding of columns with one more at the end is the encoding of the
/// columns and then that of the last.
pub proof fn lemma_encode_columns_push(cols: Seq<ColumnView>, c: ColumnView)
    ensures
        encode_columns(cols.push(c)) == encode_columns(cols) + encode_column(c),
    decreases cols.len(),
{
    if cols.len() == 0 {
        let more = cols.push(c);
        assert(more[0] == c);
        assert(more.skip(1) =~= Seq::<ColumnView>::empty());
        assert(encode_columns(more) == encode_column(c) + encode_columns(more.skip(1)));
        assert(encode_column(c) + Seq::<u8>::empty() =~= Seq::<u8>::empty() + encode_column(c));
    } else {
        let more = cols.push(c);
        assert(more.skip(1) =~= cols.skip(1).push(c));
        lemma_encode_columns_push(cols.skip(1), c);
        assert(more[0] == cols[0]);
        assert(encode_columns(more) == encode_column(cols[0]) + encode_columns(more.skip(1)));
        assert(encode_columns(cols) == encode_column(cols[0]) + encode_columns(cols.skip(1)));
        assert(encode_column(cols[0]) + (encode_columns(cols.skip(1)) + encode_column(c))
            =~= encode_column(cols[0]) + encode_columns(cols.skip(1)) + encode_column(c));
    }
}

/// What reading `left` more columns at `off` makes of the whole, after the
/// columns `done` have been read.
pub open spec fn resumed(done: Seq<ColumnView>, off: int, rest: Parsed<Seq<ColumnView>>) -> Parsed<
    Seq<ColumnView>,
> {
    match rest {
        Parsed::Value(cs, m) => Parsed::Value(done + cs, off + m),
        other => other.failure(),
    }
}

/// Appends a column type to `out`.
pub fn encode_sql_type_into(t: SqlType, out: &mut Vec<u8>) -> (r: Result<(), Error>)
    ensures
        r is Ok,
        final(out)@ == old(out)@ + encode_sql_type(t),
{
    let tag: u32 = match t {
        SqlType::Int => 0,
        SqlType::Bool => 1,
        SqlType::Char(_) => 2,
    };
    match put_u32(out, tag) {
        Ok(()) => {},
        Err(e) => {
            return Err(Error::Bincode(e));
        },
    }
    if let SqlType::Char(n) = t {
        match put_u8(out, n) {
            Ok(()) => {},
            Err(e) => {
                return Err(Error::Bincode(e));
            },
        }
    }
    assert(out@ =~= old(out)@ + encode_sql_type(t));
    Ok(())
}

/// Reads the column type that `bytes` starts with, and says how many bytes
/// it takes.
pub fn decode_sql_type(bytes: &[u8]) -> (r: Result<(SqlType, usize), Fault>)
    ensures
        match r {
            Ok((t, n)) => parse_sql_type(bytes@) == Parsed::Value(t, n as int) && n <= bytes@.len(),
            Err(f) => f.explains(parse_sql_type(bytes@)) && f.plain(),
        },
{
    let tag = match get_u32(bytes) {
        Ok(tag) => tag,
        Err(e) => {
            return Err(Fault::Incomplete(e));
        },
    };
    if tag == 0 {
        Ok((SqlType::Int, 4))
    } else if tag == 1 {
        Ok((SqlType::Bool, 4))
    } else if tag == 2 {
        match get_u8(slice_subrange(bytes, 4, bytes.len())) {
            Ok(n) => Ok((SqlType::Char(n), 5)),
            Err(e) => Err(Fault::Incomplete(e)),
        }
    } else {
        Err(Fault::Invalid(invalid_tag(tag)))
    }
}

/// Reads the truth value that `bytes` starts with.
pub fn decode_bool(bytes: &[u8]) -> (r: Result<bool, Fault>)
    ensures
        match r {
            Ok(b) => parse_bool(bytes@) == Parsed::Value(b, 1),
            Err(f) => f.explains(parse_bool(bytes@)) && f.plain(),
        },
{
    match get_bool(bytes) {
        Ok(b) => Ok(b),
        Err(e) => if bytes.len() >= 1 {
            Err(Fault::Invalid(e))
        } else {
            Err(Fault::Incomplete(e))
        },
    }
}

/// Appends a column to `out`.
pub fn encode_column_into(c: &Column, out: &mut Vec<u8>) -> (r: Result<(), Error>)
    ensures
        r is Ok,
        final(out)@ == old(out)@ + encode_column(c@),
{
    match encode_text_into(out, c.name.as_str()) {
        Ok(()) => {},
        Err(e) => {
            return Err(e);
        },
    }
    match encode_sql_type_into(c.sql_type, out) {
        Ok(()) => {},
        Err(e) => {
            return Err(e);
        },
    }
    match put_bool(out, c.is_primary_key) {
        Ok(()) => {},
        Err(e) => {
            return Err(Error::Bincode(e));
        },
    }
    match put_bool(out, c.allow_null) {
        Ok(()) => {},
        Err(e) => {
            return Err(Error::Bincode(e));
        },
    }
    let r = encode_text_into(out, c.description.as_str());
    assert(out@ =~= old(out)@ + encode_column(c@)) by {
        reveal(encode_column);
    }
    r
}

/// Reads the column that `bytes` starts with, and says how many bytes it
/// takes.
pub fn decode_column(bytes: &[u8]) -> (r: Result<(Column, usize), Fault>)
    ensures
        match r {
            Ok((c, n)) => parse_column(bytes@) == Parsed::Value(c@, n as int) && n <= bytes@.len(),
            Err(f) => f.explains(parse_column(bytes@)) && f.plain(),
        },
{
    proof {
        reveal(parse_column);
    }
    let (name, a) = match decode_text(bytes) {
        Ok(found) => found,
        Err(f) => {
            return Err(f);
        },
    };
    let (sql_type, n) = match decode_sql_type(slice_subrange(bytes, a, bytes.len())) {
        Ok(found) => found,
        Err(f) => {
            return Err(f);
        },
    };
    let b = a + n;
    let is_primary_key = match decode_bool(slice_subrange(bytes, b, bytes.len())) {
        Ok(flag) => flag,
        Err(f) => {
            return Err(f);
        },
    };
    let allow_null = match decode_bool(slice_subrange(bytes, b + 1, bytes.len())) {
        Ok(flag) => flag,
        Err(f) => {
            return Err(f);
        },
    };
    let (description, d) = match decode_text(slice_subrange(bytes, b + 2, bytes.len())) {
        Ok(found) => found,
        Err(f) => {
            return Err(f);
        },
    };
    Ok((Column { name, sql_type, is_primary_key, allow_null, description }, b + 2 + d))
}

/// Appends the columns to `out`, one after the other.
pub fn encode_columns_into(cols: &Vec<Column>, out: &mut Vec<u8>) -> (r: Result<(), Error>)
    ensures
        r is Ok,
        final(out)@ == old(out)@ + encode_columns(column_views(cols@)),
{
    let mut i: usize = 0;
    assert(column_views(cols@.take(0)) =~= Seq::<ColumnView>::empty());
    assert(out@ =~= old(out)@ + encode_columns(column_views(cols@.take(0))));
    while i < cols.len()
        invariant
            i <= cols@.len(),
            out@ == old(out)@ + encode_columns(column_views(cols@.take(i as int))),
        decreases cols@.len() - i,
    {
        let ghost before = out@;
        match encode_column_into(&cols[i], out) {
            Ok(()) => {},
            Err(e) => {
                return Err(e);
            },
        }
        proof {
            lemma_encode_columns_push(column_views(cols@.take(i as int)), cols@[i as int]@);
            assert(column_views(cols@.take(i + 1)) =~= column_views(cols@.take(i as int)).push(
                cols@[i as int]@,
            ));
            assert(out@ =~= old(out)@ + encode_columns(column_views(cols@.take(i + 1))));
        }
        i = i + 1;
    }
    assert(cols@.take(cols@.len() as int) =~= cols@);
    Ok(())
}

/// Reads the `n` columns that `bytes` starts with, and says how many bytes
/// they take.
pub fn decode_columns(bytes: &[u8], n: u64) -> (r: Result<(Vec<Column>, usize), Fault>)
    ensures
        match r {
            Ok((cols, m)) => parse_columns(bytes@, n as nat) == Parsed::Value(
                column_views(cols@),
                m as int,
            ) && m <= bytes@.len(),
            Err(f) => f.explains(parse_columns(bytes@, n as nat)) && f.plain(),
        },
{
    let mut cols: Vec<Column> = Vec::new();
    let mut off: usize = 0;
    let mut i: u64 = 0;
    assert(bytes@.skip(0) =~= bytes@);
    assert(resumed(column_views(cols@), 0, parse_columns(bytes@, n as nat)) == parse_columns(
        bytes@,
        n as nat,
    )) by {
        match parse_columns(bytes@, n as nat) {
            Parsed::Value(cs, m) => {
                assert(column_views(cols@) + cs =~= cs);
            },
            _ => {},
        }
    }
    while i < n
        invariant
            i <= n,
            off <= bytes@.len(),
            parse_columns(bytes@, n as nat) == resumed(
                column_views(cols@),
                off as int,
                parse_columns(bytes@.skip(off as int), (n - i) as nat),
            ),
        decreases n - i,
    {
        let ghost done = column_views(cols@);
        let ghost rest = bytes@.skip(off as int);
        let (c, k) = match decode_column(slice_subrange(bytes, off, bytes.len())) {
            Ok(found) => found,
            Err(e) => {
                return Err(e);
            },
        };
        proof {
            assert(rest.skip(k as int) =~= bytes@.skip(off + k));
            assert(column_views(cols@.push(c)) =~= done.push(c@));
            match parse_columns(rest.skip(k as int), (n - i - 1) as nat) {
                Parsed::Value(cs, m) => {
                    assert(done + (seq![c@] + cs) =~= done.push(c@) + cs);
                },
                _ => {},
            }
        }
        cols.push(c);
        off = off + k;
        i = i + 1;
    }
    proof {
        assert(column_views(cols@) + Seq::<ColumnView>::empty() =~= column_views(cols@));
    }
    Ok((cols, off))
}

impl ResultSet {
    /// Appends the result to `out`.
    pub fn encode_into(&self, out: &mut Vec<u8>) -> (r: Result<(), Error>)
        ensures
            r is Ok,
            final(out)@ == old(out)@ + self@.encoding(),
    {
        match put_block(out, self.data.as_slice()) {
            Ok(()) => {},
            Err(e) => {
                return Err(Error::Bincode(e));
            },
        }
        match put_u64(out, self.columns.len() as u64) {
            Ok(()) => {},
            Err(e) => {
                return Err(Error::Bincode(e));
            },
        }
        let r = encode_columns_into(&self.columns, out);
        assert(out@ =~= old(out)@ + self@.encoding());
        r
    }

    /// Reads the result that `bytes` starts with, and says how many bytes it
    /// takes.
    pub fn decode(bytes: &[u8]) -> (r: Result<(ResultSet, usize), Fault>)
        ensures
            match r {
                Ok((rs, n)) => ResultSetView::parse(bytes@) == Parsed::Value(rs@, n as int) && n
                    <= bytes@.len(),
                Err(f) => f.explains(ResultSetView::parse(bytes@)) && f.plain(),
            },
    {
        let data = match get_block(bytes) {
            Ok(data) => data,
            Err(e) => {
                return Err(Fault::Incomplete(e));
            },
        };
        assert(data@.len() == u64_of_be(bytes@));
        let total = bytes.len();
        let a = 8 + data.len();
        let count = match get_u64(slice_subrange(bytes, a, bytes.len())) {
            Ok(count) => count,
            Err(e) => {
                return Err(Fault::Incomplete(e));
            },
        };
        match decode_columns(slice_subrange(bytes, a + 8, bytes.len()), count) {
            Ok((columns, m)) => Ok((ResultSet { data, columns }, a + 8 + m)),
            Err(e) => Err(e),
        }
    }
}

} // verus!
