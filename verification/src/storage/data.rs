//! Rows as they come out of a storage engine: the columns they belong to,
//! the rows themselves, and a position that only moves forward.

use super::meta::{field, field_of, null_at, row_len, row_size, MAX_COLUMNS};
use super::row::{field_fault, value_at};
use super::types::{Column, Value};
use super::Error;
use vstd::prelude::*;

verus! {

/// The `i`-th piece of `data` cut into pieces of `size` bytes.
pub open spec fn chunk(data: Seq<u8>, size: nat, i: int) -> Seq<u8> {
    data.subrange(i * size, i * size + size)
}

/// The first `count` pieces of `data` cut into pieces of `size` bytes.
pub open spec fn chunks(data: Seq<u8>, size: nat, count: nat) -> Seq<Seq<u8>> {
    Seq::new(count, |i: int| chunk(data, size, i))
}

/// Piece `i` of `count` pieces lies inside `count * size` bytes.
pub proof fn lemma_chunk_bounds(i: int, count: int, size: int)
    requires
        0 <= i < count,
        0 <= size,
    ensures
        0 <= i * size,
        i * size + size == (i + 1) * size,
        i * size + size <= count * size,
{
    assert(0 <= i * size) by (nonlinear_arith)
        requires
            0 <= i,
            0 <= size,
    ;
    assert(i * size + size == (i + 1) * size) by (nonlinear_arith);
    assert((i + 1) * size <= count * size) by (nonlinear_arith)
        requires
            i + 1 <= count,
            0 <= size,
    ;
}

/// Cutting a longer sequence gives the same first pieces.
pub proof fn lemma_chunks_prefix(data: Seq<u8>, more: Seq<u8>, size: nat, count: nat)
    requires
        data.len() == count * size,
    ensures
        chunks(data + more, size, count) == chunks(data, size, count),
{
    assert forall|i: int| 0 <= i < count implies chunk(data + more, size, i) == chunk(
        data,
        size,
        i,
    ) by {
        lemma_chunk_bounds(i, count as int, size as int);
        assert(chunk(data + more, size, i) =~= chunk(data, size, i));
    }
    assert(chunks(data + more, size, count) =~= chunks(data, size, count));
}

/// Appending one piece to a whole number of pieces appends it to their
/// sequence.
pub proof fn lemma_chunks_push(data: Seq<u8>, piece: Seq<u8>, size: nat, count: nat)
    requires
        data.len() == count * size,
        piece.len() == size,
    ensures
        (data + piece).len() == (count + 1) * size,
        chunks(data + piece, size, count + 1) == chunks(data, size, count).push(piece),
{
    lemma_chunk_bounds(count as int, count as int + 1, size as int);
    lemma_chunks_prefix(data, piece, size, count);
    assert(chunk(data + piece, size, count as int) =~= piece);
    assert(chunks(data + piece, size, count + 1) =~= chunks(data + piece, size, count).push(
        piece,
    ));
}

/// The rows of a result as they travel over the wire: the bytes of all rows
/// one after the other, and the columns that give them their shape.
#[derive(Clone, Debug, PartialEq, Eq)]
pub struct ResultSet {
    pub data: Vec<u8>,
    pub columns: Vec<Column>,
}

/// A copy of the columns.
pub fn clone_columns(cols: &Vec<Column>) -> (r: Vec<Column>)
    ensures
        r@ == cols@,
{
    let mut r: Vec<Column> = Vec::new();
    let mut i: usize = 0;
    while i < cols.len()
        invariant
            i <= cols@.len(),
            r@ == cols@.take(i as int),
        decreases cols@.len() - i,
    {
        let c = &cols[i];
        r.push(
            Column {
                name: c.name.clone(),
                sql_type: c.sql_type,
                is_primary_key: c.is_primary_key,
                allow_null: c.allow_null,
                description: c.description.clone(),
            },
        );
        assert(r@ =~= cols@.take(i + 1));
        i = i + 1;
    }
    assert(cols@.take(cols@.len() as int) =~= cols@);
    r
}

/// A cursor over the rows that an engine found. It starts before the first
/// row; [`Rows::next`] moves it to the next one, and it never moves back.
pub struct Rows {
    columns: Vec<Column>,
    data: Vec<u8>,
    width: usize,
    count: usize,
    pos: usize,
    surplus: usize,
}

impl Rows {
    /// The columns that give the rows their shape.
    pub closed spec fn cols(&self) -> Seq<Column> {
        self.columns@
    }

    /// All rows of the cursor, in their order.
    pub closed spec fn rows(&self) -> Seq<Seq<u8>> {
        chunks(self.data@, self.width as nat, self.count as nat)
    }

    /// The number of rows that the cursor has moved onto so far. The current
    /// row is the last of them.
    pub closed spec fn position(&self) -> nat {
        self.pos as nat
    }

    /// The bytes of all rows, one after the other.
    pub closed spec fn bytes(&self) -> Seq<u8> {
        self.data@
    }

    /// The number of bytes that were left out when the cursor was made,
    /// because they were no whole row.
    pub closed spec fn spec_surplus(&self) -> nat {
        self.surplus as nat
    }

    /// What holds of every cursor: its rows have the length that its columns
    /// give, its position is not past the last row, and with more columns
    /// than a table can have it has no rows.
    pub closed spec fn wf(&self) -> bool {
        &&& self.data@.len() == self.count * self.width
        &&& self.pos <= self.count
        &&& self.columns@.len() <= MAX_COLUMNS ==> self.width == row_len(self.columns@)
        &&& self.columns@.len() > MAX_COLUMNS ==> self.count == 0
    }

    /// The position is inside the rows, every row has the length that the
    /// columns give, and the rows are the bytes cut to that length.
    pub proof fn lemma_shape(&self)
        requires
            self.wf(),
        ensures
            self.position() <= self.rows().len(),
            self.rows().len() > 0 ==> self.cols().len() <= MAX_COLUMNS,
            self.cols().len() <= MAX_COLUMNS ==> self.bytes().len() == self.rows().len() * row_len(
                self.cols(),
            ) && self.rows() == chunks(self.bytes(), row_len(self.cols()), self.rows().len()),
            forall|i: int| 0 <= i < self.rows().len() ==> (#[trigger] self.rows()[i]).len()
                == row_len(self.cols()),
    {
        assert forall|i: int| 0 <= i < self.rows().len() implies (#[trigger] self.rows()[i]).len()
            == row_len(self.cols()) by {
            lemma_chunk_bounds(i, self.count as int, self.width as int);
        }
    }

    /// A cursor before the first of the rows in `data`, which must hold a
    /// whole number of rows of the shape that `columns` give.
    pub fn new(columns: Vec<Column>, data: Vec<u8>) -> (r: Result<Rows, Error>)
        ensures
            match r {
                Ok(rows) => columns@.len() <= MAX_COLUMNS && data@.len() % row_len(columns@) == 0
                    && rows.wf() && rows.cols() == columns@ && rows.bytes() == data@
                    && rows.position() == 0 && rows.spec_surplus() == 0,
                Err(Error::OutOfBounds) => columns@.len() > MAX_COLUMNS,
                Err(Error::WrongLength) => columns@.len() <= MAX_COLUMNS && data@.len() % row_len(
                    columns@,
                ) != 0,
                Err(_) => false,
            },
    {
        if columns.len() > MAX_COLUMNS {
            return Err(Error::OutOfBounds);
        }
        let width = row_size(&columns);
        if data.len() % width != 0 {
            return Err(Error::WrongLength);
        }
        let count = data.len() / width;
        proof {
            vstd::arithmetic::div_mod::lemma_fundamental_div_mod(data@.len() as int, width as int);
            assert(count * width == width * count) by (nonlinear_arith);
        }
        Ok(Rows { columns, data, width, count, pos: 0, surplus: 0 })
    }

    /// A cursor before the first of `count` rows in `data`.
    pub(crate) fn from_parts(columns: Vec<Column>, data: Vec<u8>, count: usize) -> (rows: Rows)
        requires
            columns@.len() <= MAX_COLUMNS,
            data@.len() == count * row_len(columns@),
        ensures
            rows.wf(),
            rows.cols() == columns@,
            rows.bytes() == data@,
            rows.rows() == chunks(data@, row_len(columns@), count as nat),
            rows.position() == 0,
            rows.spec_surplus() == 0,
    {
        let width = row_size(&columns);
        Rows { columns, data, width, count, pos: 0, surplus: 0 }
    }

    /// Moves to the next row and says whether there was one. After the last
    /// row the cursor stays where it is.
    pub fn next(&mut self) -> (b: bool)
        requires
            old(self).wf(),
        ensures
            final(self).wf(),
            final(self).cols() == old(self).cols(),
            final(self).rows() == old(self).rows(),
            final(self).bytes() == old(self).bytes(),
            final(self).spec_surplus() == old(self).spec_surplus(),
            b == (old(self).position() < old(self).rows().len()),
            final(self).position() == old(self).position() + if b {
                1nat
            } else {
                0nat
            },
    {
        if self.pos < self.count {
            self.pos = self.pos + 1;
            true
        } else {
            false
        }
    }

    /// The row that the cursor is on, if it has moved onto one.
    pub fn current(&self) -> (r: Option<&[u8]>)
        requires
            self.wf(),
        ensures
            match r {
                Some(row) => self.position() >= 1 && row@ == self.rows()[self.position() - 1],
                None => self.position() == 0,
            },
    {
        if self.pos == 0 {
            return None;
        }
        let total = self.data.len();
        proof {
            lemma_chunk_bounds(self.pos - 1, self.count as int, self.width as int);
            assert((self.pos - 1) * self.width + self.width <= total);
        }
        let start = (self.pos - 1) * self.width;
        Some(vstd::slice::slice_subrange(self.data.as_slice(), start, start + self.width))
    }

    /// The value of column `idx` in the current row. Before the first call of
    /// [`Rows::next`] the cursor is at the beginning and has no row; a column
    /// that the rows do not have is invalid; and a field that holds no value
    /// gives the error of its decoding.
    pub fn get_value(&self, idx: usize) -> (r: Result<Value, Error>)
        requires
            self.wf(),
        ensures
            match r {
                Ok(v) => self.position() >= 1 && idx < self.cols().len() && value_at(
                    self.cols(),
                    self.rows()[self.position() - 1],
                    idx as int,
                ) == Some(v@),
                Err(Error::BeginningOfFile) => self.position() == 0,
                Err(Error::InvalidColumn) => self.position() >= 1 && idx >= self.cols().len(),
                Err(e) => self.position() >= 1 && idx < self.cols().len() && value_at(
                    self.cols(),
                    self.rows()[self.position() - 1],
                    idx as int,
                ) is None && field_fault(
                    self.cols()[idx as int].sql_type,
                    field_of(self.cols(), self.rows()[self.position() - 1], idx as int),
                    e,
                ),
            },
    {
        let row = match self.current() {
            Some(row) => row,
            None => {
                return Err(Error::BeginningOfFile);
            },
        };
        if idx >= self.columns.len() {
            return Err(Error::InvalidColumn);
        }
        proof {
            self.lemma_shape();
        }
        if null_at(&self.columns, row, idx) {
            return Ok(Value::Null);
        }
        self.columns[idx].sql_type.decode_value(field(&self.columns, row, idx))
    }

    /// A cursor before the first of the whole rows that `data` holds. Bytes
    /// after the last whole row are left out and counted as surplus. With
    /// more columns than a table can have, the cursor keeps the columns, has
    /// no rows, and all bytes are surplus.
    pub fn whole(columns: Vec<Column>, data: Vec<u8>) -> (rows: Rows)
        ensures
            rows.wf(),
            rows.position() == 0,
            rows.cols() == columns@,
            columns@.len() <= MAX_COLUMNS ==> rows.rows() == chunks(
                data@,
                row_len(columns@),
                (data@.len() / row_len(columns@)) as nat,
            ) && rows.spec_surplus() == data@.len() % row_len(columns@),
            columns@.len() > MAX_COLUMNS ==> rows.rows() == Seq::<Seq<u8>>::empty()
                && rows.spec_surplus() == data@.len(),
    {
        if columns.len() > MAX_COLUMNS {
            let surplus = data.len();
            let rows = Rows { columns, data: Vec::new(), width: 1, count: 0, pos: 0, surplus };
            assert(rows.rows() =~= Seq::<Seq<u8>>::empty());
            return rows;
        }
        let width = row_size(&columns);
        let count = data.len() / width;
        let surplus = data.len() % width;
        let mut data = data;
        let ghost all = data@;
        proof {
            vstd::arithmetic::div_mod::lemma_fundamental_div_mod(all.len() as int, width as int);
            assert(count * width == width * count) by (nonlinear_arith);
        }
        data.truncate(count * width);
        proof {
            assert(all =~= data@ + all.skip(count * width));
            lemma_chunks_prefix(data@, all.skip(count * width), width as nat, count as nat);
        }
        Rows { columns, data, width, count, pos: 0, surplus }
    }

    /// The number of bytes that were left out when the cursor was made,
    /// because they were no whole row.
    pub fn surplus(&self) -> (n: usize)
        ensures
            n == self.spec_surplus(),
    {
        self.surplus
    }

    /// The number of rows.
    pub fn len(&self) -> (n: usize)
        requires
            self.wf(),
        ensures
            n == self.rows().len(),
    {
        self.count
    }

    /// Whether there is no row at all.
    pub fn data_empty(&self) -> (b: bool)
        requires
            self.wf(),
        ensures
            b == (self.rows().len() == 0),
    {
        self.count == 0
    }

    /// Whether there is no column at all.
    pub fn metadata_empty(&self) -> (b: bool)
        ensures
            b == (self.cols().len() == 0),
    {
        self.columns.len() == 0
    }

    /// The columns that give the rows their shape.
    pub fn columns(&self) -> (c: &Vec<Column>)
        ensures
            c@ == self.cols(),
    {
        &self.columns
    }

    /// The rows and their columns as they travel over the wire.
    pub fn into_result_set(self) -> (rs: ResultSet)
        ensures
            rs.data@ == self.bytes(),
            rs.columns@ == self.cols(),
    {
        ResultSet { data: self.data, columns: self.columns }
    }
}

} // verus!
