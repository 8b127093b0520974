//! The row codec: from the values of a row to its bytes, and back.

use super::meta::{
    bit_mask, bit_set, bit_value, bitmap_len, bitmap_size, field, field_of, field_start, is_null,
    lemma_field_in_row, lemma_layout_monotone, lemma_set_bit, null_at, nullable_before, row_len,
    row_size, Table, LIVE, MAX_COLUMNS,
};
use super::types::{zeros, Column, SqlType, Value, ValueView};
use super::Error;
use vstd::prelude::*;
use vstd::utf8::valid_utf8;

verus! {

/// The mathematical values of a sequence of values.
pub open spec fn value_views(values: Seq<Value>) -> Seq<ValueView> {
    Seq::new(values.len(), |i: int| values[i]@)
}

/// Whether bit `s` of the null bitmap of a row is set.
pub open spec fn slot_bit(row: Seq<u8>, s: int) -> bool {
    bit_set(row[1 + s / 8], s % 8)
}

/// The value of column `i` in a row, if the row holds one there: null where
/// the row marks the column as null, else what the field holds.
pub open spec fn value_at(cols: Seq<Column>, row: Seq<u8>, i: int) -> Option<ValueView> {
    if is_null(cols, row, i) {
        Some(ValueView::Null)
    } else {
        cols[i].sql_type.value_of_field(field_of(cols, row, i))
    }
}

/// Why a value cannot stand in a column, if it cannot: null where the column
/// does not allow it and a value of another type have an invalid type, a
/// text with more bytes than the column has room for has the wrong length.
pub open spec fn value_fault(c: Column, v: ValueView) -> Option<Error> {
    if v is Null {
        if c.allow_null {
            None
        } else {
            Some(Error::InvalidType)
        }
    } else if c.sql_type.admits(v) {
        None
    } else if c.sql_type is Char && v is Char {
        Some(Error::WrongLength)
    } else {
        Some(Error::InvalidType)
    }
}

/// Whether `row` is the row of the values: it is live and as long as the
/// columns say; the bitmap marks exactly the null values, and its bits that
/// belong to no column are clear; and every field is that of its value, or
/// zeros for null.
pub open spec fn encodes(cols: Seq<Column>, values: Seq<ValueView>, row: Seq<u8>) -> bool {
    &&& values.len() == cols.len()
    &&& row.len() == row_len(cols)
    &&& row[0] == LIVE
    &&& forall|i: int| 0 <= i < cols.len() ==> #[trigger] is_null(cols, row, i) == (values[i] is Null)
    &&& forall|i: int|
        0 <= i < cols.len() ==> #[trigger] field_of(cols, row, i) == cols[i].sql_type.field_of_value(
            values[i],
        )
    &&& forall|s: int|
        nullable_before(cols, cols.len() as int) <= s < 8 * bitmap_len(cols) ==> !#[trigger] slot_bit(
            row,
            s,
        )
}

/// Why a field of the type `t` holds no value, for the error `e` that is
/// reported for it.
pub open spec fn field_fault(t: SqlType, f: Seq<u8>, e: Error) -> bool {
    match e {
        Error::InvalidType => t is Bool && f[0] > 1,
        Error::WrongLength => t is Char && f[0] > t.room(),
        Error::Utf8Error(_) => t is Char && f[0] <= t.room() && !valid_utf8(f.subrange(1, 1 + f[0])),
        _ => false,
    }
}

/// The values of a row are read back from the row that encodes them.
pub proof fn lemma_row_round_trip(cols: Seq<Column>, values: Seq<ValueView>, row: Seq<u8>)
    requires
        encodes(cols, values, row),
        forall|i: int| 0 <= i < cols.len() ==> value_fault(cols[i], #[trigger] values[i]) is None,
    ensures
        forall|i: int| 0 <= i < cols.len() ==> #[trigger] value_at(cols, row, i) == Some(values[i]),
{
    assert forall|i: int| 0 <= i < cols.len() implies #[trigger] value_at(cols, row, i) == Some(
        values[i],
    ) by {
        assert(value_fault(cols[i], values[i]) is None);
        assert(is_null(cols, row, i) == (values[i] is Null));
        assert(field_of(cols, row, i) == cols[i].sql_type.field_of_value(values[i]));
        if !(values[i] is Null) {
            cols[i].sql_type.lemma_value_round_trip(values[i]);
        }
    }
}

/// Setting a bit of the null bitmap that is clear changes this bit and no
/// other, and no byte outside the bitmap.
pub proof fn lemma_set_slot(row: Seq<u8>, s: int, t: int)
    requires
        0 <= s,
        0 <= t,
        1 + s / 8 < row.len(),
        1 + t / 8 < row.len(),
        !slot_bit(row, s),
    ensures
        row[1 + s / 8] + bit_value(s % 8) <= 255,
        slot_bit(row.update(1 + s / 8, (row[1 + s / 8] + bit_value(s % 8)) as u8), t) == (t == s
            || slot_bit(row, t)),
{
    lemma_set_bit(row[1 + s / 8], s % 8, t % 8);
}

/// Whether `after` is `before` with the field of column `i` appended and,
/// where `marked` says so, with the bit of that column set in the bitmap.
pub open spec fn extends(cols: Seq<Column>, before: Seq<u8>, after: Seq<u8>, i: int, marked: bool)
    -> bool {
    &&& before.len() == field_start(cols, i)
    &&& after.len() == field_start(cols, i + 1)
    &&& marked ==> cols[i].allow_null && !slot_bit(before, nullable_before(cols, i) as int)
    &&& forall|a: int|
        0 <= a < before.len() ==> #[trigger] after[a] == if marked && a == 1 + nullable_before(
            cols,
            i,
        ) / 8 {
            (before[a] + bit_value(nullable_before(cols, i) as int % 8)) as u8
        } else {
            before[a]
        }
}

/// Appending the field of a column to a row under construction leaves what
/// the row says of the columns before it, marks the column as null exactly
/// where its bit was set, and leaves the bits of the columns after it clear.
pub proof fn lemma_extends(cols: Seq<Column>, before: Seq<u8>, after: Seq<u8>, i: int, marked: bool)
    requires
        0 <= i < cols.len(),
        extends(cols, before, after, i, marked),
        forall|s: int|
            nullable_before(cols, i) <= s < 8 * bitmap_len(cols) ==> !#[trigger] slot_bit(before, s),
    ensures
        forall|j: int| 0 <= j < i ==> #[trigger] is_null(cols, after, j) == is_null(cols, before, j),
        forall|j: int|
            0 <= j < i ==> #[trigger] field_of(cols, after, j) == field_of(cols, before, j),
        is_null(cols, after, i) == marked,
        forall|s: int|
            nullable_before(cols, i + 1) <= s < 8 * bitmap_len(cols) ==> !#[trigger] slot_bit(
                after,
                s,
            ),
        after[0] == before[0],
{
    let slot = nullable_before(cols, i) as int;
    let bm = bitmap_len(cols) as int;
    lemma_field_in_row(cols, i);
    lemma_layout_monotone(cols, i + 1, cols.len() as int);
    let set = before.update(1 + slot / 8, (before[1 + slot / 8] + bit_value(slot % 8)) as u8);
    assert forall|s: int| 0 <= s < 8 * bm implies #[trigger] slot_bit(after, s) == ((marked && s
        == slot) || slot_bit(before, s)) by {
        if marked {
            lemma_set_slot(before, slot, s);
            assert(after[1 + s / 8] == set[1 + s / 8]);
        }
    }
    assert forall|j: int| 0 <= j < i implies #[trigger] is_null(cols, after, j) == is_null(
        cols,
        before,
        j,
    ) by {
        lemma_field_in_row(cols, j);
        lemma_layout_monotone(cols, j + 1, i);
        if cols[j].allow_null {
            let t = nullable_before(cols, j) as int;
            assert(nullable_before(cols, j + 1) == t + 1);
            assert(t < slot);
            assert(slot <= nullable_before(cols, cols.len() as int) <= 8 * bm);
            assert(slot_bit(after, t) == ((marked && t == slot) || slot_bit(before, t)));
        }
    }
    assert forall|j: int| 0 <= j < i implies #[trigger] field_of(cols, after, j) == field_of(
        cols,
        before,
        j,
    ) by {
        lemma_field_in_row(cols, j);
        lemma_layout_monotone(cols, j + 1, i);
        assert(field_of(cols, after, j) =~= field_of(cols, before, j));
    }
    if cols[i].allow_null {
        assert(slot_bit(after, slot) == ((marked && slot == slot) || slot_bit(before, slot)));
    }
}

/// Sets bit `slot` of the null bitmap of a row.
fn mark_null(row: &mut Vec<u8>, slot: usize)
    requires
        1 + slot / 8 < old(row)@.len(),
        !slot_bit(old(row)@, slot as int),
    ensures
        final(row)@ == old(row)@.update(
            1 + slot as int / 8,
            (old(row)@[1 + slot as int / 8] + bit_value(slot as int % 8)) as u8,
        ),
{
    let at = 1 + slot / 8;
    let mask = bit_mask(slot % 8);
    let byte = row[at];
    proof {
        lemma_set_slot(row@, slot as int, slot as int);
    }
    row.set(at, byte + mask);
}

/// Appends `n` bytes that are zero.
fn push_zeros(row: &mut Vec<u8>, n: usize)
    ensures
        final(row)@ == old(row)@ + zeros(n as nat),
{
    let mut z: usize = 0;
    assert(row@ =~= old(row)@ + zeros(0));
    while z < n
        invariant
            z <= n,
            row@ == old(row)@ + zeros(z as nat),
        decreases n - z,
    {
        row.push(0);
        z = z + 1;
        assert(row@ =~= old(row)@ + zeros(z as nat));
    }
}

impl Table {
    /// The bytes of the row with the given values, one for each column in
    /// their order. Another number of values than columns gives the wrong
    /// length. Otherwise the first value that cannot stand in its column
    /// decides the error.
    pub fn encode_row(&self, values: &Vec<Value>) -> (r: Result<Vec<u8>, Error>)
        requires
            self.wf(),
        ensures
            match r {
                Ok(row) => encodes(self.cols(), value_views(values@), row@) && forall|i: int|
                    0 <= i < self.cols().len() ==> value_fault(
                        #[trigger] self.cols()[i],
                        values@[i]@,
                    ) is None,
                Err(e) => if values@.len() != self.cols().len() {
                    e == Error::WrongLength
                } else {
                    exists|i: int|
                        0 <= i < self.cols().len() && #[trigger] value_fault(
                            self.cols()[i],
                            values@[i]@,
                        ) == Some(e) && forall|j: int|
                            0 <= j < i ==> value_fault(#[trigger] self.cols()[j], values@[j]@)
                                is None
                },
            },
    {
        let cols = self.columns();
        let n = cols.len();
        if values.len() != n {
            return Err(Error::WrongLength);
        }
        let bm = bitmap_size(cols);
        let mut row: Vec<u8> = Vec::new();
        row.push(LIVE);
        let mut k: usize = 0;
        while k < bm
            invariant
                k <= bm,
                row@.len() == 1 + k,
                row@[0] == LIVE,
                forall|a: int| 1 <= a < row@.len() ==> row@[a] == 0,
            decreases bm - k,
        {
            row.push(0);
            k = k + 1;
        }
        let ghost vals = value_views(values@);
        let mut slot: usize = 0;
        let mut i: usize = 0;
        while i < n
            invariant
                i <= n == cols@.len() == values@.len(),
                cols@.len() <= MAX_COLUMNS,
                cols@ == self.cols(),
                vals == value_views(values@),
                bm == bitmap_len(cols@),
                row@.len() == field_start(cols@, i as int),
                row@[0] == LIVE,
                slot == nullable_before(cols@, i as int),
                forall|j: int|
                    0 <= j < i ==> #[trigger] is_null(cols@, row@, j) == (vals[j] is Null),
                forall|j: int|
                    0 <= j < i ==> #[trigger] field_of(cols@, row@, j)
                        == cols@[j].sql_type.field_of_value(vals[j]),
                forall|s: int| slot <= s < 8 * bm ==> !#[trigger] slot_bit(row@, s),
                forall|j: int| 0 <= j < i ==> value_fault(#[trigger] cols@[j], values@[j]@) is None,
            decreases n - i,
        {
            let ghost before = row@;
            let c = &cols[i];
            let ghost marked = values@[i as int] is Null;
            proof {
                lemma_field_in_row(cols@, i as int);
                lemma_layout_monotone(cols@, i as int + 1, n as int);
            }
            match &values[i] {
                Value::Null => {
                    if !c.allow_null {
                        assert(value_fault(cols@[i as int], values@[i as int]@) == Some(
                            Error::InvalidType,
                        ));
                        return Err(Error::InvalidType);
                    }
                    mark_null(&mut row, slot);
                    push_zeros(&mut row, c.sql_type.size());
                    slot = slot + 1;
                },
                v => {
                    match c.sql_type.encode_value(v, &mut row) {
                        Ok(()) => {},
                        Err(e) => {
                            assert(value_fault(cols@[i as int], values@[i as int]@) == Some(e));
                            return Err(e);
                        },
                    }
                    proof {
                        c.sql_type.lemma_value_round_trip(v@);
                    }
                    if c.allow_null {
                        slot = slot + 1;
                    }
                },
            }
            proof {
                assert(extends(cols@, before, row@, i as int, marked));
                lemma_extends(cols@, before, row@, i as int, marked);
                assert(field_of(cols@, row@, i as int) =~= cols@[i as int].sql_type.field_of_value(
                    vals[i as int],
                ));
            }
            i = i + 1;
        }
        Ok(row)
    }

    /// The values that `row` holds, one for each column in their order. A
    /// row that is too short is an interrupted read, one that is too long has
    /// the wrong length. Otherwise the first field that holds no value
    /// decides the error.
    pub fn decode_row(&self, row: &[u8]) -> (r: Result<Vec<Value>, Error>)
        requires
            self.wf(),
        ensures
            match r {
                Ok(values) => row@.len() == row_len(self.cols()) && values@.len()
                    == self.cols().len() && forall|i: int|
                    0 <= i < self.cols().len() ==> #[trigger] value_at(self.cols(), row@, i)
                        == Some(values@[i]@),
                Err(e) => if row@.len() < row_len(self.cols()) {
                    e == Error::InterruptedRead
                } else if row@.len() > row_len(self.cols()) {
                    e == Error::WrongLength
                } else {
                    exists|i: int|
                        0 <= i < self.cols().len() && #[trigger] value_at(self.cols(), row@, i)
                            is None && field_fault(
                            self.cols()[i].sql_type,
                            field_of(self.cols(), row@, i),
                            e,
                        ) && forall|j: int|
                            0 <= j < i ==> #[trigger] value_at(self.cols(), row@, j) is Some
                },
            },
    {
        let cols = self.columns();
        let width = row_size(cols);
        if row.len() < width {
            return Err(Error::InterruptedRead);
        }
        if row.len() > width {
            return Err(Error::WrongLength);
        }
        let mut values: Vec<Value> = Vec::new();
        let mut i: usize = 0;
        while i < cols.len()
            invariant
                i <= cols@.len() <= MAX_COLUMNS,
                cols@ == self.cols(),
                row@.len() == row_len(cols@),
                values@.len() == i,
                forall|j: int|
                    0 <= j < i ==> #[trigger] value_at(cols@, row@, j) == Some(values@[j]@),
            decreases cols@.len() - i,
        {
            if null_at(cols, row, i) {
                values.push(Value::Null);
            } else {
                match cols[i].sql_type.decode_value(field(cols, row, i)) {
                    Ok(v) => {
                        values.push(v);
                    },
                    Err(e) => {
                        assert(value_at(cols@, row@, i as int) is None);
                        assert(field_fault(
                            cols@[i as int].sql_type,
                            field_of(cols@, row@, i as int),
                            e,
                        ));
                        return Err(e);
                    },
                }
            }
            i = i + 1;
        }
        Ok(values)
    }
}

} // verus!
