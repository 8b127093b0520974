//! Tables: their columns, and the layout of a row that follows from them.
//!
//! A row starts with one marker byte (live or deleted). A bitmap follows with
//! one bit for each column that allows null, in the order of the columns, and
//! then the fields of all columns, each as wide as its type says.

use super::types::Column;
use super::{EngineID, Error};
use vstd::prelude::*;

verus! {

/// The most columns a table can have.
pub const MAX_COLUMNS: usize = 0xFFFF;

/// The marker byte of a live row.
pub const LIVE: u8 = 1;

/// The marker byte of a deleted row.
pub const TOMBSTONE: u8 = 0;

/// How many of the first `i` columns allow null.
pub open spec fn nullable_before(cols: Seq<Column>, i: int) -> nat
    decreases i,
{
    if i <= 0 {
        0
    } else {
        nullable_before(cols, i - 1) + if cols[i - 1].allow_null {
            1nat
        } else {
            0nat
        }
    }
}

/// How many bytes the fields of the first `i` columns take together.
pub open spec fn fields_before(cols: Seq<Column>, i: int) -> nat
    decreases i,
{
    if i <= 0 {
        0
    } else {
        fields_before(cols, i - 1) + cols[i - 1].sql_type.width()
    }
}

/// The number of bytes of the null bitmap: one bit for each column that
/// allows null, rounded up to whole bytes.
pub open spec fn bitmap_len(cols: Seq<Column>) -> nat {
    (nullable_before(cols, cols.len() as int) + 7) / 8
}

/// The place in a row where the field of column `i` starts.
pub open spec fn field_start(cols: Seq<Column>, i: int) -> nat {
    1 + bitmap_len(cols) + fields_before(cols, i)
}

/// The number of bytes of every row of a table with these columns.
pub open spec fn row_len(cols: Seq<Column>) -> nat {
    field_start(cols, cols.len() as int)
}

/// What a table asks of its columns: at most one is the primary key, and the
/// primary key does not allow null.
pub open spec fn valid_columns(cols: Seq<Column>) -> bool {
    &&& forall|i: int, j: int|
        0 <= i < cols.len() && 0 <= j < cols.len() && cols[i].is_primary_key
            && cols[j].is_primary_key ==> i == j
    &&& forall|i: int| 0 <= i < cols.len() && cols[i].is_primary_key ==> !cols[i].allow_null
}

/// Whether one of the columns is the primary key.
pub open spec fn has_primary_key(cols: Seq<Column>) -> bool {
    exists|i: int| 0 <= i < cols.len() && cols[i].is_primary_key
}

/// The value of bit `k` of a byte, bit 0 being the lowest.
pub open spec fn bit_value(k: int) -> int {
    if k == 0 {
        1
    } else if k == 1 {
        2
    } else if k == 2 {
        4
    } else if k == 3 {
        8
    } else if k == 4 {
        16
    } else if k == 5 {
        32
    } else if k == 6 {
        64
    } else {
        128
    }
}

/// Whether bit `k` of `byte` is set.
pub open spec fn bit_set(byte: u8, k: int) -> bool {
    (byte as int / bit_value(k)) % 2 == 1
}

/// Whether the row marks column `i` as null: the column allows null, and its
/// bit in the bitmap is set.
pub open spec fn is_null(cols: Seq<Column>, row: Seq<u8>, i: int) -> bool {
    cols[i].allow_null && bit_set(
        row[1 + nullable_before(cols, i) as int / 8],
        nullable_before(cols, i) as int % 8,
    )
}

/// The bytes of the field of column `i` in a row.
pub open spec fn field_of(cols: Seq<Column>, row: Seq<u8>, i: int) -> Seq<u8> {
    row.subrange(
        field_start(cols, i) as int,
        field_start(cols, i) as int + cols[i].sql_type.width() as int,
    )
}

/// Setting a bit that is clear changes this bit and no other.
pub proof fn lemma_set_bit(byte: u8, k: int, j: int)
    requires
        0 <= k < 8,
        0 <= j < 8,
        !bit_set(byte, k),
    ensures
        byte + bit_value(k) <= 255,
        bit_set((byte + bit_value(k)) as u8, j) == (j == k || bit_set(byte, j)),
{
    let m = bit_value(k) as u8;
    let n = bit_value(j) as u8;
    assert((byte / m) % 2 != 1);
    lemma_add_power(byte, m, n);
}

/// Adding a power of two to a byte in which its bit is clear sets this bit
/// and leaves every other.
proof fn lemma_add_power(byte: u8, m: u8, n: u8)
    by (bit_vector)
    requires
        m == 1u8 || m == 2u8 || m == 4u8 || m == 8u8 || m == 16u8 || m == 32u8 || m == 64u8 || m
            == 128u8,
        n == 1u8 || n == 2u8 || n == 4u8 || n == 8u8 || n == 16u8 || n == 32u8 || n == 64u8 || n
            == 128u8,
        (byte / m) % 2u8 != 1u8,
    ensures
        byte <= 255u8 - m,
        (((byte | m) / n) % 2u8 == 1u8) == (m == n || (byte / n) % 2u8 == 1u8),
        (byte | m) as u16 == byte as u16 + m as u16,
{
}

/// Counts and sums over more columns are not smaller, and are bounded by the
/// number of columns.
pub proof fn lemma_layout_monotone(cols: Seq<Column>, i: int, j: int)
    requires
        0 <= i <= j,
    ensures
        nullable_before(cols, i) <= nullable_before(cols, j),
        fields_before(cols, i) <= fields_before(cols, j),
        nullable_before(cols, j) <= j,
        fields_before(cols, j) <= 256 * j,
        j <= fields_before(cols, j),
    decreases j,
{
    if j > 0 {
        if i < j {
            lemma_layout_monotone(cols, i, j - 1);
        } else {
            lemma_layout_monotone(cols, i - 1, j - 1);
        }
    }
}

/// The field of every column lies inside the row, after marker and bitmap,
/// and the bit of every column that allows null lies inside the bitmap.
pub proof fn lemma_field_in_row(cols: Seq<Column>, i: int)
    requires
        0 <= i < cols.len(),
    ensures
        1 + bitmap_len(cols) <= field_start(cols, i),
        field_start(cols, i) + cols[i].sql_type.width() == field_start(cols, i + 1),
        field_start(cols, i + 1) <= row_len(cols),
        cols[i].allow_null ==> 1 + nullable_before(cols, i) / 8 < 1 + bitmap_len(cols),
{
    lemma_layout_monotone(cols, i + 1, cols.len() as int);
}

/// A database table: its name, its columns in the order of their fields in a
/// row, and the engine that keeps its rows.
pub struct Table {
    name: String,
    columns: Vec<Column>,
    engine_id: EngineID,
}

impl Table {
    /// The columns of the table.
    pub closed spec fn cols(&self) -> Seq<Column> {
        self.columns@
    }

    /// The name of the table.
    pub closed spec fn spec_name(&self) -> Seq<char> {
        self.name@
    }

    /// The engine that keeps the rows of the table.
    pub closed spec fn spec_engine_id(&self) -> EngineID {
        self.engine_id
    }

    /// What holds of every table: it has no more than [`MAX_COLUMNS`]
    /// columns, and they are valid.
    pub open spec fn wf(&self) -> bool {
        self.cols().len() <= MAX_COLUMNS && valid_columns(self.cols())
    }

    /// A table with the given name, columns and engine. More than
    /// [`MAX_COLUMNS`] columns are out of bounds. A second primary key, or one
    /// that allows null, is not allowed.
    pub fn new(name: String, columns: Vec<Column>, engine_id: EngineID) -> (r: Result<
        Table,
        Error,
    >)
        ensures
            match r {
                Ok(t) => columns@.len() <= MAX_COLUMNS && valid_columns(columns@) && t.wf()
                    && t.cols() == columns@ && t.spec_name() == name@ && t.spec_engine_id()
                    == engine_id,
                Err(Error::OutOfBounds) => columns@.len() > MAX_COLUMNS,
                Err(Error::PrimaryKeyNotAllowed) => columns@.len() <= MAX_COLUMNS
                    && !valid_columns(columns@),
                Err(_) => false,
            },
    {
        if columns.len() > MAX_COLUMNS {
            return Err(Error::OutOfBounds);
        }
        let mut found: Option<usize> = None;
        let mut i: usize = 0;
        while i < columns.len()
            invariant
                i <= columns@.len() <= MAX_COLUMNS,
                valid_columns(columns@.take(i as int)),
                match found {
                    Some(k) => k < i && columns@[k as int].is_primary_key,
                    None => !has_primary_key(columns@.take(i as int)),
                },
            decreases columns@.len() - i,
        {
            let ghost before = columns@.take(i as int);
            let ghost after = columns@.take(i + 1);
            let c = &columns[i];
            if c.is_primary_key {
                if found.is_some() || c.allow_null {
                    proof {
                        if c.allow_null {
                            assert(columns@[i as int].is_primary_key && columns@[i as int].allow_null);
                        } else {
                            let k = found->Some_0 as int;
                            assert(columns@[k].is_primary_key && columns@[i as int].is_primary_key
                                && k != i);
                        }
                        assert(!valid_columns(columns@));
                    }
                    return Err(Error::PrimaryKeyNotAllowed);
                }
                proof {
                    assert forall|a: int, b: int|
                        0 <= a < after.len() && 0 <= b < after.len() && after[a].is_primary_key
                            && after[b].is_primary_key implies a == b by {
                        if a < i {
                            assert(before[a].is_primary_key);
                        }
                        if b < i {
                            assert(before[b].is_primary_key);
                        }
                    }
                    assert forall|a: int|
                        0 <= a < after.len() && after[a].is_primary_key implies !after[a].allow_null by {
                        if a < i {
                            assert(before[a].is_primary_key);
                        }
                    }
                }
                found = Some(i);
            } else {
                proof {
                    assert forall|a: int, b: int|
                        0 <= a < after.len() && 0 <= b < after.len() && after[a].is_primary_key
                            && after[b].is_primary_key implies a == b by {
                        assert(before[a].is_primary_key && before[b].is_primary_key);
                    }
                    assert forall|a: int|
                        0 <= a < after.len() && after[a].is_primary_key implies !after[a].allow_null by {
                        assert(before[a].is_primary_key);
                    }
                    if found is None && has_primary_key(after) {
                        let k = choose|k: int| 0 <= k < after.len() && after[k].is_primary_key;
                        assert(before[k].is_primary_key);
                    }
                }
            }
            i = i + 1;
        }
        assert(columns@.take(columns@.len() as int) =~= columns@);
        Ok(Table { name, columns, engine_id })
    }

    /// The name of the table.
    pub fn name(&self) -> (s: &str)
        ensures
            s@ == self.spec_name(),
    {
        self.name.as_str()
    }

    /// The columns of the table.
    pub fn columns(&self) -> (c: &Vec<Column>)
        ensures
            c@ == self.cols(),
    {
        &self.columns
    }

    /// The engine that keeps the rows of the table.
    pub fn engine_id(&self) -> (e: EngineID)
        ensures
            e == self.spec_engine_id(),
    {
        self.engine_id
    }

    /// The number of columns.
    pub fn column_count(&self) -> (n: usize)
        ensures
            n == self.cols().len(),
    {
        self.columns.len()
    }

    /// The index of the primary key. A table without one reports that it
    /// found none.
    pub fn primary_key(&self) -> (r: Result<usize, Error>)
        ensures
            match r {
                Ok(i) => i < self.cols().len() && self.cols()[i as int].is_primary_key,
                Err(Error::FoundNoPrimaryKey) => !has_primary_key(self.cols()),
                Err(_) => false,
            },
    {
        let mut i: usize = 0;
        while i < self.columns.len()
            invariant
                i <= self.columns@.len(),
                forall|k: int| 0 <= k < i ==> !self.columns@[k].is_primary_key,
            decreases self.columns@.len() - i,
        {
            if self.columns[i].is_primary_key {
                return Ok(i);
            }
            i = i + 1;
        }
        Err(Error::FoundNoPrimaryKey)
    }

    /// The number of bytes of every row of the table.
    pub fn row_size(&self) -> (n: usize)
        requires
            self.wf(),
        ensures
            n == row_len(self.cols()),
            1 <= n <= 0x101_0000,
    {
        row_size(&self.columns)
    }
}

/// How many of the first `i` columns allow null.
pub fn null_slot(cols: &Vec<Column>, i: usize) -> (k: usize)
    requires
        i <= cols@.len(),
    ensures
        k == nullable_before(cols@, i as int),
        k <= i,
{
    let mut k: usize = 0;
    let mut j: usize = 0;
    while j < i
        invariant
            j <= i <= cols@.len(),
            k == nullable_before(cols@, j as int),
            k <= j,
        decreases i - j,
    {
        if cols[j].allow_null {
            k = k + 1;
        }
        j = j + 1;
    }
    k
}

/// The number of bytes of the null bitmap of a row.
pub fn bitmap_size(cols: &Vec<Column>) -> (n: usize)
    requires
        cols@.len() <= MAX_COLUMNS,
    ensures
        n == bitmap_len(cols@),
        n <= 0x2000,
{
    (null_slot(cols, cols.len()) + 7) / 8
}

/// The place in a row where the field of column `i` starts; for `i` the
/// number of columns, the length of a row.
pub fn field_offset(cols: &Vec<Column>, i: usize) -> (n: usize)
    requires
        cols@.len() <= MAX_COLUMNS,
        i <= cols@.len(),
    ensures
        n == field_start(cols@, i as int),
        1 <= n <= 0x101_0000,
{
    let mut n: usize = 1 + bitmap_size(cols);
    let mut j: usize = 0;
    while j < i
        invariant
            j <= i <= cols@.len(),
            cols@.len() <= MAX_COLUMNS,
            n == 1 + bitmap_len(cols@) + fields_before(cols@, j as int),
            bitmap_len(cols@) <= 0x2000,
            fields_before(cols@, j as int) <= 256 * j,
        decreases i - j,
    {
        n = n + cols[j].sql_type.size();
        j = j + 1;
    }
    n
}

/// The number of bytes of every row of a table with these columns.
pub fn row_size(cols: &Vec<Column>) -> (n: usize)
    requires
        cols@.len() <= MAX_COLUMNS,
    ensures
        n == row_len(cols@),
        1 <= n <= 0x101_0000,
{
    field_offset(cols, cols.len())
}

/// Whether `row` marks column `i` as null.
pub fn null_at(cols: &Vec<Column>, row: &[u8], i: usize) -> (b: bool)
    requires
        cols@.len() <= MAX_COLUMNS,
        i < cols@.len(),
        row@.len() == row_len(cols@),
    ensures
        b == is_null(cols@, row@, i as int),
{
    if !cols[i].allow_null {
        return false;
    }
    let k = null_slot(cols, i);
    proof {
        lemma_field_in_row(cols@, i as int);
    }
    let byte = row[1 + k / 8];
    (byte / bit_mask(k % 8)) % 2 == 1
}

/// The bytes of the field of column `i` in `row`.
pub fn field<'a>(cols: &Vec<Column>, row: &'a [u8], i: usize) -> (f: &'a [u8])
    requires
        cols@.len() <= MAX_COLUMNS,
        i < cols@.len(),
        row@.len() == row_len(cols@),
    ensures
        f@ == field_of(cols@, row@, i as int),
        f@.len() == cols@[i as int].sql_type.width(),
{
    let start = field_offset(cols, i);
    let width = cols[i].sql_type.size();
    proof {
        lemma_field_in_row(cols@, i as int);
    }
    vstd::slice::slice_subrange(row, start, start + width)
}

/// Whether two texts are equal, decided on their bytes.
pub fn same_text(a: &str, b: &str) -> (r: bool)
    ensures
        r == (a@ == b@),
{
    let x = a.as_bytes();
    let y = b.as_bytes();
    proof {
        super::types::lemma_lex_order_zero(x@, y@);
        vstd::utf8::encode_utf8_decode_utf8(a@);
        vstd::utf8::encode_utf8_decode_utf8(b@);
    }
    super::types::compare_bytes(x, y) == 0
}

/// A database: its name, and its tables, each under its own name.
pub struct Database {
    name: String,
    tables: Vec<Table>,
}

impl Database {
    /// The name of the database.
    pub closed spec fn spec_name(&self) -> Seq<char> {
        self.name@
    }

    /// The tables of the database, in the order in which they were added.
    pub closed spec fn tables(&self) -> Seq<Table> {
        self.tables@
    }

    /// Whether the database has a table with the given name.
    pub open spec fn has_table(&self, name: Seq<char>) -> bool {
        exists|i: int| 0 <= i < self.tables().len() && (#[trigger] self.tables()[i]).spec_name() == name
    }

    /// What holds of every database: its tables are well formed, and no two
    /// have the same name.
    pub open spec fn wf(&self) -> bool {
        &&& forall|i: int| 0 <= i < self.tables().len() ==> (#[trigger] self.tables()[i]).wf()
        &&& forall|i: int, j: int|
            0 <= i < j < self.tables().len() ==> (#[trigger] self.tables()[i]).spec_name() != (
            #[trigger] self.tables()[j]).spec_name()
    }

    /// A database without tables.
    pub fn new(name: String) -> (db: Database)
        ensures
            db.wf(),
            db.spec_name() == name@,
            db.tables() == Seq::<Table>::empty(),
    {
        Database { name, tables: Vec::new() }
    }

    /// The name of the database.
    pub fn name(&self) -> (s: &str)
        ensures
            s@ == self.spec_name(),
    {
        self.name.as_str()
    }

    /// The place of the table with the given name among the tables.
    pub fn find_table(&self, name: &str) -> (r: Option<usize>)
        ensures
            match r {
                Some(i) => i < self.tables().len() && self.tables()[i as int].spec_name() == name@,
                None => !self.has_table(name@),
            },
    {
        let mut i: usize = 0;
        while i < self.tables.len()
            invariant
                i <= self.tables@.len(),
                forall|k: int| 0 <= k < i ==> (#[trigger] self.tables@[k]).spec_name() != name@,
            decreases self.tables@.len() - i,
        {
            if same_text(self.tables[i].name(), name) {
                return Some(i);
            }
            i = i + 1;
        }
        None
    }

    /// The table with the given name. A database that has no such table
    /// could not load it.
    pub fn table(&self, name: &str) -> (r: Result<&Table, Error>)
        requires
            self.wf(),
        ensures
            match r {
                Ok(t) => self.has_table(name@) && t.spec_name() == name@ && t.wf()
                    && self.tables().contains(*t),
                Err(Error::LoadDataBase) => !self.has_table(name@),
                Err(_) => false,
            },
    {
        match self.find_table(name) {
            Some(i) => Ok(&self.tables[i]),
            None => Err(Error::LoadDataBase),
        }
    }

    /// Adds a table. A table whose name another table of the database has is
    /// refused as an invalid state, and the database stays as it is.
    pub fn add_table(&mut self, table: Table) -> (r: Result<(), Error>)
        requires
            old(self).wf(),
            table.wf(),
        ensures
            final(self).wf(),
            final(self).spec_name() == old(self).spec_name(),
            match r {
                Ok(()) => !old(self).has_table(table.spec_name()) && final(self).tables() == old(
                    self,
                ).tables().push(table),
                Err(Error::InvalidState) => old(self).has_table(table.spec_name())
                    && final(self).tables() == old(self).tables(),
                Err(_) => false,
            },
    {
        match self.find_table(table.name()) {
            Some(_) => Err(Error::InvalidState),
            None => {
                self.tables.push(table);
                assert forall|i: int| 0 <= i < self.tables().len() implies (
                #[trigger] self.tables()[i]).wf() by {
                    if i < old(self).tables().len() {
                        assert(self.tables()[i] == old(self).tables()[i]);
                    }
                }
                assert forall|i: int, j: int| 0 <= i < j < self.tables().len() implies (
                #[trigger] self.tables()[i]).spec_name() != (
                #[trigger] self.tables()[j]).spec_name() by {
                    if j == old(self).tables().len() {
                        assert(old(self).tables()[i].spec_name() != table.spec_name());
                    } else {
                        assert(self.tables()[i] == old(self).tables()[i]);
                        assert(self.tables()[j] == old(self).tables()[j]);
                    }
                }
                Ok(())
            },
        }
    }
}

/// The value of bit `k` of a byte.
pub fn bit_mask(k: usize) -> (m: u8)
    requires
        k < 8,
    ensures
        m == bit_value(k as int),
        m > 0,
{
    match k {
        0 => 1,
        1 => 2,
        2 => 4,
        3 => 8,
        4 => 16,
        5 => 32,
        6 => 64,
        _ => 128,
    }
}

} // verus!
