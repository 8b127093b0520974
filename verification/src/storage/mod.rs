//! Storage Engine trait and the flat-file implementation.

pub mod data;
pub mod engine;
pub mod laws;
pub mod meta;
pub mod row;
pub mod types;

pub use self::data::ResultSet;
pub use self::engine::FlatFile;
pub use self::data::Rows;
pub use self::meta::Database;
pub use self::meta::Table;
pub use self::types::Column;
pub use self::types::SqlType;
pub use crate::parse::ast::CompType;

use self::meta::{
    bit_value, field_of, field_start, has_primary_key, is_null, nullable_before, row_len, LIVE, TOMBSTONE,
};
use vstd::prelude::*;

verus! {

/// `std::string::FromUtf8Error`, carried through as an opaque value.
#[verifier::external_type_specification]
#[verifier::external_body]
pub struct ExFromUtf8Error(std::string::FromUtf8Error);

/// `std::str::Utf8Error`, carried through as an opaque value.
#[verifier::external_type_specification]
#[verifier::external_body]
pub struct ExUtf8Error(std::str::Utf8Error);

/// What can go wrong in the storage layer.
#[derive(Debug)]
pub enum Error {
    Io(std::io::Error),
    Bin(bincode::Error),
    Byteorder(std::io::Error),
    Utf8Error(std::string::FromUtf8Error),
    Utf8StrError(std::str::Utf8Error),
    NulError,
    WrongMagicNmbr,
    Engine,
    LoadDataBase,
    RemoveColumn,
    AddColumn,
    InvalidType,
    InterruptedRead,
    OutOfBounds,
    MissingPrimaryKey,
    InvalidColumn,
    NotAPrimaryKey,
    NoImplementation,
    WrongLength,
    NoOperationPossible,
    InvalidState,
    EndOfFile,
    BeginningOfFile,
    PrimaryKeyValueExists,
    FoundNoPrimaryKey,
    PrimaryKeyNotAllowed,
}

/// The storage engines that a table can be kept by.
#[derive(Clone, Copy, Debug, PartialEq, Eq, Structural)]
pub enum EngineID {
    FlatFile,
    InvertedIndex,
    BStar,
}

impl EngineID {
    /// The number under which the engine is recorded with a table.
    pub open spec fn spec_id(self) -> u8 {
        match self {
            EngineID::FlatFile => 1,
            EngineID::InvertedIndex => 2,
            EngineID::BStar => 3,
        }
    }

    /// The engine recorded under the number `id`, if there is one.
    pub open spec fn spec_from_id(id: u8) -> Option<EngineID> {
        if id == 1 {
            Some(EngineID::FlatFile)
        } else if id == 2 {
            Some(EngineID::InvertedIndex)
        } else if id == 3 {
            Some(EngineID::BStar)
        } else {
            None
        }
    }

    /// The number under which the engine is recorded with a table.
    pub fn id(self) -> (id: u8)
        ensures
            id == self.spec_id(),
            EngineID::spec_from_id(id) == Some(self),
    {
        match self {
            EngineID::FlatFile => 1,
            EngineID::InvertedIndex => 2,
            EngineID::BStar => 3,
        }
    }

    /// The engine recorded under the number `id`, if there is one.
    pub fn from_id(id: u8) -> (e: Option<EngineID>)
        ensures
            e == EngineID::spec_from_id(id),
    {
        match id {
            1 => Some(EngineID::FlatFile),
            2 => Some(EngineID::InvertedIndex),
            3 => Some(EngineID::BStar),
            _ => None,
        }
    }
}

/// The rows that are live: those whose marker byte says so.
pub open spec fn is_live() -> spec_fn(Seq<u8>) -> bool {
    |row: Seq<u8>| row.len() > 0 && row[0] == LIVE
}

/// The bytes that a condition compares with: the whole of the given value,
/// or, where a length comes with it, that many of its first bytes.
pub open spec fn operand_of(value: (&[u8], Option<usize>)) -> Seq<u8> {
    match value.1 {
        Some(n) => value.0@.take(n as int),
        None => value.0@,
    }
}

/// Why a condition on column `col` with the given value cannot be tested, if
/// it cannot: the table has no such column, the length that comes with the
/// value is past its end, or the value does not have the width of the
/// column's type.
pub open spec fn condition_fault(cols: Seq<Column>, col: usize, value: (&[u8], Option<usize>))
    -> Option<Error> {
    if col >= cols.len() {
        Some(Error::InvalidColumn)
    } else if value.1 is Some && value.1->Some_0 > value.0@.len() {
        Some(Error::OutOfBounds)
    } else if !cols[col as int].sql_type.accepts(operand_of(value)) {
        Some(Error::WrongLength)
    } else {
        None
    }
}

/// Whether a row meets a condition: its value in column `col` is not null
/// and stands in the relation `comp` to `operand`.
pub open spec fn row_matches(
    cols: Seq<Column>,
    row: Seq<u8>,
    col: int,
    operand: Seq<u8>,
    comp: CompType,
) -> bool {
    !is_null(cols, row, col) && cols[col].sql_type.satisfies(field_of(cols, row, col), operand, comp)
}

/// The rows that meet a condition.
pub open spec fn matching(cols: Seq<Column>, col: int, operand: Seq<u8>, comp: CompType)
    -> spec_fn(Seq<u8>) -> bool {
    |row: Seq<u8>| row_matches(cols, row, col, operand, comp)
}

/// The rows that do not meet a condition.
pub open spec fn not_matching(cols: Seq<Column>, col: int, operand: Seq<u8>, comp: CompType)
    -> spec_fn(Seq<u8>) -> bool {
    |row: Seq<u8>| !row_matches(cols, row, col, operand, comp)
}

/// The index of the primary key among the columns.
pub open spec fn pk_index(cols: Seq<Column>) -> int
    recommends
        has_primary_key(cols),
{
    choose|i: int| 0 <= i < cols.len() && cols[i].is_primary_key
}

/// The primary key of a row, as it is compared: the key of its field in the
/// primary-key column.
pub open spec fn pk_of(cols: Seq<Column>, row: Seq<u8>) -> Seq<u8> {
    cols[pk_index(cols)].sql_type.key(field_of(cols, row, pk_index(cols)))
}

/// The rows with the same primary key as `row`.
pub open spec fn same_key(cols: Seq<Column>, row: Seq<u8>) -> spec_fn(Seq<u8>) -> bool {
    matching(cols, pk_index(cols), pk_of(cols, row), CompType::Equ)
}

/// A row as it is stored on insertion: with the marker of a live row.
pub open spec fn stored(row: Seq<u8>) -> Seq<u8> {
    row.update(0, LIVE)
}

/// A row with the bit of column `i` in its null bitmap cleared.
pub open spec fn not_null(cols: Seq<Column>, row: Seq<u8>, i: int) -> Seq<u8> {
    if is_null(cols, row, i) {
        row.update(
            1 + nullable_before(cols, i) as int / 8,
            (row[1 + nullable_before(cols, i) as int / 8] - bit_value(
                nullable_before(cols, i) as int % 8,
            )) as u8,
        )
    } else {
        row
    }
}

/// A row with the value of column `i` replaced: the column is marked as not
/// null and `bytes` stand in the place of its field.
pub open spec fn with_field(cols: Seq<Column>, row: Seq<u8>, i: int, bytes: Seq<u8>) -> Seq<u8> {
    not_null(cols, row, i).subrange(0, field_start(cols, i) as int) + bytes + not_null(
        cols,
        row,
        i,
    ).subrange(field_start(cols, i + 1) as int, row.len() as int)
}

/// A row with the values of `values` written into it, one after the other
/// from the first to the last: each is a column index and the new field.
pub open spec fn patched(cols: Seq<Column>, row: Seq<u8>, values: Seq<(usize, &[u8])>) -> Seq<u8>
    decreases values.len(),
{
    if values.len() == 0 {
        row
    } else {
        with_field(
            cols,
            patched(cols, row, values.drop_last()),
            values.last().0 as int,
            values.last().1@,
        )
    }
}

/// Why the values of a modification cannot be written, if they cannot: one
/// names a column that the table does not have, or, where all columns are
/// there, one has not the width of its column's type.
pub open spec fn patch_fault(cols: Seq<Column>, values: Seq<(usize, &[u8])>) -> Option<Error> {
    if exists|k: int| 0 <= k < values.len() && (#[trigger] values[k]).0 >= cols.len() {
        Some(Error::InvalidColumn)
    } else if exists|k: int|
        0 <= k < values.len() && (#[trigger] values[k]).1@.len() != cols[values[k].0 as int].sql_type.width() {
        Some(Error::WrongLength)
    } else {
        None
    }
}

/// What a modification does to each row: one that meets the condition gets
/// the values written into it, any other stays as it is.
pub open spec fn modified(
    cols: Seq<Column>,
    col: int,
    operand: Seq<u8>,
    comp: CompType,
    values: Seq<(usize, &[u8])>,
) -> spec_fn(Seq<u8>) -> Seq<u8> {
    |row: Seq<u8>|
        if row_matches(cols, row, col, operand, comp) {
            patched(cols, row, values)
        } else {
            row
        }
}

/// What deleting does to each row of a file: a live row that meets the
/// condition gets the marker of a deleted row, any other stays as it is.
pub open spec fn buried(cols: Seq<Column>, col: int, operand: Seq<u8>, comp: CompType) -> spec_fn(
    Seq<u8>,
) -> Seq<u8> {
    |row: Seq<u8>|
        if is_live()(row) && row_matches(cols, row, col, operand, comp) {
            row.update(0, TOMBSTONE)
        } else {
            row
        }
}

/// What modifying does to each row of a file: a live row that meets the
/// condition gets the values written into it, any other stays as it is.
pub open spec fn rewritten(
    cols: Seq<Column>,
    col: int,
    operand: Seq<u8>,
    comp: CompType,
    values: Seq<(usize, &[u8])>,
) -> spec_fn(Seq<u8>) -> Seq<u8> {
    |row: Seq<u8>|
        if is_live()(row) && row_matches(cols, row, col, operand, comp) {
            patched(cols, row, values)
        } else {
            row
        }
}

/// Storage Engine Interface.
///
/// A storage engine is responsible for the rows of one table. What it keeps
/// is stated over the sequence of its live rows, whatever stands behind it:
/// a heap of rows or an index.
pub trait Engine {
    /// What holds of every engine of the kind.
    spec fn wf(&self) -> bool;

    /// The columns of the table.
    spec fn schema(&self) -> Seq<Column>;

    /// Whether the table has been created.
    spec fn created(&self) -> bool;

    /// The live rows of the table, in the order in which a scan gives them.
    spec fn rows(&self) -> Seq<Seq<u8>>;

    /// Whether the table has room for one more row.
    spec fn has_room(&self) -> bool;

    /// Creates the table, with no rows. Fails, and changes nothing, if it
    /// exists already.
    fn create_table(&mut self) -> (r: Result<(), Error>)
        requires
            old(self).wf(),
        ensures
            final(self).wf(),
            final(self).schema() == old(self).schema(),
            final(self).created(),
            old(self).created() ==> r == Err::<(), Error>(Error::Engine) && final(self).rows()
                == old(self).rows(),
            !old(self).created() ==> r is Ok && final(self).rows() == Seq::<Seq<u8>>::empty(),
    ;

    /// returns the table
    fn table(&self) -> (t: &Table)
        ensures
            t.cols() == self.schema(),
            self.wf() ==> t.wf(),
    ;

    /// A cursor over every live row. Fails if the table has not been created.
    /// The cursor holds its own copy of the rows as they are when it is made:
    /// what is done to the table afterwards does not show in it.
    fn full_scan(&self) -> (r: Result<Rows, Error>)
        requires
            self.wf(),
        ensures
            !self.created() ==> r == Err::<Rows, Error>(Error::Engine),
            self.created() ==> r is Ok && r->Ok_0.wf() && r->Ok_0.cols() == self.schema()
                && r->Ok_0.rows() == self.rows() && r->Ok_0.position() == 0,
    ;

    /// A cursor over the live rows that meet the condition, and no others. The
    /// cursor holds its own copy of the rows as they are when it is made.
    fn lookup(&self, column_index: usize, value: (&[u8], Option<usize>), comp: CompType) -> (r:
        Result<Rows, Error>)
        requires
            self.wf(),
        ensures
            !self.created() ==> r == Err::<Rows, Error>(Error::Engine),
            self.created() && condition_fault(self.schema(), column_index, value) is Some ==> r
                == Err::<Rows, Error>(condition_fault(self.schema(), column_index, value)->Some_0),
            self.created() && condition_fault(self.schema(), column_index, value) is None ==> r
                is Ok && r->Ok_0.wf() && r->Ok_0.cols() == self.schema() && r->Ok_0.rows()
                == self.rows().filter(
                matching(self.schema(), column_index as int, operand_of(value), comp),
            ) && r->Ok_0.position() == 0,
    ;

    /// Appends a row and gives its identifier, which holds until the table
    /// is reorganized. The row is refused, and nothing changes, if the table
    /// has no primary key, if the row has not the length of the table's rows,
    /// if a live row has the same primary key, or if there is no room.
    fn insert_row(&mut self, row_data: &[u8]) -> (r: Result<u64, Error>)
        requires
            old(self).wf(),
        ensures
            final(self).wf(),
            final(self).schema() == old(self).schema(),
            final(self).created() == old(self).created(),
            r is Err ==> final(self).rows() == old(self).rows(),
            r is Ok ==> final(self).rows() == old(self).rows().push(stored(row_data@)),
            !old(self).created() ==> r == Err::<u64, Error>(Error::Engine),
            old(self).created() && !has_primary_key(old(self).schema()) ==> r == Err::<u64, Error>(
                Error::MissingPrimaryKey,
            ),
            old(self).created() && has_primary_key(old(self).schema()) && row_data@.len()
                != row_len(old(self).schema()) ==> r == Err::<u64, Error>(Error::WrongLength),
            old(self).created() && has_primary_key(old(self).schema()) && row_data@.len()
                == row_len(old(self).schema()) && old(self).rows().filter(
                same_key(old(self).schema(), row_data@),
            ).len() > 0 ==> r == Err::<u64, Error>(Error::PrimaryKeyValueExists),
            old(self).created() && has_primary_key(old(self).schema()) && row_data@.len()
                == row_len(old(self).schema()) && old(self).rows().filter(
                same_key(old(self).schema(), row_data@),
            ).len() == 0 ==> (if old(self).has_room() {
                r is Ok
            } else {
                r == Err::<u64, Error>(Error::NoOperationPossible)
            }),
    ;

    /// Deletes the live rows that meet the condition and says how many they
    /// were. The rows that are left are the live rows that did not meet it.
    fn delete(&mut self, column_index: usize, value: (&[u8], Option<usize>), comp: CompType) -> (r:
        Result<u64, Error>)
        requires
            old(self).wf(),
        ensures
            final(self).wf(),
            final(self).schema() == old(self).schema(),
            final(self).created() == old(self).created(),
            r is Err ==> final(self).rows() == old(self).rows(),
            !old(self).created() ==> r == Err::<u64, Error>(Error::Engine),
            old(self).created() && condition_fault(old(self).schema(), column_index, value)
                is Some ==> r == Err::<u64, Error>(
                condition_fault(old(self).schema(), column_index, value)->Some_0,
            ),
            old(self).created() && condition_fault(old(self).schema(), column_index, value)
                is None ==> r is Ok && r->Ok_0 == old(self).rows().filter(
                matching(old(self).schema(), column_index as int, operand_of(value), comp),
            ).len() && final(self).rows() == old(self).rows().filter(
                not_matching(old(self).schema(), column_index as int, operand_of(value), comp),
            ),
    ;

    /// Writes `values` into every live row that meets the condition and says
    /// how many rows that were. Each value is a column index and the new
    /// field of that column.
    fn modify(
        &mut self,
        constraint_column_index: usize,
        constraint_value: (&[u8], Option<usize>),
        comp: CompType,
        values: &[(usize, &[u8])],
    ) -> (r: Result<u64, Error>)
        requires
            old(self).wf(),
        ensures
            final(self).wf(),
            final(self).schema() == old(self).schema(),
            final(self).created() == old(self).created(),
            r is Err ==> final(self).rows() == old(self).rows(),
            !old(self).created() ==> r == Err::<u64, Error>(Error::Engine),
            old(self).created() && condition_fault(
                old(self).schema(),
                constraint_column_index,
                constraint_value,
            ) is Some ==> r == Err::<u64, Error>(
                condition_fault(
                    old(self).schema(),
                    constraint_column_index,
                    constraint_value,
                )->Some_0,
            ),
            old(self).created() && condition_fault(
                old(self).schema(),
                constraint_column_index,
                constraint_value,
            ) is None && patch_fault(old(self).schema(), values@) is Some ==> r == Err::<
                u64,
                Error,
            >(patch_fault(old(self).schema(), values@)->Some_0),
            old(self).created() && condition_fault(
                old(self).schema(),
                constraint_column_index,
                constraint_value,
            ) is None && patch_fault(old(self).schema(), values@) is None ==> r is Ok && r->Ok_0
                == old(self).rows().filter(
                matching(
                    old(self).schema(),
                    constraint_column_index as int,
                    operand_of(constraint_value),
                    comp,
                ),
            ).len() && final(self).rows() == old(self).rows().map_values(
                modified(
                    old(self).schema(),
                    constraint_column_index as int,
                    operand_of(constraint_value),
                    comp,
                    values@,
                ),
            ),
    ;

    /// Reclaims the space of deleted rows. The live rows stay as they are, in
    /// their order; identifiers given out before do not hold any more.
    fn reorganize(&mut self) -> (r: Result<(), Error>)
        requires
            old(self).wf(),
        ensures
            final(self).wf(),
            final(self).schema() == old(self).schema(),
            final(self).created() == old(self).created(),
            final(self).rows() == old(self).rows(),
            !old(self).created() ==> r == Err::<(), Error>(Error::Engine),
            old(self).created() ==> r is Ok,
    ;

    /// Removes every row of the table.
    fn reset(&mut self) -> (r: Result<(), Error>)
        requires
            old(self).wf(),
        ensures
            final(self).wf(),
            final(self).schema() == old(self).schema(),
            final(self).created() == old(self).created(),
            !old(self).created() ==> r == Err::<(), Error>(Error::Engine) && final(self).rows()
                == old(self).rows(),
            old(self).created() ==> r is Ok && final(self).rows() == Seq::<Seq<u8>>::empty(),
    ;
}

} // verus!
