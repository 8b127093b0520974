//! What holds of every table, whatever its rows: the laws that the
//! operations of an engine obey together.

use super::meta::{field_of, has_primary_key, lemma_field_in_row, row_len, valid_columns};
use super::types::{lemma_lex_order_zero, Column, SqlType};
use super::{
    is_live, matching, not_matching, pk_index, pk_of, row_matches, same_key, stored, CompType,
};
use vstd::prelude::*;

verus! {

/// Of the rows of a sequence, those that meet a condition and those that do
/// not are together as many as all.
pub proof fn lemma_filter_split(
    s: Seq<Seq<u8>>,
    cols: Seq<Column>,
    col: int,
    operand: Seq<u8>,
    comp: CompType,
)
    ensures
        s.filter(matching(cols, col, operand, comp)).len() + s.filter(
            not_matching(cols, col, operand, comp),
        ).len() == s.len(),
    decreases s.len(),
{
    reveal(Seq::filter);
    if s.len() > 0 {
        lemma_filter_split(s.drop_last(), cols, col, operand, comp);
    }
}

/// After the rows that meet a condition have been deleted, a scan gives as
/// many rows as there were less the deleted ones, and none of them meets the
/// condition.
pub proof fn lemma_delete_then_scan(
    rows: Seq<Seq<u8>>,
    cols: Seq<Column>,
    col: int,
    operand: Seq<u8>,
    comp: CompType,
)
    ensures
        rows.filter(not_matching(cols, col, operand, comp)).len() == rows.len() - rows.filter(
            matching(cols, col, operand, comp),
        ).len(),
        forall|i: int|
            0 <= i < rows.filter(not_matching(cols, col, operand, comp)).len() ==> !row_matches(
                cols,
                #[trigger] rows.filter(not_matching(cols, col, operand, comp))[i],
                col,
                operand,
                comp,
            ),
{
    lemma_filter_split(rows, cols, col, operand, comp);
    broadcast use vstd::seq_lib::group_filter_ensures;

}

/// Reorganizing keeps the live rows and nothing else: of the rows of a file,
/// the live ones are all live, and they are their own live rows.
pub proof fn lemma_reorganized(records: Seq<Seq<u8>>)
    ensures
        records.filter(is_live()).filter(is_live()) == records.filter(is_live()),
        forall|i: int|
            0 <= i < records.filter(is_live()).len() ==> is_live()(
                #[trigger] records.filter(is_live())[i],
            ),
{
    super::engine::lemma_filter_twice(records, is_live());
    broadcast use vstd::seq_lib::group_filter_ensures;

}

/// Two keys of a type are ordered as equal in one direction exactly when
/// they are in the other.
pub proof fn lemma_order_zero_symmetric(t: SqlType, a: Seq<u8>, b: Seq<u8>)
    ensures
        t.order(a, b) == 0 <==> t.order(b, a) == 0,
{
    lemma_lex_order_zero(a, b);
    lemma_lex_order_zero(b, a);
}

/// Whether no two of the rows have the same primary key.
pub open spec fn unique_keys(cols: Seq<Column>, rows: Seq<Seq<u8>>) -> bool {
    forall|i: int, j: int|
        0 <= i < j < rows.len() ==> !same_key(cols, #[trigger] rows[i])(#[trigger] rows[j])
}

/// Insertion keeps the primary keys unique: where no two live rows have the
/// same key and no live row has the key of the new row, no two rows have the
/// same key after the new row has been stored.
pub proof fn lemma_insert_keeps_keys_unique(cols: Seq<Column>, rows: Seq<Seq<u8>>, row: Seq<u8>)
    requires
        valid_columns(cols),
        has_primary_key(cols),
        row.len() == row_len(cols),
        unique_keys(cols, rows),
        rows.filter(same_key(cols, row)).len() == 0,
    ensures
        unique_keys(cols, rows.push(stored(row))),
{
    broadcast use vstd::seq_lib::group_filter_ensures;

    let pk = pk_index(cols);
    let t = cols[pk].sql_type;
    let more = rows.push(stored(row));
    lemma_field_in_row(cols, pk);
    assert(field_of(cols, stored(row), pk) =~= field_of(cols, row, pk));
    assert(!cols[pk].allow_null);
    assert forall|i: int, j: int| 0 <= i < j < more.len() implies !same_key(
        cols,
        #[trigger] more[i],
    )(#[trigger] more[j]) by {
        if j < rows.len() {
            assert(!same_key(cols, rows[i])(rows[j]));
        } else {
            if same_key(cols, row)(rows[i]) {
                assert(rows.filter(same_key(cols, row)).contains(rows[i]));
            }
            lemma_order_zero_symmetric(t, pk_of(cols, rows[i]), pk_of(cols, row));
        }
    }
}

} // verus!
