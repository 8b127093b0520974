use uosql::storage::data::{clone_columns, Rows};
use uosql::storage::engine::{check_values, operand, patch_row, HEADER_LEN};
use uosql::storage::meta::{
    bit_mask, bitmap_size, field, field_offset, null_at, null_slot, row_size, same_text,
    Database, LIVE, MAX_COLUMNS, TOMBSTONE,
};
use uosql::storage::types::{compare_bytes, read_int, write_int, Value};
use uosql::storage::{Column, CompType, Engine, EngineID, Error, FlatFile, SqlType, Table};

fn column(name: &str, sql_type: SqlType, is_primary_key: bool, allow_null: bool) -> Column {
    Column {
        name: name.into(),
        sql_type,
        is_primary_key,
        allow_null,
        description: format!("the {}", name),
    }
}

fn columns() -> Vec<Column> {
    vec![
        column("id", SqlType::Int, true, false),
        column("name", SqlType::Char(5), false, true),
        column("flag", SqlType::Bool, false, true),
    ]
}

fn table() -> Table {
    Table::new("people".into(), columns(), EngineID::FlatFile).unwrap()
}

fn r1() -> Vec<u8> {
    vec![1, 0, 0, 0, 0, 1, 2, 97, 98, 0, 0, 0, 1]
}

fn r2() -> Vec<u8> {
    vec![1, 1, 0xFF, 0xFF, 0xFF, 0xFE, 0, 0, 0, 0, 0, 0, 0]
}

fn r3() -> Vec<u8> {
    vec![1, 2, 0, 0, 0, 3, 5, 104, 101, 108, 108, 111, 0]
}

fn filled() -> FlatFile {
    let mut engine = FlatFile::new(table());
    engine.create_table().unwrap();
    assert_eq!(engine.insert_row(&r1()).unwrap(), 0);
    assert_eq!(engine.insert_row(&r2()).unwrap(), 13);
    assert_eq!(engine.insert_row(&r3()).unwrap(), 26);
    engine
}

fn all_rows(mut rows: Rows) -> Vec<Vec<u8>> {
    let mut found = Vec::new();
    while rows.next() {
        found.push(rows.current().unwrap().to_vec());
    }
    found
}

fn be(v: i32) -> [u8; 4] {
    v.to_be_bytes()
}

#[test]
fn engine_ids() {
    assert_eq!(EngineID::FlatFile.id(), 1);
    assert_eq!(EngineID::InvertedIndex.id(), 2);
    assert_eq!(EngineID::BStar.id(), 3);
    assert_eq!(EngineID::from_id(1), Some(EngineID::FlatFile));
    assert_eq!(EngineID::from_id(3), Some(EngineID::BStar));
    assert_eq!(EngineID::from_id(0), None);
    assert_eq!(EngineID::from_id(4), None);
}

#[test]
fn comparison_operators() {
    let table = [
        (CompType::Equ, [false, true, false]),
        (CompType::NEqu, [true, false, true]),
        (CompType::GThan, [false, false, true]),
        (CompType::SThan, [true, false, false]),
        (CompType::GEThan, [false, true, true]),
        (CompType::SEThan, [true, true, false]),
    ];
    for (comp, expected) in table {
        assert_eq!([comp.test(-1), comp.test(0), comp.test(1)], expected);
    }
}

#[test]
fn widths_of_types() {
    assert_eq!(SqlType::Int.size(), 4);
    assert_eq!(SqlType::Bool.size(), 1);
    assert_eq!(SqlType::Char(0).size(), 1);
    assert_eq!(SqlType::Char(5).size(), 6);
    assert_eq!(SqlType::Char(255).size(), 256);
}

#[test]
fn integers_are_four_bytes_in_twos_complement() {
    for (v, bytes) in [
        (0, [0, 0, 0, 0]),
        (1, [0, 0, 0, 1]),
        (258, [0, 0, 1, 2]),
        (-1, [255, 255, 255, 255]),
        (-2, [255, 255, 255, 254]),
        (i32::MAX, [0x7F, 255, 255, 255]),
        (i32::MIN, [0x80, 0, 0, 0]),
    ] {
        let mut out = vec![9];
        write_int(&mut out, v);
        assert_eq!(&out[1..], &bytes);
        assert_eq!(read_int(&bytes), v);
    }
}

#[test]
fn bytes_are_ordered_from_the_front() {
    assert_eq!(compare_bytes(b"", b""), 0);
    assert_eq!(compare_bytes(b"", b"a"), -1);
    assert_eq!(compare_bytes(b"a", b""), 1);
    assert_eq!(compare_bytes(b"ab", b"ab"), 0);
    assert_eq!(compare_bytes(b"ab", b"abc"), -1);
    assert_eq!(compare_bytes(b"b", b"abc"), 1);
    assert_eq!(compare_bytes(b"ab", b"ac"), -1);
    assert!(same_text("ab", "ab"));
    assert!(!same_text("ab", "abc"));
}

#[test]
fn values_round_trip_through_their_fields() {
    let cases = [
        (SqlType::Int, Value::Int(-7), vec![255, 255, 255, 249]),
        (SqlType::Int, Value::Int(i32::MAX), vec![127, 255, 255, 255]),
        (SqlType::Bool, Value::Bool(true), vec![1]),
        (SqlType::Bool, Value::Bool(false), vec![0]),
        (SqlType::Char(3), Value::Char("é".into()), vec![2, 0xC3, 0xA9, 0]),
        (SqlType::Char(3), Value::Char("abc".into()), vec![3, 97, 98, 99]),
        (SqlType::Char(3), Value::Char(String::new()), vec![0, 0, 0, 0]),
        (SqlType::Char(0), Value::Char(String::new()), vec![0]),
    ];
    for (t, v, bytes) in cases {
        let mut out = Vec::new();
        t.encode_value(&v, &mut out).unwrap();
        assert_eq!(out, bytes);
        assert_eq!(t.decode_value(&out).unwrap(), v);
    }
}

#[test]
fn values_that_do_not_fit_are_refused() {
    let mut out = vec![5];
    assert!(matches!(
        SqlType::Char(2).encode_value(&Value::Char("abc".into()), &mut out),
        Err(Error::WrongLength)
    ));
    assert!(matches!(SqlType::Int.encode_value(&Value::Bool(true), &mut out), Err(Error::InvalidType)));
    assert!(matches!(SqlType::Bool.encode_value(&Value::Int(1), &mut out), Err(Error::InvalidType)));
    assert!(matches!(SqlType::Char(2).encode_value(&Value::Int(1), &mut out), Err(Error::InvalidType)));
    assert!(matches!(SqlType::Int.encode_value(&Value::Null, &mut out), Err(Error::InvalidType)));
    assert_eq!(out, vec![5]);
}

#[test]
fn fields_that_hold_no_value_are_reported() {
    assert!(matches!(SqlType::Int.decode_value(&[0, 0, 0]), Err(Error::InterruptedRead)));
    assert!(matches!(SqlType::Int.decode_value(&[0, 0, 0, 0, 0]), Err(Error::WrongLength)));
    assert!(matches!(SqlType::Bool.decode_value(&[]), Err(Error::InterruptedRead)));
    assert!(matches!(SqlType::Bool.decode_value(&[2]), Err(Error::InvalidType)));
    assert!(matches!(SqlType::Char(3).decode_value(&[4, 0, 0, 0]), Err(Error::WrongLength)));
    assert!(matches!(SqlType::Char(3).decode_value(&[1, 0xFF, 0, 0]), Err(Error::Utf8Error(_))));
    // bytes after the counted ones are not looked at
    assert_eq!(
        SqlType::Char(3).decode_value(&[1, 97, 0xFF, 0xFF]).unwrap(),
        Value::Char("a".into())
    );
}

#[test]
fn comparing_fields() {
    let t = SqlType::Int;
    assert!(t.compare(&be(-5), &be(3), CompType::SThan));
    assert!(!t.compare(&be(-5), &be(3), CompType::GThan));
    assert!(t.compare(&be(3), &be(3), CompType::Equ));
    assert!(t.compare(&be(i32::MIN), &be(i32::MAX), CompType::SEThan));
    let t = SqlType::Bool;
    assert!(t.compare(&[0], &[1], CompType::SThan));
    assert!(t.compare(&[1], &[1], CompType::GEThan));
    let t = SqlType::Char(4);
    assert!(t.compare(&[2, 97, 98, 0, 0], b"ab", CompType::Equ));
    assert!(t.compare(&[2, 97, 98, 9, 9], b"ab", CompType::Equ));
    assert!(t.compare(&[2, 97, 98, 0, 0], b"abc", CompType::SThan));
    assert!(t.compare(&[2, 97, 98, 0, 0], b"aa", CompType::GThan));
    assert!(t.compare(&[0, 0, 0, 0, 0], b"", CompType::Equ));
    // a length byte beyond the room counts as the whole room
    assert!(t.compare(&[9, 97, 98, 99, 100], b"abcd", CompType::Equ));
    assert_eq!(t.key_of(&[2, 97, 98, 0, 0]), b"ab");
    assert_eq!(SqlType::Int.key_of(&[1, 2, 3, 4]), &[1, 2, 3, 4]);
}

#[test]
fn tables_accept_at_most_one_primary_key_that_is_not_null() {
    let t = table();
    assert_eq!(t.name(), "people");
    assert_eq!(t.column_count(), 3);
    assert_eq!(t.columns(), &columns());
    assert_eq!(t.engine_id(), EngineID::FlatFile);
    assert_eq!(t.primary_key().unwrap(), 0);
    assert_eq!(t.row_size(), 13);

    let mut two = columns();
    two[2] = column("other", SqlType::Bool, true, false);
    assert!(matches!(
        Table::new("t".into(), two, EngineID::FlatFile),
        Err(Error::PrimaryKeyNotAllowed)
    ));
    let nullable = vec![column("id", SqlType::Int, true, true)];
    assert!(matches!(
        Table::new("t".into(), nullable, EngineID::FlatFile),
        Err(Error::PrimaryKeyNotAllowed)
    ));
    let none = vec![column("a", SqlType::Int, false, false)];
    let t = Table::new("t".into(), none, EngineID::BStar).unwrap();
    assert!(matches!(t.primary_key(), Err(Error::FoundNoPrimaryKey)));
    let empty = Table::new("t".into(), vec![], EngineID::FlatFile).unwrap();
    assert_eq!(empty.row_size(), 1);
}

#[test]
fn tables_have_a_limit_of_columns() {
    let mut many = Vec::new();
    for _ in 0..MAX_COLUMNS {
        many.push(column("c", SqlType::Char(255), false, true));
    }
    let t = Table::new("wide".into(), many.clone(), EngineID::FlatFile).unwrap();
    assert_eq!(t.row_size(), 1 + 8192 + 256 * 65535);
    many.push(column("c", SqlType::Bool, false, false));
    assert!(matches!(Table::new("wide".into(), many, EngineID::FlatFile), Err(Error::OutOfBounds)));
}

#[test]
fn layout_of_a_row() {
    let cols = columns();
    assert_eq!(bitmap_size(&cols), 1);
    assert_eq!(row_size(&cols), 13);
    assert_eq!(field_offset(&cols, 0), 2);
    assert_eq!(field_offset(&cols, 1), 6);
    assert_eq!(field_offset(&cols, 2), 12);
    assert_eq!(field_offset(&cols, 3), 13);
    assert_eq!(null_slot(&cols, 0), 0);
    assert_eq!(null_slot(&cols, 1), 0);
    assert_eq!(null_slot(&cols, 2), 1);
    assert_eq!(null_slot(&cols, 3), 2);
    assert_eq!(field(&cols, &r3(), 0), &[0, 0, 0, 3]);
    assert_eq!(field(&cols, &r3(), 1), &[5, 104, 101, 108, 108, 111]);
    assert_eq!(field(&cols, &r3(), 2), &[0]);
    assert!(!null_at(&cols, &r3(), 0));
    assert!(!null_at(&cols, &r3(), 1));
    assert!(null_at(&cols, &r3(), 2));
    assert!(null_at(&cols, &r2(), 1));
    assert!(!null_at(&cols, &r2(), 2));
    for k in 0..8 {
        assert_eq!(bit_mask(k), 1 << k);
    }
    assert_eq!((LIVE, TOMBSTONE), (1, 0));

    let mut nine = Vec::new();
    for _ in 0..9 {
        nine.push(column("c", SqlType::Bool, false, true));
    }
    assert_eq!(bitmap_size(&nine), 2);
    assert_eq!(row_size(&nine), 12);
    assert_eq!(clone_columns(&nine), nine);
}

#[test]
fn rows_are_encoded_bit_exact() {
    let t = table();
    assert_eq!(
        t.encode_row(&vec![Value::Int(1), Value::Char("ab".into()), Value::Bool(true)]).unwrap(),
        r1()
    );
    assert_eq!(t.encode_row(&vec![Value::Int(-2), Value::Null, Value::Bool(false)]).unwrap(), r2());
    assert_eq!(
        t.encode_row(&vec![Value::Int(3), Value::Char("hello".into()), Value::Null]).unwrap(),
        r3()
    );
    assert_eq!(
        t.encode_row(&vec![Value::Int(0), Value::Null, Value::Null]).unwrap(),
        vec![1, 3, 0, 0, 0, 0, 0, 0, 0, 0, 0, 0, 0]
    );
}

#[test]
fn rows_round_trip() {
    let t = table();
    for values in [
        vec![Value::Int(1), Value::Char("ab".into()), Value::Bool(true)],
        vec![Value::Int(-2), Value::Null, Value::Bool(false)],
        vec![Value::Int(i32::MIN), Value::Char(String::new()), Value::Null],
        vec![Value::Int(i32::MAX), Value::Null, Value::Null],
    ] {
        let row = t.encode_row(&values).unwrap();
        assert_eq!(row.len(), 13);
        assert_eq!(t.decode_row(&row).unwrap(), values);
    }
}

#[test]
fn rows_with_many_nullable_columns_round_trip() {
    let mut cols = vec![column("id", SqlType::Int, true, false)];
    for _ in 0..11 {
        cols.push(column("c", SqlType::Bool, false, true));
    }
    let t = Table::new("t".into(), cols, EngineID::FlatFile).unwrap();
    let mut values = vec![Value::Int(5)];
    for i in 0..11 {
        values.push(if i % 3 == 0 { Value::Null } else { Value::Bool(i % 2 == 0) });
    }
    let row = t.encode_row(&values).unwrap();
    // slots 0, 3, 6 and 9 are null
    assert_eq!(&row[..3], &[1, 0b0100_1001, 0b0000_0010]);
    assert_eq!(t.decode_row(&row).unwrap(), values);
}

#[test]
fn rows_that_cannot_be_encoded() {
    let t = table();
    assert!(matches!(t.encode_row(&vec![Value::Int(1)]), Err(Error::WrongLength)));
    assert!(matches!(
        t.encode_row(&vec![Value::Null, Value::Null, Value::Null]),
        Err(Error::InvalidType)
    ));
    assert!(matches!(
        t.encode_row(&vec![Value::Int(1), Value::Char("toolong".into()), Value::Null]),
        Err(Error::WrongLength)
    ));
    assert!(matches!(
        t.encode_row(&vec![Value::Int(1), Value::Bool(true), Value::Char("toolong".into())]),
        Err(Error::InvalidType)
    ));
}

#[test]
fn rows_that_cannot_be_decoded() {
    let t = table();
    assert!(matches!(t.decode_row(&r1()[..12]), Err(Error::InterruptedRead)));
    let mut long = r1();
    long.push(0);
    assert!(matches!(t.decode_row(&long), Err(Error::WrongLength)));
    let mut bad_flag = r1();
    bad_flag[12] = 7;
    assert!(matches!(t.decode_row(&bad_flag), Err(Error::InvalidType)));
    let mut bad_len = r1();
    bad_len[6] = 6;
    assert!(matches!(t.decode_row(&bad_len), Err(Error::WrongLength)));
    let mut bad_text = r1();
    bad_text[7] = 0xFF;
    assert!(matches!(t.decode_row(&bad_text), Err(Error::Utf8Error(_))));
    // a field that is marked as null is not looked at
    bad_flag[1] = 2;
    assert_eq!(
        t.decode_row(&bad_flag).unwrap(),
        vec![Value::Int(1), Value::Char("ab".into()), Value::Null]
    );
}

#[test]
fn a_table_must_be_created_before_it_is_used() {
    let mut engine = FlatFile::new(table());
    assert!(!engine.has_file());
    assert!(matches!(engine.full_scan(), Err(Error::Engine)));
    assert!(matches!(engine.lookup(0, (&be(1), None), CompType::Equ), Err(Error::Engine)));
    assert!(matches!(engine.insert_row(&r1()), Err(Error::Engine)));
    assert!(matches!(engine.delete(0, (&be(1), None), CompType::Equ), Err(Error::Engine)));
    assert!(matches!(engine.modify(0, (&be(1), None), CompType::Equ, &[]), Err(Error::Engine)));
    assert!(matches!(engine.reorganize(), Err(Error::Engine)));
    assert!(matches!(engine.reset(), Err(Error::Engine)));
    assert!(engine.create_table().is_ok());
    assert!(engine.has_file());
    assert!(matches!(engine.create_table(), Err(Error::Engine)));
    assert_eq!(all_rows(engine.full_scan().unwrap()), Vec::<Vec<u8>>::new());
    assert_eq!(engine.table().name(), "people");
    assert_eq!(engine.to_bytes(), vec![0x75, 0x53, 0x51, 0x4c]);
}

#[test]
fn full_scan_gives_the_rows_in_their_order() {
    let engine = filled();
    let rows = engine.full_scan().unwrap();
    assert_eq!(rows.len(), 3);
    assert!(!rows.data_empty());
    assert!(!rows.metadata_empty());
    assert_eq!(rows.columns(), &columns());
    assert_eq!(all_rows(rows), vec![r1(), r2(), r3()]);
    assert_eq!(engine.record_count(), 3);
}

#[test]
fn inserting_a_primary_key_twice_is_refused_and_changes_nothing() {
    let mut engine = filled();
    let before = engine.to_bytes();
    let mut again = r3();
    again[12] = 1;
    again[1] = 0;
    assert!(matches!(engine.insert_row(&again), Err(Error::PrimaryKeyValueExists)));
    assert_eq!(engine.record_count(), 3);
    assert_eq!(engine.to_bytes(), before);
    assert_eq!(engine.full_scan().unwrap().len(), 3);
}

#[test]
fn inserting_rows_that_are_refused() {
    let mut engine = filled();
    assert!(matches!(engine.insert_row(&r1()[..12]), Err(Error::WrongLength)));
    assert!(matches!(engine.insert_row(&[]), Err(Error::WrongLength)));
    let none = Table::new(
        "t".into(),
        vec![column("a", SqlType::Int, false, false)],
        EngineID::FlatFile,
    )
    .unwrap();
    let mut engine = FlatFile::new(none);
    engine.create_table().unwrap();
    assert!(matches!(engine.insert_row(&[1, 0, 0, 0, 1]), Err(Error::MissingPrimaryKey)));
    assert_eq!(engine.record_count(), 0);
}

#[test]
fn an_inserted_row_is_stored_as_live() {
    let mut engine = FlatFile::new(table());
    engine.create_table().unwrap();
    let mut row = r1();
    row[0] = 0;
    assert_eq!(engine.insert_row(&row).unwrap(), 0);
    assert_eq!(all_rows(engine.full_scan().unwrap()), vec![r1()]);
}

#[test]
fn lookup_with_every_operator() {
    let engine = filled();
    let cases = [
        (CompType::Equ, vec![r1()]),
        (CompType::NEqu, vec![r2(), r3()]),
        (CompType::GThan, vec![r3()]),
        (CompType::SThan, vec![r2()]),
        (CompType::GEThan, vec![r1(), r3()]),
        (CompType::SEThan, vec![r1(), r2()]),
    ];
    for (comp, expected) in cases {
        let rows = engine.lookup(0, (&be(1), None), comp).unwrap();
        assert_eq!(rows.len(), expected.len());
        assert_eq!(all_rows(rows), expected);
    }
}

#[test]
fn lookup_on_text_and_truth_values() {
    let engine = filled();
    assert_eq!(all_rows(engine.lookup(1, (b"ab", None), CompType::Equ).unwrap()), vec![r1()]);
    assert_eq!(all_rows(engine.lookup(1, (b"abXYZ", Some(2)), CompType::Equ).unwrap()), vec![r1()]);
    assert_eq!(all_rows(engine.lookup(1, (b"ab", None), CompType::GThan).unwrap()), vec![r3()]);
    assert_eq!(all_rows(engine.lookup(1, (b"", Some(0)), CompType::GEThan).unwrap()), vec![r1(), r3()]);
    // a row whose value is null meets no condition
    assert_eq!(all_rows(engine.lookup(1, (b"ab", None), CompType::NEqu).unwrap()), vec![r3()]);
    assert_eq!(all_rows(engine.lookup(2, (&[1], None), CompType::Equ).unwrap()), vec![r1()]);
    assert_eq!(all_rows(engine.lookup(2, (&[1], None), CompType::SThan).unwrap()), vec![r2()]);
    assert_eq!(all_rows(engine.lookup(2, (&[9], None), CompType::GThan).unwrap()), Vec::<Vec<u8>>::new());
}

#[test]
fn lookup_conditions_that_cannot_be_tested() {
    let engine = filled();
    assert!(matches!(engine.lookup(3, (&be(1), None), CompType::Equ), Err(Error::InvalidColumn)));
    assert!(matches!(engine.lookup(0, (&be(1), Some(5)), CompType::Equ), Err(Error::OutOfBounds)));
    assert!(matches!(engine.lookup(0, (&[1], None), CompType::Equ), Err(Error::WrongLength)));
    assert!(matches!(engine.lookup(0, (&be(1), Some(3)), CompType::Equ), Err(Error::WrongLength)));
    assert!(matches!(engine.lookup(2, (&[1, 0], None), CompType::Equ), Err(Error::WrongLength)));
    assert!(matches!(engine.lookup(9, (&[1], Some(9)), CompType::Equ), Err(Error::InvalidColumn)));
    assert_eq!(operand((&[1, 2, 3], Some(2))).unwrap(), &[1, 2]);
    assert_eq!(operand((&[1, 2, 3], None)).unwrap(), &[1, 2, 3]);
    assert!(matches!(operand((&[1, 2, 3], Some(4))), Err(Error::OutOfBounds)));
}

#[test]
fn delete_leaves_the_rows_that_do_not_match() {
    let mut engine = filled();
    assert_eq!(engine.delete(0, (&be(1), None), CompType::GEThan).unwrap(), 2);
    let rows = engine.full_scan().unwrap();
    assert_eq!(rows.len(), 3 - 2);
    assert_eq!(all_rows(rows), vec![r2()]);
    assert_eq!(engine.lookup(0, (&be(1), None), CompType::GEThan).unwrap().len(), 0);
    // the deleted rows keep their place until the file is reorganized
    assert_eq!(engine.record_count(), 3);
    let mut expected = vec![0x75, 0x53, 0x51, 0x4c];
    let mut gone = r1();
    gone[0] = 0;
    expected.extend_from_slice(&gone);
    expected.extend_from_slice(&r2());
    let mut gone = r3();
    gone[0] = 0;
    expected.extend_from_slice(&gone);
    assert_eq!(engine.to_bytes(), expected);
    // deleting again finds nothing
    assert_eq!(engine.delete(0, (&be(1), None), CompType::GEThan).unwrap(), 0);
    assert_eq!(engine.to_bytes(), expected);
}

#[test]
fn delete_conditions_that_cannot_be_tested() {
    let mut engine = filled();
    let before = engine.to_bytes();
    assert!(matches!(engine.delete(7, (&be(1), None), CompType::Equ), Err(Error::InvalidColumn)));
    assert!(matches!(engine.delete(0, (&[], None), CompType::Equ), Err(Error::WrongLength)));
    assert!(matches!(engine.delete(1, (b"a", Some(2)), CompType::Equ), Err(Error::OutOfBounds)));
    assert_eq!(engine.to_bytes(), before);
}

#[test]
fn a_deleted_primary_key_can_be_inserted_again() {
    let mut engine = filled();
    assert_eq!(engine.delete(0, (&be(3), None), CompType::Equ).unwrap(), 1);
    assert_eq!(engine.insert_row(&r3()).unwrap(), 39);
    assert_eq!(all_rows(engine.full_scan().unwrap()), vec![r1(), r2(), r3()]);
    assert_eq!(engine.record_count(), 4);
}

#[test]
fn reorganize_keeps_the_live_rows_and_drops_the_deleted() {
    let mut engine = filled();
    engine.delete(0, (&be(1), None), CompType::Equ).unwrap();
    let before = all_rows(engine.full_scan().unwrap());
    assert_eq!(engine.record_count(), 3);
    engine.reorganize().unwrap();
    assert_eq!(all_rows(engine.full_scan().unwrap()), before);
    assert_eq!(before, vec![r2(), r3()]);
    assert_eq!(engine.record_count(), 2);
    let mut expected = vec![0x75, 0x53, 0x51, 0x4c];
    expected.extend_from_slice(&r2());
    expected.extend_from_slice(&r3());
    assert_eq!(engine.to_bytes(), expected);
    // the identifier of the next row is counted from the new file
    assert_eq!(engine.insert_row(&r1()).unwrap(), 26);
    engine.reorganize().unwrap();
    assert_eq!(engine.record_count(), 3);
}

#[test]
fn modify_writes_the_values_into_the_matching_rows() {
    let mut engine = filled();
    let field: &[u8] = &[0];
    assert_eq!(engine.modify(0, (&be(1), None), CompType::Equ, &[(2, field)]).unwrap(), 1);
    let mut changed = r1();
    changed[12] = 0;
    assert_eq!(all_rows(engine.full_scan().unwrap()), vec![changed.clone(), r2(), r3()]);

    // a value for a column that was null clears the null bit
    let name: &[u8] = &[2, 120, 121, 0, 0, 0];
    let flag: &[u8] = &[1];
    assert_eq!(
        engine.modify(1, (b"zz", None), CompType::SThan, &[(1, name), (2, flag)]).unwrap(),
        2
    );
    assert_eq!(
        all_rows(engine.full_scan().unwrap()),
        vec![
            vec![1, 0, 0, 0, 0, 1, 2, 120, 121, 0, 0, 0, 1],
            r2(),
            vec![1, 0, 0, 0, 0, 3, 2, 120, 121, 0, 0, 0, 1],
        ]
    );
    assert_eq!(engine.record_count(), 3);
    // without values the rows are counted and left as they are
    let before = engine.to_bytes();
    assert_eq!(engine.modify(0, (&be(0), None), CompType::NEqu, &[]).unwrap(), 3);
    assert_eq!(engine.to_bytes(), before);
}

#[test]
fn modify_applies_the_values_in_their_order() {
    let mut engine = filled();
    let first: &[u8] = &[0];
    let second: &[u8] = &[1];
    engine.modify(0, (&be(3), None), CompType::Equ, &[(2, first), (2, second)]).unwrap();
    assert_eq!(
        all_rows(engine.lookup(0, (&be(3), None), CompType::Equ).unwrap()),
        vec![vec![1, 0, 0, 0, 0, 3, 5, 104, 101, 108, 108, 111, 1]]
    );
}

#[test]
fn modify_values_that_cannot_be_written() {
    let mut engine = filled();
    let before = engine.to_bytes();
    let flag: &[u8] = &[1];
    let wide: &[u8] = &[1, 1];
    assert!(matches!(
        engine.modify(0, (&be(1), None), CompType::Equ, &[(3, flag)]),
        Err(Error::InvalidColumn)
    ));
    assert!(matches!(
        engine.modify(0, (&be(1), None), CompType::Equ, &[(2, wide)]),
        Err(Error::WrongLength)
    ));
    assert!(matches!(
        engine.modify(0, (&be(1), None), CompType::Equ, &[(2, wide), (9, flag)]),
        Err(Error::InvalidColumn)
    ));
    assert!(matches!(
        engine.modify(5, (&be(1), None), CompType::Equ, &[(2, flag)]),
        Err(Error::InvalidColumn)
    ));
    assert!(matches!(
        engine.modify(0, (&[1], None), CompType::Equ, &[(9, flag)]),
        Err(Error::WrongLength)
    ));
    assert_eq!(engine.to_bytes(), before);
    assert!(check_values(&columns(), &[(2, flag), (0, &be(4))]).is_ok());
    assert_eq!(
        patch_row(&columns(), &r2(), &[(0, &be(4)), (1, &[1, 65, 0, 0, 0, 0])]),
        vec![1, 0, 0, 0, 0, 4, 1, 65, 0, 0, 0, 0, 0]
    );
}

#[test]
fn reset_removes_every_row() {
    let mut engine = filled();
    engine.delete(0, (&be(1), None), CompType::Equ).unwrap();
    engine.reset().unwrap();
    assert_eq!(engine.record_count(), 0);
    assert_eq!(engine.full_scan().unwrap().len(), 0);
    assert_eq!(engine.to_bytes(), vec![0x75, 0x53, 0x51, 0x4c]);
    assert_eq!(engine.insert_row(&r1()).unwrap(), 0);
}

#[test]
fn a_file_is_opened_from_its_bytes() {
    let mut engine = filled();
    engine.delete(0, (&be(-2), None), CompType::Equ).unwrap();
    let image = engine.to_bytes();
    assert_eq!(image.len(), HEADER_LEN + 3 * 13);
    let mut opened = FlatFile::open(table(), &image).unwrap();
    assert_eq!(opened.record_count(), 3);
    assert_eq!(all_rows(opened.full_scan().unwrap()), vec![r1(), r3()]);
    assert_eq!(opened.to_bytes(), image);
    assert!(matches!(opened.create_table(), Err(Error::Engine)));
    assert!(matches!(opened.insert_row(&r1()), Err(Error::PrimaryKeyValueExists)));
    assert_eq!(opened.insert_row(&r2()).unwrap(), 39);
}

#[test]
fn files_that_cannot_be_opened() {
    assert!(matches!(FlatFile::open(table(), &[]), Err(Error::EndOfFile)));
    assert!(matches!(FlatFile::open(table(), &[0x75, 0x53, 0x51]), Err(Error::EndOfFile)));
    assert!(matches!(
        FlatFile::open(table(), &[0x75, 0x53, 0x51, 0x4d]),
        Err(Error::WrongMagicNmbr)
    ));
    let mut image = filled().to_bytes();
    image.pop();
    assert!(matches!(FlatFile::open(table(), &image), Err(Error::WrongLength)));
    assert!(FlatFile::open(table(), &[0x75, 0x53, 0x51, 0x4c]).is_ok());
}

#[test]
fn a_cursor_moves_forward_only() {
    let mut data = r1();
    data.extend_from_slice(&r2());
    let mut rows = Rows::new(columns(), data.clone()).unwrap();
    assert_eq!(rows.len(), 2);
    assert!(rows.current().is_none());
    assert!(matches!(rows.get_value(0), Err(Error::BeginningOfFile)));
    assert!(rows.next());
    assert_eq!(rows.current().unwrap(), &r1()[..]);
    assert_eq!(rows.get_value(0).unwrap(), Value::Int(1));
    assert_eq!(rows.get_value(1).unwrap(), Value::Char("ab".into()));
    assert_eq!(rows.get_value(2).unwrap(), Value::Bool(true));
    assert!(matches!(rows.get_value(3), Err(Error::InvalidColumn)));
    assert!(rows.next());
    assert_eq!(rows.get_value(0).unwrap(), Value::Int(-2));
    assert_eq!(rows.get_value(1).unwrap(), Value::Null);
    assert!(!rows.next());
    assert!(!rows.next());
    assert_eq!(rows.current().unwrap(), &r2()[..]);
    let set = rows.into_result_set();
    assert_eq!(set.data, data);
    assert_eq!(set.columns, columns());
}

#[test]
fn a_cursor_needs_whole_rows() {
    assert!(matches!(Rows::new(columns(), vec![1, 2, 3]), Err(Error::WrongLength)));
    let mut many = Vec::new();
    for _ in 0..=MAX_COLUMNS {
        many.push(column("c", SqlType::Bool, false, false));
    }
    assert!(matches!(Rows::new(many.clone(), vec![]), Err(Error::OutOfBounds)));
    let empty = Rows::new(columns(), vec![]).unwrap();
    assert!(empty.data_empty());
    assert!(!empty.metadata_empty());
    let none = Rows::new(vec![], vec![]).unwrap();
    assert!(none.data_empty());
    assert!(none.metadata_empty());

    let mut data = r1();
    data.extend_from_slice(&[1, 2, 3]);
    let whole = Rows::whole(columns(), data);
    assert_eq!(whole.len(), 1);
    assert_eq!(whole.surplus(), 3);
    assert_eq!(all_rows(whole), vec![r1()]);
    let nothing = Rows::whole(many.clone(), vec![1, 1]);
    assert!(nothing.data_empty());
    assert!(!nothing.metadata_empty());
    assert_eq!(nothing.columns(), &many);
    assert_eq!(nothing.surplus(), 2);
    assert!(nothing.current().is_none());
    assert!(matches!(nothing.get_value(0), Err(Error::BeginningOfFile)));
    assert_eq!(Rows::new(columns(), r1()).unwrap().surplus(), 0);
}

#[test]
fn a_cursor_reports_fields_that_hold_no_value() {
    let mut row = r1();
    row[12] = 5;
    let mut rows = Rows::new(columns(), row).unwrap();
    rows.next();
    assert!(matches!(rows.get_value(2), Err(Error::InvalidType)));
    assert_eq!(rows.get_value(0).unwrap(), Value::Int(1));
}

#[test]
fn a_database_holds_each_table_under_its_name() {
    let mut db = Database::new("main".into());
    assert_eq!(db.name(), "main");
    assert!(matches!(db.table("people"), Err(Error::LoadDataBase)));
    assert!(db.add_table(table()).is_ok());
    assert!(matches!(db.add_table(table()), Err(Error::InvalidState)));
    let other = Table::new("other".into(), vec![], EngineID::BStar).unwrap();
    assert!(db.add_table(other).is_ok());
    assert_eq!(db.find_table("people"), Some(0));
    assert_eq!(db.find_table("other"), Some(1));
    assert_eq!(db.find_table("none"), None);
    assert_eq!(db.table("other").unwrap().engine_id(), EngineID::BStar);
    assert_eq!(db.table("people").unwrap().column_count(), 3);
}

#[test]
fn identifiers_hold_until_the_file_is_reorganized() {
    let mut engine = filled();
    assert_eq!(engine.generation(), 0);
    assert_eq!(engine.row_by_id(0, 0).unwrap(), &r1()[..]);
    assert_eq!(engine.row_by_id(13, 0).unwrap(), &r2()[..]);
    assert_eq!(engine.row_by_id(26, 0).unwrap(), &r3()[..]);
    assert!(matches!(engine.row_by_id(39, 0), Err(Error::OutOfBounds)));
    assert!(matches!(engine.row_by_id(5, 0), Err(Error::OutOfBounds)));
    assert!(matches!(engine.row_by_id(u64::MAX, 0), Err(Error::OutOfBounds)));
    assert!(matches!(engine.row_by_id(0, 1), Err(Error::InvalidState)));

    engine.delete(0, (&be(1), None), CompType::Equ).unwrap();
    assert_eq!(engine.generation(), 0);
    // a deleted row is still at its place, with the marker of a deleted row
    assert_eq!(engine.row_by_id(0, 0).unwrap()[0], 0);

    engine.reorganize().unwrap();
    assert_eq!(engine.generation(), 1);
    assert!(matches!(engine.row_by_id(13, 0), Err(Error::InvalidState)));
    assert_eq!(engine.row_by_id(13, 1).unwrap(), &r3()[..]);
    assert_eq!(engine.row_by_id(0, 1).unwrap(), &r2()[..]);
    assert!(matches!(engine.row_by_id(26, 1), Err(Error::OutOfBounds)));
}
