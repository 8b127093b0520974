use uosql::net::types::preprocess;
use uosql::storage::{Column, ResultSet, SqlType};
use uosql::webclient::{display_data_html, display_html, display_meta_html, push_bool, push_int};

fn columns() -> Vec<Column> {
    vec![
        Column {
            name: "id".into(),
            sql_type: SqlType::Int,
            is_primary_key: true,
            allow_null: false,
            description: "key".into(),
        },
        Column {
            name: "name".into(),
            sql_type: SqlType::Char(5),
            is_primary_key: false,
            allow_null: true,
            description: String::new(),
        },
        Column {
            name: "ok".into(),
            sql_type: SqlType::Bool,
            is_primary_key: false,
            allow_null: true,
            description: "a flag".into(),
        },
    ]
}

fn data() -> Vec<u8> {
    vec![
        1, 0, 0, 0, 0, 7, 2, b'h', b'i', 0, 0, 0, 1, // 7, "hi", true
        1, 3, 0xFF, 0xFF, 0xFF, 0xFE, 0, 0, 0, 0, 0, 0, 0, // -2, null, null
        1, 0, 0, 0, 0, 0, 0, 0, 0, 0, 0, 0, 0, // 0, "", false
    ]
}

const META: &str = "<table id=\"t01\"><caption>Results</caption>\
<tr><th>Column name</th><th>id</th><th>name</th><th>ok</th></tr>\
<tr><td>Type</td><td>int</td><td>Char(5)</td><td>bool</td></tr>\
<tr><td>Primary</td><td>true</td><td>false</td><td>false</td></tr>\
<tr><td>Allow NULL</td><td>false</td><td>true</td><td>true</td></tr>\
<tr><td>Description</td><td>key</td><td></td><td>a flag</td></tr></table>";

const DATA: &str = "<table id=\"t01\"><caption>Results</caption>\
<th>id</th><th>name</th><th>ok</th></tr>\
<td>7</td><td>hi</td><td>true</td></tr>\
<td>-2</td><td>none</td><td>none</td></tr>\
<td>0</td><td></td><td>false</td></tr></table>";

#[test]
fn numbers_and_truth_values_as_text() {
    for v in [0, 7, 10, 99, 100, 12345, -1, -10, i32::MAX, i32::MIN] {
        let mut out = String::from("x");
        push_int(&mut out, v);
        assert_eq!(out, format!("x{}", v));
    }
    let mut out = String::new();
    push_bool(&mut out, true);
    push_bool(&mut out, false);
    assert_eq!(out, "truefalse");
}

#[test]
fn a_result_without_rows_and_columns_shows_nothing() {
    let mut set = preprocess(&ResultSet { data: vec![], columns: vec![] });
    assert_eq!(display_html(&mut set), "");
}

#[test]
fn a_result_without_rows_shows_its_columns() {
    let mut set = preprocess(&ResultSet { data: vec![], columns: columns() });
    assert_eq!(display_html(&mut set), META);
    assert_eq!(display_meta_html(&set), META);
    let wide = vec![Column {
        name: "t".into(),
        sql_type: SqlType::Char(255),
        is_primary_key: false,
        allow_null: false,
        description: "d".into(),
    }];
    let set = preprocess(&ResultSet { data: vec![], columns: wide });
    assert!(display_meta_html(&set).contains("<td>Char(255)</td>"));
}

#[test]
fn a_result_with_rows_shows_them() {
    let mut set = preprocess(&ResultSet { data: data(), columns: columns() });
    assert_eq!(display_html(&mut set), DATA);
    // the cursor has moved over all rows
    assert!(!set.next());
    assert_eq!(
        display_data_html(&mut set),
        "<table id=\"t01\"><caption>Results</caption><th>id</th><th>name</th><th>ok</th></tr></table>"
    );
}

#[test]
fn rows_before_the_cursor_are_not_shown() {
    let mut set = preprocess(&ResultSet { data: data(), columns: columns() });
    assert!(set.next());
    assert!(set.next());
    assert_eq!(
        display_html(&mut set),
        "<table id=\"t01\"><caption>Results</caption><th>id</th><th>name</th><th>ok</th></tr>\
<td>0</td><td></td><td>false</td></tr></table>"
    );
}

#[test]
fn fields_that_hold_no_value_are_shown_as_none() {
    let mut bytes = data();
    bytes[12] = 9; // no truth value
    bytes[7] = 0xFF; // no text
    let mut set = preprocess(&ResultSet { data: bytes, columns: columns() });
    let shown = display_html(&mut set);
    assert!(shown.contains("<td>7</td><td>none</td><td>none</td></tr>"));
}
