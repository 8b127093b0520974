//! Results as html tables, for the web client.

use crate::net::types::DataSet;
use crate::storage::row::value_at;
use crate::storage::types::{Column, SqlType, ValueView};
use vstd::prelude::*;

verus! {

/// The character of a decimal digit.
pub open spec fn digit(d: nat) -> char {
    if d == 0 {
        '0'
    } else if d == 1 {
        '1'
    } else if d == 2 {
        '2'
    } else if d == 3 {
        '3'
    } else if d == 4 {
        '4'
    } else if d == 5 {
        '5'
    } else if d == 6 {
        '6'
    } else if d == 7 {
        '7'
    } else if d == 8 {
        '8'
    } else {
        '9'
    }
}

/// A natural number in decimal digits, without leading zeros.
pub open spec fn decimal(n: nat) -> Seq<char>
    decreases n,
{
    if n < 10 {
        seq![digit(n)]
    } else {
        decimal(n / 10).push(digit(n % 10))
    }
}

/// An integer in decimal digits, with a minus sign where it is negative.
pub open spec fn int_text(v: int) -> Seq<char> {
    if v < 0 {
        seq!['-'] + decimal((-v) as nat)
    } else {
        decimal(v as nat)
    }
}

/// A truth value as a word.
pub open spec fn bool_text(b: bool) -> Seq<char> {
    if b {
        "true"@
    } else {
        "false"@
    }
}

/// One decimal digit as a text.
fn digit_str(d: u32) -> (s: &'static str)
    requires
        d < 10,
    ensures
        s@ == seq![digit(d as nat)],
{
    proof {
        reveal_strlit("0");
        reveal_strlit("1");
        reveal_strlit("2");
        reveal_strlit("3");
        reveal_strlit("4");
        reveal_strlit("5");
        reveal_strlit("6");
        reveal_strlit("7");
        reveal_strlit("8");
        reveal_strlit("9");
    }
    let s = match d {
        0 => "0",
        1 => "1",
        2 => "2",
        3 => "3",
        4 => "4",
        5 => "5",
        6 => "6",
        7 => "7",
        8 => "8",
        _ => "9",
    };
    assert(s@ =~= seq![digit(d as nat)]);
    s
}

/// Appends a natural number in decimal digits.
fn push_decimal(out: &mut String, n: u32)
    ensures
        final(out)@ == old(out)@ + decimal(n as nat),
    decreases n,
{
    if n >= 10 {
        push_decimal(out, n / 10);
    }
    out.append(digit_str(n % 10));
    assert(out@ =~= old(out)@ + decimal(n as nat));
}

/// Appends an integer in decimal digits.
pub fn push_int(out: &mut String, v: i32)
    ensures
        final(out)@ == old(out)@ + int_text(v as int),
{
    if v < 0 {
        proof {
            reveal_strlit("-");
        }
        out.append("-");
        push_decimal(out, (-(v as i64)) as u32);
        assert(out@ =~= old(out)@ + int_text(v as int));
    } else {
        push_decimal(out, v as u32);
    }
}

/// Appends a truth value as a word.
pub fn push_bool(out: &mut String, b: bool)
    ensures
        final(out)@ == old(out)@ + bool_text(b),
{
    if b {
        out.append("true");
    } else {
        out.append("false");
    }
}

/// What a row of the table of columns tells of every column.
#[derive(Clone, Copy, Debug, PartialEq, Eq, Structural)]
pub enum Aspect {
    Name,
    Type,
    Primary,
    Null,
    Description,
}

/// A column type as it is shown.
pub open spec fn type_text(t: SqlType) -> Seq<char> {
    match t {
        SqlType::Int => "int"@,
        SqlType::Bool => "bool"@,
        SqlType::Char(p) => "Char("@ + decimal(p as nat) + ")"@,
    }
}

/// What is shown of a column under an aspect.
pub open spec fn aspect_text(c: Column, a: Aspect) -> Seq<char> {
    match a {
        Aspect::Name => c.name@,
        Aspect::Type => type_text(c.sql_type),
        Aspect::Primary => bool_text(c.is_primary_key),
        Aspect::Null => bool_text(c.allow_null),
        Aspect::Description => c.description@,
    }
}

/// The cells of the first `i` columns under an aspect: header cells for the
/// names, data cells for everything else.
pub open spec fn aspect_cells(cols: Seq<Column>, a: Aspect, i: int) -> Seq<char>
    decreases i,
{
    if i <= 0 {
        Seq::empty()
    } else if a is Name {
        aspect_cells(cols, a, i - 1) + "<th>"@ + aspect_text(cols[i - 1], a) + "</th>"@
    } else {
        aspect_cells(cols, a, i - 1) + "<td>"@ + aspect_text(cols[i - 1], a) + "</td>"@
    }
}

/// The table that describes the columns of a result without rows.
pub open spec fn meta_html(cols: Seq<Column>) -> Seq<char> {
    "<table id=\"t01\"><caption>Results</caption>"@ + "<tr><th>Column name</th>"@ + aspect_cells(
        cols,
        Aspect::Name,
        cols.len() as int,
    ) + "</tr>"@ + "<tr><td>Type</td>"@ + aspect_cells(cols, Aspect::Type, cols.len() as int)
        + "</tr>"@ + "<tr><td>Primary</td>"@ + aspect_cells(
        cols,
        Aspect::Primary,
        cols.len() as int,
    ) + "</tr>"@ + "<tr><td>Allow NULL</td>"@ + aspect_cells(cols, Aspect::Null, cols.len() as int)
        + "</tr>"@ + "<tr><td>Description</td>"@ + aspect_cells(
        cols,
        Aspect::Description,
        cols.len() as int,
    ) + "</tr>"@ + "</table>"@
}

/// What is shown of the value of column `i` in a row: the value as a text,
/// or `none` where the row holds no value of the column's type there.
pub open spec fn value_text(cols: Seq<Column>, row: Seq<u8>, i: int) -> Seq<char> {
    match cols[i].sql_type {
        SqlType::Int => match value_at(cols, row, i) {
            Some(ValueView::Int(v)) => int_text(v as int),
            _ => "none"@,
        },
        SqlType::Bool => match value_at(cols, row, i) {
            Some(ValueView::Bool(b)) => bool_text(b),
            _ => "none"@,
        },
        SqlType::Char(_) => match value_at(cols, row, i) {
            Some(ValueView::Char(t)) => t,
            _ => "none"@,
        },
    }
}

/// The cells of the first `i` columns of a row.
pub open spec fn row_cells(cols: Seq<Column>, row: Seq<u8>, i: int) -> Seq<char>
    decreases i,
{
    if i <= 0 {
        Seq::empty()
    } else {
        row_cells(cols, row, i - 1) + "<td>"@ + value_text(cols, row, i - 1) + "</td>"@
    }
}

/// The table rows of the rows from `from` up to `to`.
pub open spec fn rows_html(cols: Seq<Column>, rows: Seq<Seq<u8>>, from: int, to: int) -> Seq<char>
    decreases to - from,
{
    if to <= from {
        Seq::empty()
    } else {
        rows_html(cols, rows, from, to - 1) + row_cells(cols, rows[to - 1], cols.len() as int)
            + "</tr>"@
    }
}

/// The table that shows the rows of a result from `from` on, under the names
/// of the columns.
pub open spec fn data_html(cols: Seq<Column>, rows: Seq<Seq<u8>>, from: int) -> Seq<char> {
    "<table id=\"t01\"><caption>Results</caption>"@ + aspect_cells(
        cols,
        Aspect::Name,
        cols.len() as int,
    ) + "</tr>"@ + rows_html(cols, rows, from, rows.len() as int) + "</table>"@
}

/// What is shown of a result: nothing where it has neither rows nor columns,
/// the description of its columns where it has no rows, and else its rows
/// from the position of the cursor on.
pub open spec fn html(table: DataSet) -> Seq<char> {
    if table.cursor().rows().len() == 0 && table.cursor().cols().len() == 0 {
        Seq::empty()
    } else if table.cursor().rows().len() == 0 {
        meta_html(table.cursor().cols())
    } else {
        data_html(table.cursor().cols(), table.cursor().rows(), table.cursor().position() as int)
    }
}

/// Appends what is shown of column `i` under an aspect.
fn push_aspect(out: &mut String, table: &DataSet, a: Aspect, i: usize)
    requires
        i < table.cursor().cols().len(),
    ensures
        final(out)@ == old(out)@ + aspect_text(table.cursor().cols()[i as int], a),
{
    match a {
        Aspect::Name => {
            out.append(table.get_col_name(i).unwrap_or("none"));
        },
        Aspect::Type => {
            match table.get_type_by_idx(i) {
                Some(n) => match n {
                    SqlType::Int => {
                        out.append("int");
                    },
                    SqlType::Bool => {
                        out.append("bool");
                    },
                    SqlType::Char(p) => {
                        out.append("Char(");
                        push_decimal(out, p as u32);
                        out.append(")");
                        assert(out@ =~= old(out)@ + type_text(n));
                    },
                },
                None => {
                    out.append("none");
                },
            }
        },
        Aspect::Primary => {
            match table.get_is_primary_key_by_idx(i) {
                Some(n) => push_bool(out, n),
                None => {
                    out.append("none");
                },
            }
        },
        Aspect::Null => {
            match table.get_allow_null_by_idx(i) {
                Some(n) => push_bool(out, n),
                None => {
                    out.append("none");
                },
            }
        },
        Aspect::Description => {
            out.append(table.get_description_by_idx(i).unwrap_or("none"));
        },
    }
}

/// Appends the cells of all columns under an aspect.
fn push_aspect_cells(out: &mut String, table: &DataSet, a: Aspect)
    ensures
        final(out)@ == old(out)@ + aspect_cells(
            table.cursor().cols(),
            a,
            table.cursor().cols().len() as int,
        ),
{
    let cols = table.get_col_cnt();
    let mut i: usize = 0;
    assert(out@ =~= old(out)@ + aspect_cells(table.cursor().cols(), a, 0));
    while i < cols
        invariant
            i <= cols == table.cursor().cols().len(),
            out@ == old(out)@ + aspect_cells(table.cursor().cols(), a, i as int),
        decreases cols - i,
    {
        let ghost before = out@;
        match a {
            Aspect::Name => {
                out.append("<th>");
                push_aspect(out, table, a, i);
                out.append("</th>");
            },
            _ => {
                out.append("<td>");
                push_aspect(out, table, a, i);
                out.append("</td>");
            },
        }
        i = i + 1;
        assert(out@ =~= old(out)@ + aspect_cells(table.cursor().cols(), a, i as int));
    }
}

/// Fill table with meta data
/// returns the data in a String with html syntax
pub fn display_meta_html(table: &DataSet) -> (result: String)
    ensures
        result@ == meta_html(table.cursor().cols()),
{
    let mut result = String::from_str("<table id=\"t01\"><caption>Results</caption>");

    // First table row with column names
    result.append("<tr><th>Column name</th>");
    push_aspect_cells(&mut result, table, Aspect::Name);
    result.append("</tr>");

    // Second table row (Type)
    result.append("<tr><td>Type</td>");
    push_aspect_cells(&mut result, table, Aspect::Type);
    result.append("</tr>");

    // Third table row (Primary Key)
    result.append("<tr><td>Primary</td>");
    push_aspect_cells(&mut result, table, Aspect::Primary);
    result.append("</tr>");

    // Fourth table row (Allow null)
    result.append("<tr><td>Allow NULL</td>");
    push_aspect_cells(&mut result, table, Aspect::Null);
    result.append("</tr>");

    // Fifth table row (Description)
    result.append("<tr><td>Description</td>");
    push_aspect_cells(&mut result, table, Aspect::Description);
    result.append("</tr>");
    // End table
    result.append("</table>");
    result
}

/// Appends the cells of the current row.
fn push_row_cells(out: &mut String, table: &DataSet)
    requires
        table.wf(),
        table.cursor().position() >= 1,
    ensures
        final(out)@ == old(out)@ + row_cells(
            table.cursor().cols(),
            table.cursor().rows()[table.cursor().position() - 1],
            table.cursor().cols().len() as int,
        ),
{
    let cols = table.get_col_cnt();
    let ghost columns = table.cursor().cols();
    let ghost row = table.cursor().rows()[table.cursor().position() - 1];
    let mut i: usize = 0;
    assert(out@ =~= old(out)@ + row_cells(columns, row, 0));
    while i < cols
        invariant
            table.wf(),
            table.cursor().position() >= 1,
            columns == table.cursor().cols(),
            row == table.cursor().rows()[table.cursor().position() - 1],
            i <= cols == columns.len(),
            out@ == old(out)@ + row_cells(columns, row, i as int),
        decreases cols - i,
    {
        let ghost before = out@;
        match table.get_type_by_idx(i) {
            Some(t) => match t {
                SqlType::Int => match table.next_int_by_idx(i) {
                    Some(val) => {
                        out.append("<td>");
                        push_int(out, val);
                        out.append("</td>");
                    },
                    None => {
                        out.append("<td>");
                        out.append("none");
                        out.append("</td>");
                    },
                },
                SqlType::Bool => match table.next_bool_by_idx(i) {
                    Some(val) => {
                        out.append("<td>");
                        push_bool(out, val);
                        out.append("</td>");
                    },
                    None => {
                        out.append("<td>");
                        out.append("none");
                        out.append("</td>");
                    },
                },
                SqlType::Char(_) => {
                    out.append("<td>");
                    match table.next_char_by_idx(i) {
                        Some(text) => {
                            out.append(text.as_str());
                        },
                        None => {
                            out.append("none");
                        },
                    }
                    out.append("</td>");
                },
            },
            None => {},
        }
        assert(out@ =~= before + "<td>"@ + value_text(columns, row, i as int) + "</td>"@);
        i = i + 1;
        assert(out@ =~= old(out)@ + row_cells(columns, row, i as int));
    }
}

/// Fill table with row data
/// returns the data in a String with html syntax
pub fn display_data_html(table: &mut DataSet) -> (result: String)
    requires
        old(table).wf(),
    ensures
        final(table).wf(),
        final(table).cursor().cols() == old(table).cursor().cols(),
        final(table).cursor().rows() == old(table).cursor().rows(),
        final(table).cursor().position() == old(table).cursor().rows().len(),
        result@ == data_html(
            old(table).cursor().cols(),
            old(table).cursor().rows(),
            old(table).cursor().position() as int,
        ),
{
    let mut result = String::from_str("<table id=\"t01\"><caption>Results</caption>");
    let ghost columns = table.cursor().cols();
    let ghost rows = table.cursor().rows();
    let ghost from = table.cursor().position() as int;
    proof {
        table.cursor().lemma_shape();
    }

    // Row of column names
    push_aspect_cells(&mut result, table, Aspect::Name);
    result.append("</tr>");
    let ghost head = result@;

    // Actual data input
    assert(result@ =~= head + rows_html(columns, rows, from, from));
    loop
        invariant
            table.wf(),
            table.cursor().cols() == columns,
            table.cursor().rows() == rows,
            from <= table.cursor().position() <= rows.len(),
            result@ == head + rows_html(columns, rows, from, table.cursor().position() as int),
        ensures
            table.wf(),
            table.cursor().cols() == columns,
            table.cursor().rows() == rows,
            table.cursor().position() == rows.len(),
            result@ == head + rows_html(columns, rows, from, rows.len() as int),
        decreases rows.len() - table.cursor().position(),
    {
        if !table.next() {
            break ;
        }
        let ghost before = result@;
        push_row_cells(&mut result, table);
        result.append("</tr>");
        assert(result@ =~= head + rows_html(
            columns,
            rows,
            from,
            table.cursor().position() as int,
        ));
    }

    // End table
    result.append("</table>");
    assert(result@ =~= data_html(columns, rows, from));
    result
}

/// Shows a result as html: nothing for a result without rows and columns,
/// the description of the columns for one without rows, and else the rows.
pub fn display_html(table: &mut DataSet) -> (result: String)
    requires
        old(table).wf(),
    ensures
        result@ == html(*old(table)),
        final(table).wf(),
        final(table).cursor().cols() == old(table).cursor().cols(),
        final(table).cursor().rows() == old(table).cursor().rows(),
        final(table).cursor().position() == if old(table).cursor().rows().len() == 0 {
            old(table).cursor().position()
        } else {
            old(table).cursor().rows().len()
        },
{
    if table.data_empty() && table.metadata_empty() {
        return String::new();
    } else if table.data_empty() {
        display_meta_html(table)
    } else {
        display_data_html(table)
    }
}

} // verus!
