//! Column types, column descriptions and the encoding of single values.

use super::Error;
use crate::net::wire::{be_u32, bool_byte, u32_of_be};
use vstd::utf8::{decode_utf8, encode_utf8, valid_utf8};
use crate::parse::ast::CompType;
use vstd::prelude::*;

verus! {

/// The type of the values of a column.
#[derive(Clone, Copy, Debug, PartialEq, Eq, Structural)]
pub enum SqlType {
    /// A signed integer of 32 bits.
    Int,
    /// A truth value.
    Bool,
    /// A text of at most the given number of bytes.
    Char(u8),
}

/// One column of a table.
#[derive(Clone, Debug, PartialEq, Eq)]
pub struct Column {
    pub name: String,
    pub sql_type: SqlType,
    pub is_primary_key: bool,
    pub allow_null: bool,
    pub description: String,
}

/// The mathematical value of a [`Column`].
pub struct ColumnView {
    pub name: Seq<char>,
    pub sql_type: SqlType,
    pub is_primary_key: bool,
    pub allow_null: bool,
    pub description: Seq<char>,
}

impl View for Column {
    type V = ColumnView;

    open spec fn view(&self) -> ColumnView {
        ColumnView {
            name: self.name@,
            sql_type: self.sql_type,
            is_primary_key: self.is_primary_key,
            allow_null: self.allow_null,
            description: self.description@,
        }
    }
}

/// The mathematical values of a sequence of columns.
pub open spec fn column_views(cols: Seq<Column>) -> Seq<ColumnView> {
    Seq::new(cols.len(), |i: int| cols[i]@)
}

impl SqlType {
    /// The number of bytes that a value of the type takes in a row: four for
    /// an integer, one for a truth value, and for a text one byte that holds
    /// its length and then as many bytes as the longest text has.
    pub open spec fn width(self) -> nat {
        match self {
            SqlType::Int => 4,
            SqlType::Bool => 1,
            SqlType::Char(n) => (n + 1) as nat,
        }
    }

    /// The number of bytes that a value of the type takes in a row.
    pub fn size(&self) -> (n: usize)
        ensures
            n == self.width(),
            1 <= n <= 256,
    {
        match self {
            SqlType::Int => 4,
            SqlType::Bool => 1,
            SqlType::Char(n) => {
                let len: usize = *n as usize;
                len + 1
            },
        }
    }
}

/// The unsigned number with the same 32 bits as `v` in two's complement.
pub open spec fn to_unsigned(v: i32) -> u32 {
    if v >= 0 {
        v as u32
    } else {
        (v + 0x1_0000_0000) as u32
    }
}

/// The signed number with the same 32 bits as `u` in two's complement.
pub open spec fn to_signed(u: u32) -> i32 {
    if u < 0x8000_0000 {
        u as i32
    } else {
        (u - 0x1_0000_0000) as i32
    }
}

/// The integer that the first four bytes of `s` hold.
pub open spec fn int_of_field(s: Seq<u8>) -> i32
    recommends
        s.len() >= 4,
{
    to_signed(u32_of_be(s))
}

/// How two sequences of bytes are ordered, byte by byte from the front, a
/// shorter one before every longer one that starts with it: negative where
/// `a` comes first, zero where the two are equal, positive where `b` comes
/// first.
pub open spec fn lex_order(a: Seq<u8>, b: Seq<u8>) -> int
    decreases a.len(),
{
    if a.len() == 0 {
        if b.len() == 0 {
            0
        } else {
            -1
        }
    } else if b.len() == 0 {
        1
    } else if a[0] < b[0] {
        -1
    } else if a[0] > b[0] {
        1
    } else {
        lex_order(a.skip(1), b.skip(1))
    }
}

/// Orders two sequences of bytes as [`lex_order`] says.
pub fn compare_bytes(a: &[u8], b: &[u8]) -> (ord: i8)
    ensures
        ord == lex_order(a@, b@),
{
    let mut i: usize = 0;
    assert(a@.skip(0) =~= a@ && b@.skip(0) =~= b@);
    while i < a.len() && i < b.len()
        invariant
            i <= a@.len(),
            i <= b@.len(),
            lex_order(a@, b@) == lex_order(a@.skip(i as int), b@.skip(i as int)),
        decreases a@.len() - i,
    {
        proof {
            assert(a@.skip(i as int).skip(1) =~= a@.skip(i + 1));
            assert(b@.skip(i as int).skip(1) =~= b@.skip(i + 1));
        }
        if a[i] < b[i] {
            return -1;
        } else if a[i] > b[i] {
            return 1;
        }
        i = i + 1;
    }
    if i < b.len() {
        -1
    } else if i < a.len() {
        1
    } else {
        0
    }
}

/// Two sequences of bytes are ordered as equal exactly when they are equal.
pub proof fn lemma_lex_order_zero(a: Seq<u8>, b: Seq<u8>)
    ensures
        lex_order(a, b) == 0 <==> a == b,
    decreases a.len(),
{
    if a.len() > 0 && b.len() > 0 && a[0] == b[0] {
        lemma_lex_order_zero(a.skip(1), b.skip(1));
        if a.skip(1) == b.skip(1) {
            assert(a =~= seq![a[0]] + a.skip(1));
            assert(b =~= seq![b[0]] + b.skip(1));
        }
    }
    if a.len() == 0 && b.len() == 0 {
        assert(a =~= b);
    }
}

impl SqlType {
    /// Whether `operand` can be compared with a value of the type: four bytes
    /// for an integer, one for a truth value, any text.
    pub open spec fn accepts(self, operand: Seq<u8>) -> bool {
        match self {
            SqlType::Int => operand.len() == 4,
            SqlType::Bool => operand.len() == 1,
            SqlType::Char(_) => true,
        }
    }

    /// What a stored field of the type is compared by: the four bytes of an
    /// integer, the byte of a truth value, and of a text the bytes that its
    /// length byte counts (at most as many as the field has room for).
    pub open spec fn key(self, field: Seq<u8>) -> Seq<u8>
        recommends
            field.len() == self.width(),
    {
        match self {
            SqlType::Int => field,
            SqlType::Bool => field,
            SqlType::Char(n) => if field[0] <= n {
                field.subrange(1, 1 + field[0])
            } else {
                field.subrange(1, 1 + n)
            },
        }
    }

    /// What the stored `field` is compared by.
    pub fn key_of<'a>(&self, field: &'a [u8]) -> (k: &'a [u8])
        requires
            field@.len() == self.width(),
        ensures
            k@ == self.key(field@),
            self.accepts(k@),
    {
        match self {
            SqlType::Int => field,
            SqlType::Bool => field,
            SqlType::Char(n) => {
                let len: usize = if field[0] <= *n {
                    field[0] as usize
                } else {
                    *n as usize
                };
                vstd::slice::slice_subrange(field, 1, 1 + len)
            },
        }
    }

    /// How two keys of the type are ordered: integers by their value, truth
    /// values and texts byte by byte. Negative where `a` is smaller, zero
    /// where they are equal, positive where `a` is greater.
    pub open spec fn order(self, a: Seq<u8>, b: Seq<u8>) -> int {
        match self {
            SqlType::Int => if int_of_field(a) < int_of_field(b) {
                -1
            } else if int_of_field(a) > int_of_field(b) {
                1
            } else {
                0
            },
            _ => lex_order(a, b),
        }
    }

    /// Whether a stored field of the type stands in the relation `comp` to
    /// `operand`.
    pub open spec fn satisfies(self, field: Seq<u8>, operand: Seq<u8>, comp: CompType) -> bool {
        comp.holds(self.order(self.key(field), operand))
    }

    /// Decides whether the stored `field` stands in the relation `comp` to
    /// `operand`.
    pub fn compare(&self, field: &[u8], operand: &[u8], comp: CompType) -> (b: bool)
        requires
            field@.len() == self.width(),
            self.accepts(operand@),
        ensures
            b == self.satisfies(field@, operand@, comp),
    {
        match self {
            SqlType::Int => {
                let x = read_int(field);
                let y = read_int(operand);
                let ord: i8 = if x < y {
                    -1
                } else if x > y {
                    1
                } else {
                    0
                };
                comp.test(ord)
            },
            SqlType::Bool => comp.test(compare_bytes(field, operand)),
            SqlType::Char(n) => {
                let len: usize = if field[0] <= *n {
                    field[0] as usize
                } else {
                    *n as usize
                };
                let key = vstd::slice::slice_subrange(field, 1, 1 + len);
                comp.test(compare_bytes(key, operand))
            },
        }
    }
}

/// Reads the integer that the first four bytes of `bytes` hold, most
/// significant byte first, in two's complement.
pub fn read_int(bytes: &[u8]) -> (v: i32)
    requires
        bytes@.len() >= 4,
    ensures
        v == int_of_field(bytes@),
{
    let u: u32 = (bytes[0] as u32) * 0x100_0000 + (bytes[1] as u32) * 0x1_0000 + (bytes[2] as u32)
        * 0x100 + (bytes[3] as u32);
    if u < 0x8000_0000 {
        u as i32
    } else {
        (u as i64 - 0x1_0000_0000) as i32
    }
}

/// Appends the four bytes of `v` to `out`, most significant byte first, in
/// two's complement.
pub fn write_int(out: &mut Vec<u8>, v: i32)
    ensures
        final(out)@ == old(out)@ + be_u32(to_unsigned(v)),
{
    let u: u32 = if v >= 0 {
        v as u32
    } else {
        (v as i64 + 0x1_0000_0000) as u32
    };
    out.push((u / 0x100_0000) as u8);
    out.push(((u / 0x1_0000) % 0x100) as u8);
    out.push(((u / 0x100) % 0x100) as u8);
    out.push((u % 0x100) as u8);
    assert(out@ =~= old(out)@ + be_u32(to_unsigned(v))) by {
        reveal(be_u32);
    }
}

/// An integer is read back from its four bytes, whatever follows them.
pub proof fn lemma_int_round_trip(v: i32, rest: Seq<u8>)
    ensures
        int_of_field(be_u32(to_unsigned(v)) + rest) == v,
{
    crate::net::wire::lemma_u32_round_trip(to_unsigned(v), rest);
}

/// A value of a column.
#[derive(Clone, Debug, PartialEq, Eq)]
pub enum Value {
    /// No value.
    Null,
    /// An integer.
    Int(i32),
    /// A truth value.
    Bool(bool),
    /// A text.
    Char(String),
}

/// The mathematical value of a [`Value`].
pub enum ValueView {
    Null,
    Int(i32),
    Bool(bool),
    Char(Seq<char>),
}

impl View for Value {
    type V = ValueView;

    open spec fn view(&self) -> ValueView {
        match self {
            Value::Null => ValueView::Null,
            Value::Int(v) => ValueView::Int(*v),
            Value::Bool(b) => ValueView::Bool(*b),
            Value::Char(t) => ValueView::Char(t@),
        }
    }
}

/// `n` bytes that are zero.
pub open spec fn zeros(n: nat) -> Seq<u8> {
    Seq::new(n, |i: int| 0u8)
}

/// Converts the bytes to a text if they are UTF-8. This is
/// `String::from_utf8`, which fails exactly on bytes that are not UTF-8 and
/// otherwise gives the text that they encode.
pub assume_specification[ String::from_utf8 ](bytes: Vec<u8>) -> (r: Result<
    String,
    std::string::FromUtf8Error,
>)
    ensures
        r is Ok <==> valid_utf8(bytes@),
        r is Ok ==> r->Ok_0@ == decode_utf8(bytes@),
;

impl SqlType {
    /// The most bytes that a text of the type can have; zero for the types
    /// that hold no text.
    pub open spec fn room(self) -> nat {
        match self {
            SqlType::Char(n) => n as nat,
            _ => 0,
        }
    }

    /// Whether `v` is a value of the type: an integer for `Int`, a truth
    /// value for `Bool`, and for `Char(n)` a text of at most `n` bytes.
    pub open spec fn admits(self, v: ValueView) -> bool {
        match (self, v) {
            (SqlType::Int, ValueView::Int(_)) => true,
            (SqlType::Bool, ValueView::Bool(_)) => true,
            (SqlType::Char(n), ValueView::Char(t)) => encode_utf8(t).len() <= n,
            _ => false,
        }
    }

    /// The field of a value of the type: the four bytes of an integer, the
    /// byte of a truth value, and for a text one byte with the number of its
    /// bytes, then these, then zeros up to the width of the field.
    pub open spec fn field_of_value(self, v: ValueView) -> Seq<u8> {
        match (self, v) {
            (SqlType::Int, ValueView::Int(x)) => be_u32(to_unsigned(x)),
            (SqlType::Bool, ValueView::Bool(b)) => seq![bool_byte(b)],
            (SqlType::Char(n), ValueView::Char(t)) => seq![encode_utf8(t).len() as u8]
                + encode_utf8(t) + zeros((n - encode_utf8(t).len()) as nat),
            _ => zeros(self.width()),
        }
    }

    /// The value that a field of the type holds, if it holds one: any four
    /// bytes are an integer; the bytes 0 and 1 are truth values; and a text
    /// is held where the length byte is not more than the field has room for
    /// and the bytes it counts are UTF-8.
    pub open spec fn value_of_field(self, field: Seq<u8>) -> Option<ValueView>
        recommends
            field.len() == self.width(),
    {
        match self {
            SqlType::Int => Some(ValueView::Int(int_of_field(field))),
            SqlType::Bool => if field[0] <= 1 {
                Some(ValueView::Bool(field[0] == 1))
            } else {
                None
            },
            SqlType::Char(n) => if field[0] <= n && valid_utf8(field.subrange(1, 1 + field[0])) {
                Some(ValueView::Char(decode_utf8(field.subrange(1, 1 + field[0]))))
            } else {
                None
            },
        }
    }

    /// Every value of a type is read back from its field, which is as wide as
    /// the type says.
    pub proof fn lemma_value_round_trip(self, v: ValueView)
        requires
            self.admits(v),
        ensures
            self.field_of_value(v).len() == self.width(),
            self.value_of_field(self.field_of_value(v)) == Some(v),
    {
        match (self, v) {
            (SqlType::Int, ValueView::Int(x)) => {
                lemma_int_round_trip(x, Seq::empty());
                assert(be_u32(to_unsigned(x)) + Seq::<u8>::empty() =~= be_u32(to_unsigned(x)));
                crate::net::wire::lemma_u32_round_trip(to_unsigned(x), Seq::empty());
            },
            (SqlType::Bool, ValueView::Bool(b)) => {},
            (SqlType::Char(n), ValueView::Char(t)) => {
                let f = self.field_of_value(v);
                let len = encode_utf8(t).len();
                assert(f.subrange(1, 1 + f[0]) =~= encode_utf8(t));
                vstd::utf8::encode_utf8_valid_utf8(t);
                vstd::utf8::encode_utf8_decode_utf8(t);
            },
            _ => {},
        }
    }

    /// Appends the field of `v` to `out`. A value that is not of the type,
    /// null included, has an invalid type; a text with more bytes than the
    /// type has room for has the wrong length. Nothing is appended then.
    pub fn encode_value(&self, v: &Value, out: &mut Vec<u8>) -> (r: Result<(), Error>)
        ensures
            match r {
                Ok(()) => self.admits(v@) && final(out)@ == old(out)@ + self.field_of_value(v@),
                Err(Error::WrongLength) => !self.admits(v@) && self is Char && v is Char
                    && final(out)@ == old(out)@,
                Err(Error::InvalidType) => !(self is Int && v is Int) && !(self is Bool && v
                    is Bool) && !(self is Char && v is Char) && final(out)@ == old(out)@,
                Err(_) => false,
            },
    {
        match (self, v) {
            (SqlType::Int, Value::Int(x)) => {
                write_int(out, *x);
                Ok(())
            },
            (SqlType::Bool, Value::Bool(b)) => {
                out.push(if *b {
                    1
                } else {
                    0
                });
                assert(out@ =~= old(out)@ + self.field_of_value(v@));
                Ok(())
            },
            (SqlType::Char(n), Value::Char(t)) => {
                let bytes = t.as_str().as_bytes();
                let room: usize = *n as usize;
                if bytes.len() > room {
                    return Err(Error::WrongLength);
                }
                out.push(bytes.len() as u8);
                out.extend_from_slice(bytes);
                let mut k: usize = bytes.len();
                while k < room
                    invariant
                        bytes@.len() <= k <= room,
                        bytes@ == encode_utf8(t@),
                        out@ == old(out)@ + seq![bytes@.len() as u8] + bytes@ + zeros(
                            (k - bytes@.len()) as nat,
                        ),
                    decreases room - k,
                {
                    out.push(0);
                    k = k + 1;
                    assert(out@ =~= old(out)@ + seq![bytes@.len() as u8] + bytes@ + zeros(
                        (k - bytes@.len()) as nat,
                    ));
                }
                assert(out@ =~= old(out)@ + self.field_of_value(v@));
                Ok(())
            },
            _ => Err(Error::InvalidType),
        }
    }

    /// Reads the value that a field of the type holds. A field that is too
    /// short is an interrupted read, one that is too long has the wrong
    /// length. A byte that is no truth value has an invalid type; a text whose
    /// length byte is more than the field has room for has the wrong length;
    /// and a text that is not UTF-8 is reported as such.
    pub fn decode_value(&self, field: &[u8]) -> (r: Result<Value, Error>)
        ensures
            match r {
                Ok(v) => field@.len() == self.width() && self.value_of_field(field@) == Some(v@),
                Err(Error::InterruptedRead) => field@.len() < self.width(),
                Err(Error::WrongLength) => field@.len() > self.width() || (field@.len()
                    == self.width() && self is Char && field@[0] > self.room()),
                Err(Error::InvalidType) => field@.len() == self.width() && self is Bool
                    && field@[0] > 1,
                Err(Error::Utf8Error(_)) => field@.len() == self.width() && self is Char
                    && field@[0] <= self.room() && !valid_utf8(
                    field@.subrange(1, 1 + field@[0]),
                ),
                Err(_) => false,
            },
    {
        let width = self.size();
        if field.len() < width {
            return Err(Error::InterruptedRead);
        }
        if field.len() > width {
            return Err(Error::WrongLength);
        }
        match self {
            SqlType::Int => Ok(Value::Int(read_int(field))),
            SqlType::Bool => {
                if field[0] > 1 {
                    Err(Error::InvalidType)
                } else {
                    Ok(Value::Bool(field[0] == 1))
                }
            },
            SqlType::Char(n) => {
                if field[0] > *n {
                    return Err(Error::WrongLength);
                }
                let len: usize = field[0] as usize;
                let text = vstd::slice::slice_to_vec(vstd::slice::slice_subrange(field, 1, 1 + len));
                match String::from_utf8(text) {
                    Ok(t) => Ok(Value::Char(t)),
                    Err(e) => Err(Error::Utf8Error(e)),
                }
            },
        }
    }
}

} // verus!
