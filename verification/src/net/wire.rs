//! The byte layout of the protocol's primitive values.
//!
//! Integers are written with a fixed width, most significant byte first.
//! Texts and byte blocks are written as a `u64` length followed by the bytes.
//! The executable encoders and decoders of the primitives are bincode's, set
//! to this layout; what they produce is stated here over plain sequences of
//! bytes, and everything built on them is proved from those statements.

use bincode::Options;
use vstd::prelude::*;
use vstd::utf8::{decode_utf8, encode_utf8, valid_utf8};

verus! {

/// `bincode::ErrorKind`, carried through as an opaque value. A
/// `bincode::Error` is a box of it.
#[verifier::external_type_specification]
#[verifier::external_body]
pub struct ExBincodeErrorKind(bincode::ErrorKind);

/// The two bytes of a `u16`, most significant first.
#[verifier::opaque]
pub open spec fn be_u16(v: u16) -> Seq<u8> {
    seq![(v / 0x100) as u8, (v % 0x100) as u8]
}

/// The four bytes of a `u32`, most significant first.
#[verifier::opaque]
pub open spec fn be_u32(v: u32) -> Seq<u8> {
    seq![
        (v / 0x100_0000) as u8,
        ((v / 0x1_0000) % 0x100) as u8,
        ((v / 0x100) % 0x100) as u8,
        (v % 0x100) as u8,
    ]
}

/// The eight bytes of a `u64`, most significant first: the four of its high
/// half, then the four of its low half.
pub open spec fn be_u64(v: u64) -> Seq<u8> {
    be_u32((v / 0x1_0000_0000) as u32) + be_u32((v % 0x1_0000_0000) as u32)
}

/// The `u16` whose big-endian bytes are the first two of `s`.
pub open spec fn u16_of_be(s: Seq<u8>) -> u16
    recommends
        s.len() >= 2,
{
    (s[0] * 0x100 + s[1]) as u16
}

/// The `u32` whose big-endian bytes are the first four of `s`.
pub open spec fn u32_of_be(s: Seq<u8>) -> u32
    recommends
        s.len() >= 4,
{
    (s[0] * 0x100_0000 + s[1] * 0x1_0000 + s[2] * 0x100 + s[3]) as u32
}

/// The `u64` whose big-endian bytes are the first eight of `s`.
pub open spec fn u64_of_be(s: Seq<u8>) -> u64
    recommends
        s.len() >= 8,
{
    (u32_of_be(s) * 0x1_0000_0000 + u32_of_be(s.skip(4))) as u64
}

/// One byte for a `bool`: 1 for true, 0 for false.
pub open spec fn bool_byte(b: bool) -> u8 {
    if b {
        1
    } else {
        0
    }
}

/// Whether `s` starts with the byte of a `bool`.
pub open spec fn has_bool(s: Seq<u8>) -> bool {
    s.len() >= 1 && s[0] <= 1
}

/// A block of bytes on the wire: its length as a `u64`, then the bytes.
pub open spec fn encode_block(b: Seq<u8>) -> Seq<u8> {
    be_u64(b.len() as u64) + b
}

/// A text on the wire: the block of its UTF-8 bytes.
pub open spec fn encode_text(t: Seq<char>) -> Seq<u8> {
    encode_block(encode_utf8(t))
}

/// Whether `s` starts with a complete block: a length field and as many bytes
/// after it as the field says.
pub open spec fn has_block(s: Seq<u8>) -> bool {
    s.len() >= 8 && u64_of_be(s) <= s.len() - 8
}

/// The bytes of the block that `s` starts with, without the length field.
pub open spec fn block_body(s: Seq<u8>) -> Seq<u8>
    recommends
        has_block(s),
{
    s.subrange(8, 8 + u64_of_be(s))
}

/// The number of bytes that the block at the start of `s` takes, length field
/// included.
pub open spec fn block_size(s: Seq<u8>) -> int
    recommends
        has_block(s),
{
    8 + u64_of_be(s)
}

/// Whether `s` starts with a complete text: a block whose bytes are UTF-8.
pub open spec fn has_text(s: Seq<u8>) -> bool {
    has_block(s) && valid_utf8(block_body(s))
}

/// The text that `s` starts with.
pub open spec fn text_body(s: Seq<u8>) -> Seq<char>
    recommends
        has_text(s),
{
    decode_utf8(block_body(s))
}

/// What stands at the start of a sequence of bytes, read as a value of one
/// type.
pub enum Parsed<V> {
    /// A complete value, and the number of bytes that it takes.
    Value(V, int),
    /// The bytes end before the value is complete.
    Incomplete,
    /// The bytes do not have the form of the type, whatever follows them.
    Invalid,
    /// A variant index that the type does not have.
    UnknownVariant,
}

impl<V> Parsed<V> {
    /// The failure of a part as the failure of the whole: incomplete where
    /// the part is, and else invalid.
    pub open spec fn failure<W>(self) -> Parsed<W> {
        match self {
            Parsed::Incomplete => Parsed::Incomplete,
            _ => Parsed::Invalid,
        }
    }
}

/// Why bytes could not be decoded, with the error of the decoder.
#[derive(Debug)]
pub enum Fault {
    /// The bytes end before the value is complete.
    Incomplete(bincode::Error),
    /// The bytes do not have the form of the type.
    Invalid(bincode::Error),
    /// A variant index that the type does not have.
    UnknownVariant,
}

impl Fault {
    /// Whether the fault is that of a value with parts: incomplete or
    /// invalid, but no unknown variant.
    pub open spec fn plain(self) -> bool {
        !(self is UnknownVariant)
    }

    /// Whether the fault is the one that `p` stands for.
    pub open spec fn explains<V>(self, p: Parsed<V>) -> bool {
        match p {
            Parsed::Value(_, _) => false,
            Parsed::Incomplete => self is Incomplete,
            Parsed::Invalid => self is Invalid,
            Parsed::UnknownVariant => self is UnknownVariant,
        }
    }
}

/// The text that `s` starts with: incomplete while the block is, invalid
/// where the bytes of the block are not UTF-8.
pub open spec fn parse_text(s: Seq<u8>) -> Parsed<Seq<char>> {
    if !has_block(s) {
        Parsed::Incomplete
    } else if !valid_utf8(block_body(s)) {
        Parsed::Invalid
    } else {
        Parsed::Value(text_body(s), block_size(s))
    }
}

/// The truth value that `s` starts with: invalid where the byte is neither
/// 0 nor 1.
pub open spec fn parse_bool(s: Seq<u8>) -> Parsed<bool> {
    if s.len() < 1 {
        Parsed::Incomplete
    } else if s[0] > 1 {
        Parsed::Invalid
    } else {
        Parsed::Value(s[0] == 1, 1)
    }
}

/// A `u16` is read back from its bytes, whatever follows them.
pub proof fn lemma_u16_round_trip(v: u16, rest: Seq<u8>)
    ensures
        be_u16(v).len() == 2,
        u16_of_be(be_u16(v) + rest) == v,
{
    reveal(be_u16);
    let s = be_u16(v) + rest;
    assert(s[0] == be_u16(v)[0] && s[1] == be_u16(v)[1]);
}

/// A `u32` is read back from its bytes, whatever follows them.
pub proof fn lemma_u32_round_trip(v: u32, rest: Seq<u8>)
    ensures
        be_u32(v).len() == 4,
        u32_of_be(be_u32(v) + rest) == v,
{
    reveal(be_u32);
    let s = be_u32(v) + rest;
    assert(s[0] == be_u32(v)[0] && s[1] == be_u32(v)[1] && s[2] == be_u32(v)[2] && s[3] == be_u32(
        v,
    )[3]);
}

/// A `u64` is read back from its bytes, whatever follows them.
pub proof fn lemma_u64_round_trip(v: u64, rest: Seq<u8>)
    ensures
        be_u64(v).len() == 8,
        u64_of_be(be_u64(v) + rest) == v,
{
    let hi = (v / 0x1_0000_0000) as u32;
    let lo = (v % 0x1_0000_0000) as u32;
    let s = be_u64(v) + rest;
    lemma_u32_round_trip(hi, be_u32(lo) + rest);
    lemma_u32_round_trip(lo, rest);
    assert(s =~= be_u32(hi) + (be_u32(lo) + rest));
    assert(s.skip(4) =~= be_u32(lo) + rest);
}

/// A block that fits a `u64` length is read back from its encoding, whatever
/// follows it.
pub proof fn lemma_block_round_trip(b: Seq<u8>, rest: Seq<u8>)
    requires
        b.len() <= u64::MAX,
    ensures
        encode_block(b).len() == 8 + b.len(),
        has_block(encode_block(b) + rest),
        block_body(encode_block(b) + rest) == b,
        block_size(encode_block(b) + rest) == 8 + b.len(),
{
    let n = b.len() as u64;
    lemma_u64_round_trip(n, b + rest);
    assert(encode_block(b) + rest =~= be_u64(n) + (b + rest));
    assert((encode_block(b) + rest).subrange(8, 8 + b.len() as int) =~= b);
}

/// A text whose UTF-8 form fits a `u64` length is read back from its
/// encoding, whatever follows it.
pub proof fn lemma_text_round_trip(t: Seq<char>, rest: Seq<u8>)
    requires
        encode_utf8(t).len() <= u64::MAX,
    ensures
        encode_text(t).len() == 8 + encode_utf8(t).len(),
        has_text(encode_text(t) + rest),
        text_body(encode_text(t) + rest) == t,
        block_size(encode_text(t) + rest) == 8 + encode_utf8(t).len(),
        parse_text(encode_text(t) + rest) == Parsed::Value(t, encode_text(t).len() as int),
{
    lemma_block_round_trip(encode_utf8(t), rest);
    vstd::utf8::encode_utf8_valid_utf8(t);
    vstd::utf8::encode_utf8_decode_utf8(t);
}

/// Appends one byte to `out`. Calls bincode's `Options::serialize_into` on a
/// `u8`, which writes the byte as it is. With a `Vec` as the sink and no size
/// limit set, no step of the call can fail.
#[verifier::external_body]
pub(crate) fn put_u8(out: &mut Vec<u8>, v: u8) -> (r: Result<(), bincode::Error>)
    ensures
        r is Ok,
        final(out)@ == old(out)@.push(v),
{
    bincode::DefaultOptions::new().with_fixint_encoding().with_big_endian().allow_trailing_bytes()
        .serialize_into(&mut *out, &v)
}

/// Appends a `u16` to `out`. Calls bincode's `Options::serialize_into`, which
/// with fixed-width integers and big-endian order writes the two bytes, most
/// significant first, and cannot fail on a `Vec`.
#[verifier::external_body]
pub(crate) fn put_u16(out: &mut Vec<u8>, v: u16) -> (r: Result<(), bincode::Error>)
    ensures
        r is Ok,
        final(out)@ == old(out)@ + be_u16(v),
{
    bincode::DefaultOptions::new().with_fixint_encoding().with_big_endian().allow_trailing_bytes()
        .serialize_into(&mut *out, &v)
}

/// Appends a `u32` to `out`. Calls bincode's `Options::serialize_into`, which
/// with fixed-width integers and big-endian order writes the four bytes, most
/// significant first, and cannot fail on a `Vec`.
#[verifier::external_body]
pub(crate) fn put_u32(out: &mut Vec<u8>, v: u32) -> (r: Result<(), bincode::Error>)
    ensures
        r is Ok,
        final(out)@ == old(out)@ + be_u32(v),
{
    bincode::DefaultOptions::new().with_fixint_encoding().with_big_endian().allow_trailing_bytes()
        .serialize_into(&mut *out, &v)
}

/// Appends a `u64` to `out`. Calls bincode's `Options::serialize_into`, which
/// with fixed-width integers and big-endian order writes the eight bytes,
/// most significant first, and cannot fail on a `Vec`.
#[verifier::external_body]
pub(crate) fn put_u64(out: &mut Vec<u8>, v: u64) -> (r: Result<(), bincode::Error>)
    ensures
        r is Ok,
        final(out)@ == old(out)@ + be_u64(v),
{
    bincode::DefaultOptions::new().with_fixint_encoding().with_big_endian().allow_trailing_bytes()
        .serialize_into(&mut *out, &v)
}

/// Appends a `bool` to `out`. Calls bincode's `Options::serialize_into`, which
/// writes one byte, 1 or 0, and cannot fail on a `Vec`.
#[verifier::external_body]
pub(crate) fn put_bool(out: &mut Vec<u8>, v: bool) -> (r: Result<(), bincode::Error>)
    ensures
        r is Ok,
        final(out)@ == old(out)@.push(bool_byte(v)),
{
    bincode::DefaultOptions::new().with_fixint_encoding().with_big_endian().allow_trailing_bytes()
        .serialize_into(&mut *out, &v)
}

/// Appends a text to `out`. Calls bincode's `Options::serialize_into` on a
/// `str`, which writes the length of its UTF-8 form as a `u64` and then those
/// bytes, and cannot fail on a `Vec`.
#[verifier::external_body]
pub(crate) fn put_text(out: &mut Vec<u8>, v: &str) -> (r: Result<(), bincode::Error>)
    ensures
        r is Ok,
        final(out)@ == old(out)@ + encode_text(v@),
{
    bincode::DefaultOptions::new().with_fixint_encoding().with_big_endian().allow_trailing_bytes()
        .serialize_into(&mut *out, v)
}

/// Appends a block of bytes to `out`. Calls bincode's
/// `Options::serialize_into` on a slice of `u8`, which writes the number of
/// bytes as a `u64` and then each byte, and cannot fail on a `Vec`.
#[verifier::external_body]
pub(crate) fn put_block(out: &mut Vec<u8>, v: &[u8]) -> (r: Result<(), bincode::Error>)
    ensures
        r is Ok,
        final(out)@ == old(out)@ + encode_block(v@),
{
    bincode::DefaultOptions::new().with_fixint_encoding().with_big_endian().allow_trailing_bytes()
        .serialize_into(&mut *out, v)
}

/// Reads a `u8` from the start of `bytes`. Calls bincode's
/// `Options::deserialize`, which takes the first byte and fails only when
/// there is none; bytes after it are allowed.
#[verifier::external_body]
pub(crate) fn get_u8(bytes: &[u8]) -> (r: Result<u8, bincode::Error>)
    ensures
        r is Ok <==> bytes@.len() >= 1,
        r is Ok ==> r->Ok_0 == bytes@[0],
{
    bincode::DefaultOptions::new().with_fixint_encoding().with_big_endian().allow_trailing_bytes()
        .deserialize::<u8>(bytes)
}

/// Reads a `u16` from the start of `bytes`. Calls bincode's
/// `Options::deserialize`, which takes two bytes, most significant first, and
/// fails only when there are fewer.
#[verifier::external_body]
pub(crate) fn get_u16(bytes: &[u8]) -> (r: Result<u16, bincode::Error>)
    ensures
        r is Ok <==> bytes@.len() >= 2,
        r is Ok ==> r->Ok_0 == u16_of_be(bytes@),
{
    bincode::DefaultOptions::new().with_fixint_encoding().with_big_endian().allow_trailing_bytes()
        .deserialize::<u16>(bytes)
}

/// Reads a `u32` from the start of `bytes`. Calls bincode's
/// `Options::deserialize`, which takes four bytes, most significant first,
/// and fails only when there are fewer.
#[verifier::external_body]
pub(crate) fn get_u32(bytes: &[u8]) -> (r: Result<u32, bincode::Error>)
    ensures
        r is Ok <==> bytes@.len() >= 4,
        r is Ok ==> r->Ok_0 == u32_of_be(bytes@),
{
    bincode::DefaultOptions::new().with_fixint_encoding().with_big_endian().allow_trailing_bytes()
        .deserialize::<u32>(bytes)
}

/// Reads a `u64` from the start of `bytes`. Calls bincode's
/// `Options::deserialize`, which takes eight bytes, most significant first,
/// and fails only when there are fewer.
#[verifier::external_body]
pub(crate) fn get_u64(bytes: &[u8]) -> (r: Result<u64, bincode::Error>)
    ensures
        r is Ok <==> bytes@.len() >= 8,
        r is Ok ==> r->Ok_0 == u64_of_be(bytes@),
{
    bincode::DefaultOptions::new().with_fixint_encoding().with_big_endian().allow_trailing_bytes()
        .deserialize::<u64>(bytes)
}

/// An error for a variant number that a type does not have. Builds bincode's
/// `ErrorKind::InvalidTagEncoding`, the error that bincode itself gives for
/// such a number.
#[verifier::external_body]
pub(crate) fn invalid_tag(tag: u32) -> bincode::Error {
    Box::new(bincode::ErrorKind::InvalidTagEncoding(tag as usize))
}

/// Reads a `bool` from the start of `bytes`. Calls bincode's
/// `Options::deserialize`, which takes one byte and accepts 1 and 0 only.
#[verifier::external_body]
pub(crate) fn get_bool(bytes: &[u8]) -> (r: Result<bool, bincode::Error>)
    ensures
        r is Ok <==> has_bool(bytes@),
        r is Ok ==> r->Ok_0 == (bytes@[0] == 1),
{
    bincode::DefaultOptions::new().with_fixint_encoding().with_big_endian().allow_trailing_bytes()
        .deserialize::<bool>(bytes)
}

/// Reads a text from the start of `bytes`. Calls bincode's
/// `Options::deserialize` for a `String`, which reads a `u64` length, takes
/// that many bytes and checks that they are UTF-8. It fails when the length
/// field is incomplete, when fewer bytes follow than it says, or when they are
/// not UTF-8.
#[verifier::external_body]
pub(crate) fn get_text(bytes: &[u8]) -> (r: Result<String, bincode::Error>)
    ensures
        r is Ok <==> has_text(bytes@),
        r is Ok ==> r->Ok_0@ == text_body(bytes@),
{
    bincode::DefaultOptions::new().with_fixint_encoding().with_big_endian().allow_trailing_bytes()
        .deserialize::<String>(bytes)
}

/// Reads a block of bytes from the start of `bytes`. Calls bincode's
/// `Options::deserialize` for a `Vec<u8>`, which reads a `u64` length and
/// takes that many bytes. It fails when the length field is incomplete or
/// fewer bytes follow than it says.
#[verifier::external_body]
pub(crate) fn get_block(bytes: &[u8]) -> (r: Result<Vec<u8>, bincode::Error>)
    ensures
        r is Ok <==> has_block(bytes@),
        r is Ok ==> r->Ok_0@ == block_body(bytes@),
{
    bincode::DefaultOptions::new().with_fixint_encoding().with_big_endian().allow_trailing_bytes()
        .deserialize::<Vec<u8>>(bytes)
}

} // verus!
