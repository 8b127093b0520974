//! The packages of the protocol and their layout on the wire.

use super::wire::{
    be_u16, be_u32, block_body, block_size, encode_text, get_block, get_text, get_u16, get_u32,
    get_u8, lemma_text_round_trip, lemma_u16_round_trip, lemma_u32_round_trip, put_text,
    parse_text, put_u16, put_u32, put_u8, u16_of_be, u32_of_be, u64_of_be, Fault, Parsed,
};
use super::Error;
use crate::storage::data::{chunks, clone_columns, ResultSet, Rows};
use crate::storage::meta::{row_len, MAX_COLUMNS};
use crate::storage::row::value_at;
use crate::storage::types::{SqlType, Value, ValueView};
use vstd::prelude::*;
use vstd::slice::slice_subrange;
use vstd::utf8::encode_utf8;

verus! {

/// The tag that starts every package and says what follows it.
#[derive(Clone, Copy, Debug, PartialEq, Eq, Structural)]
pub enum PkgType {
    Greet,
    Login,
    Command,
    Error,
    Okay,
    Response,
    AccDenied,
    AccGranted,
}

impl PkgType {
    /// The number of the tag on the wire: its place in the declaration.
    pub open spec fn index(self) -> u32 {
        match self {
            PkgType::Greet => 0,
            PkgType::Login => 1,
            PkgType::Command => 2,
            PkgType::Error => 3,
            PkgType::Okay => 4,
            PkgType::Response => 5,
            PkgType::AccDenied => 6,
            PkgType::AccGranted => 7,
        }
    }

    /// The tag with the number `i`, if there is one.
    pub open spec fn of_index(i: u32) -> Option<PkgType> {
        if i == 0 {
            Some(PkgType::Greet)
        } else if i == 1 {
            Some(PkgType::Login)
        } else if i == 2 {
            Some(PkgType::Command)
        } else if i == 3 {
            Some(PkgType::Error)
        } else if i == 4 {
            Some(PkgType::Okay)
        } else if i == 5 {
            Some(PkgType::Response)
        } else if i == 6 {
            Some(PkgType::AccDenied)
        } else if i == 7 {
            Some(PkgType::AccGranted)
        } else {
            None
        }
    }

    /// The four bytes of the tag on the wire.
    pub open spec fn encoding(self) -> Seq<u8> {
        be_u32(self.index())
    }

    /// The number of the tag on the wire.
    pub fn to_index(self) -> (i: u32)
        ensures
            i == self.index(),
    {
        match self {
            PkgType::Greet => 0,
            PkgType::Login => 1,
            PkgType::Command => 2,
            PkgType::Error => 3,
            PkgType::Okay => 4,
            PkgType::Response => 5,
            PkgType::AccDenied => 6,
            PkgType::AccGranted => 7,
        }
    }

    /// The tag with the number `i`, if there is one.
    pub fn from_index(i: u32) -> (p: Option<PkgType>)
        ensures
            p == PkgType::of_index(i),
    {
        match i {
            0 => Some(PkgType::Greet),
            1 => Some(PkgType::Login),
            2 => Some(PkgType::Command),
            3 => Some(PkgType::Error),
            4 => Some(PkgType::Okay),
            5 => Some(PkgType::Response),
            6 => Some(PkgType::AccDenied),
            7 => Some(PkgType::AccGranted),
            _ => None,
        }
    }

    /// Appends the tag to `out`.
    pub fn encode_into(self, out: &mut Vec<u8>) -> (r: Result<(), Error>)
        ensures
            r is Ok,
            final(out)@ == old(out)@ + self.encoding(),
    {
        match put_u32(out, self.to_index()) {
            Ok(()) => Ok(()),
            Err(e) => Err(Error::Bincode(e)),
        }
    }

    /// Reads the tag that `bytes` starts with. A tag takes four bytes. Where
    /// fewer are there the package is incomplete; where the number is that of
    /// no tag the package is unexpected.
    pub fn decode(bytes: &[u8]) -> (r: Result<PkgType, Error>)
        ensures
            match r {
                Ok(p) => bytes@.len() >= 4 && PkgType::of_index(u32_of_be(bytes@)) == Some(p),
                Err(Error::Bincode(_)) => bytes@.len() < 4,
                Err(Error::UnexpectedPkg) => bytes@.len() >= 4 && PkgType::of_index(
                    u32_of_be(bytes@),
                ) is None,
                Err(_) => false,
            },
    {
        match get_u32(bytes) {
            Ok(i) => match PkgType::from_index(i) {
                Some(p) => Ok(p),
                None => Err(Error::UnexpectedPkg),
            },
            Err(e) => Err(Error::Bincode(e)),
        }
    }
}

/// Every tag is read back from its encoding, whatever follows it, and no two
/// tags share a number.
pub proof fn lemma_pkg_type_round_trip(p: PkgType, rest: Seq<u8>)
    ensures
        p.encoding().len() == 4,
        PkgType::of_index(p.index()) == Some(p),
        PkgType::of_index(u32_of_be(p.encoding() + rest)) == Some(p),
{
    lemma_u32_round_trip(p.index(), rest);
}

/// Appends a text to `out`: the length of its UTF-8 form, then that form.
pub fn encode_text_into(out: &mut Vec<u8>, text: &str) -> (r: Result<(), Error>)
    ensures
        r is Ok,
        final(out)@ == old(out)@ + encode_text(text@),
{
    match put_text(out, text) {
        Ok(()) => Ok(()),
        Err(e) => Err(Error::Bincode(e)),
    }
}

/// Reads the text that `bytes` starts with, and says how many bytes it takes.
/// Fails where the text is incomplete or not UTF-8.
pub fn decode_text(bytes: &[u8]) -> (r: Result<(String, usize), Fault>)
    ensures
        match r {
            Ok((t, n)) => parse_text(bytes@) == Parsed::Value(t@, n as int) && n <= bytes@.len(),
            Err(f) => f.explains(parse_text(bytes@)) && f.plain(),
        },
{
    match get_text(bytes) {
        Ok(t) => {
            let text = t.as_str();
            let total = bytes.len();
            proof {
                vstd::utf8::decode_utf8_encode_utf8(block_body(bytes@));
                assert(encode_utf8(text@) == block_body(bytes@));
                assert(block_body(bytes@).len() == u64_of_be(bytes@));
                assert(encode_utf8(text@).len() <= total - 8);
            }
            let n = 8 + text.len();
            Ok((t, n))
        },
        Err(e) => match get_block(bytes) {
            Ok(_) => Err(Fault::Invalid(e)),
            Err(_) => Err(Fault::Incomplete(e)),
        },
    }
}

/// A command that a client sends to the server.
#[derive(Clone, Debug, PartialEq, Eq)]
pub enum Command {
    /// Asks for a sign of life.
    Ping,
    /// Ends the session.
    Quit,
    /// Asks for a query to be run.
    Query(String),
}

/// The mathematical value of a [`Command`].
pub enum CommandView {
    Ping,
    Quit,
    Query(Seq<char>),
}

impl View for Command {
    type V = CommandView;

    open spec fn view(&self) -> CommandView {
        match self {
            Command::Ping => CommandView::Ping,
            Command::Quit => CommandView::Quit,
            Command::Query(q) => CommandView::Query(q@),
        }
    }
}

impl CommandView {
    /// The command on the wire: the number of its variant in four bytes,
    /// then, for a query, its text.
    pub open spec fn encoding(self) -> Seq<u8> {
        match self {
            CommandView::Ping => be_u32(0),
            CommandView::Quit => be_u32(1),
            CommandView::Query(q) => be_u32(2) + encode_text(q),
        }
    }

    /// The command that `s` starts with.
    pub open spec fn parse(s: Seq<u8>) -> Parsed<CommandView> {
        if s.len() < 4 {
            Parsed::Incomplete
        } else if u32_of_be(s) == 0 {
            Parsed::Value(CommandView::Ping, 4)
        } else if u32_of_be(s) == 1 {
            Parsed::Value(CommandView::Quit, 4)
        } else if u32_of_be(s) == 2 {
            match parse_text(s.skip(4)) {
                Parsed::Value(q, n) => Parsed::Value(CommandView::Query(q), 4 + n),
                other => other.failure(),
            }
        } else {
            Parsed::UnknownVariant
        }
    }

    /// A command is read back from its encoding, whatever follows it.
    pub proof fn lemma_round_trip(self, rest: Seq<u8>)
        requires
            self matches CommandView::Query(q) ==> encode_utf8(q).len() <= u64::MAX,
        ensures
            CommandView::parse(self.encoding() + rest) == Parsed::Value(
                self,
                self.encoding().len() as int,
            ),
    {
        match self {
            CommandView::Ping => {
                lemma_u32_round_trip(0, rest);
            },
            CommandView::Quit => {
                lemma_u32_round_trip(1, rest);
            },
            CommandView::Query(q) => {
                lemma_u32_round_trip(2, encode_text(q) + rest);
                lemma_text_round_trip(q, rest);
                let s = self.encoding() + rest;
                assert(s =~= be_u32(2) + (encode_text(q) + rest));
                assert(s.skip(4) =~= encode_text(q) + rest);
            },
        }
    }
}

impl Command {
    /// Appends the command to `out`.
    pub fn encode_into(&self, out: &mut Vec<u8>) -> (r: Result<(), Error>)
        ensures
            r is Ok,
            final(out)@ == old(out)@ + self@.encoding(),
    {
        match self {
            Command::Ping => match put_u32(out, 0) {
                Ok(()) => Ok(()),
                Err(e) => Err(Error::Bincode(e)),
            },
            Command::Quit => match put_u32(out, 1) {
                Ok(()) => Ok(()),
                Err(e) => Err(Error::Bincode(e)),
            },
            Command::Query(q) => {
                match put_u32(out, 2) {
                    Ok(()) => {},
                    Err(e) => {
                        return Err(Error::Bincode(e));
                    },
                }
                let r = encode_text_into(out, q.as_str());
                assert(out@ =~= old(out)@ + self@.encoding());
                r
            },
        }
    }

    /// Reads the command that `bytes` starts with, and says how many bytes it
    /// takes.
    pub fn decode(bytes: &[u8]) -> (r: Result<(Command, usize), Fault>)
        ensures
            match r {
                Ok((c, n)) => CommandView::parse(bytes@) == Parsed::Value(c@, n as int) && n
                    <= bytes@.len(),
                Err(f) => f.explains(CommandView::parse(bytes@)),
            },
    {
        let tag = match get_u32(bytes) {
            Ok(tag) => tag,
            Err(e) => {
                return Err(Fault::Incomplete(e));
            },
        };
        if tag == 0 {
            Ok((Command::Ping, 4))
        } else if tag == 1 {
            Ok((Command::Quit, 4))
        } else if tag == 2 {
            let rest = slice_subrange(bytes, 4, bytes.len());
            match decode_text(rest) {
                Ok((q, n)) => Ok((Command::Query(q), 4 + n)),
                Err(f) => Err(f),
            }
        } else {
            Err(Fault::UnknownVariant)
        }
    }
}

/// The name and password with which a client asks for access.
#[derive(Clone, Debug, PartialEq, Eq)]
pub struct Login {
    pub username: String,
    pub password: String,
}

/// The mathematical value of a [`Login`].
pub struct LoginView {
    pub username: Seq<char>,
    pub password: Seq<char>,
}

impl View for Login {
    type V = LoginView;

    open spec fn view(&self) -> LoginView {
        LoginView { username: self.username@, password: self.password@ }
    }
}

impl LoginView {
    /// The login on the wire: the name, then the password.
    pub open spec fn encoding(self) -> Seq<u8> {
        encode_text(self.username) + encode_text(self.password)
    }

    /// The login that `s` starts with.
    pub open spec fn parse(s: Seq<u8>) -> Parsed<LoginView> {
        match parse_text(s) {
            Parsed::Value(username, n) => match parse_text(s.skip(n)) {
                Parsed::Value(password, m) => Parsed::Value(
                    LoginView { username, password },
                    n + m,
                ),
                other => other.failure(),
            },
            other => other.failure(),
        }
    }

    /// A login is read back from its encoding with both fields as they were,
    /// whatever follows it.
    pub proof fn lemma_round_trip(self, rest: Seq<u8>)
        requires
            encode_utf8(self.username).len() <= u64::MAX,
            encode_utf8(self.password).len() <= u64::MAX,
        ensures
            LoginView::parse(self.encoding() + rest) == Parsed::Value(
                self,
                self.encoding().len() as int,
            ),
    {
        let s = self.encoding() + rest;
        lemma_text_round_trip(self.username, encode_text(self.password) + rest);
        lemma_text_round_trip(self.password, rest);
        assert(s =~= encode_text(self.username) + (encode_text(self.password) + rest));
        assert(s.skip(block_size(s)) =~= encode_text(self.password) + rest);
    }
}

impl Login {
    /// Appends the login to `out`.
    pub fn encode_into(&self, out: &mut Vec<u8>) -> (r: Result<(), Error>)
        ensures
            r is Ok,
            final(out)@ == old(out)@ + self@.encoding(),
    {
        match encode_text_into(out, self.username.as_str()) {
            Ok(()) => {},
            Err(e) => {
                return Err(e);
            },
        }
        let r = encode_text_into(out, self.password.as_str());
        assert(out@ =~= old(out)@ + self@.encoding());
        r
    }

    /// Reads the login that `bytes` starts with, and says how many bytes it
    /// takes.
    pub fn decode(bytes: &[u8]) -> (r: Result<(Login, usize), Fault>)
        ensures
            match r {
                Ok((l, n)) => LoginView::parse(bytes@) == Parsed::Value(l@, n as int) && n
                    <= bytes@.len(),
                Err(f) => f.explains(LoginView::parse(bytes@)) && f.plain(),
            },
    {
        let (username, n1) = match decode_text(bytes) {
            Ok(found) => found,
            Err(e) => {
                return Err(e);
            },
        };
        let rest = slice_subrange(bytes, n1, bytes.len());
        let (password, n2) = match decode_text(rest) {
            Ok(found) => found,
            Err(e) => {
                return Err(e);
            },
        };
        Ok((Login { username, password }, n1 + n2))
    }
}

/// What the server sends first: the version of its protocol and a welcome.
#[derive(Clone, Debug, PartialEq, Eq)]
pub struct Greeting {
    pub protocol_version: u8,
    pub message: String,
}

/// The mathematical value of a [`Greeting`].
pub struct GreetingView {
    pub protocol_version: u8,
    pub message: Seq<char>,
}

impl View for Greeting {
    type V = GreetingView;

    open spec fn view(&self) -> GreetingView {
        GreetingView { protocol_version: self.protocol_version, message: self.message@ }
    }
}

impl GreetingView {
    /// The greeting on the wire: one byte for the version, then the message.
    pub open spec fn encoding(self) -> Seq<u8> {
        seq![self.protocol_version] + encode_text(self.message)
    }

    /// The greeting that `s` starts with.
    pub open spec fn parse(s: Seq<u8>) -> Parsed<GreetingView> {
        if s.len() < 1 {
            Parsed::Incomplete
        } else {
            match parse_text(s.skip(1)) {
                Parsed::Value(message, n) => Parsed::Value(
                    GreetingView { protocol_version: s[0], message },
                    1 + n,
                ),
                other => other.failure(),
            }
        }
    }

    /// A greeting is read back from its encoding, whatever follows it.
    pub proof fn lemma_round_trip(self, rest: Seq<u8>)
        requires
            encode_utf8(self.message).len() <= u64::MAX,
        ensures
            GreetingView::parse(self.encoding() + rest) == Parsed::Value(
                self,
                self.encoding().len() as int,
            ),
    {
        let s = self.encoding() + rest;
        lemma_text_round_trip(self.message, rest);
        assert(s.skip(1) =~= encode_text(self.message) + rest);
    }
}

impl Greeting {
    /// The greeting with the given version and message.
    pub fn make_greeting(version: u8, msg: String) -> (g: Greeting)
        ensures
            g.protocol_version == version,
            g.message == msg,
    {
        Greeting { protocol_version: version, message: msg }
    }

    /// Appends the greeting to `out`.
    pub fn encode_into(&self, out: &mut Vec<u8>) -> (r: Result<(), Error>)
        ensures
            r is Ok,
            final(out)@ == old(out)@ + self@.encoding(),
    {
        match put_u8(out, self.protocol_version) {
            Ok(()) => {},
            Err(e) => {
                return Err(Error::Bincode(e));
            },
        }
        let r = encode_text_into(out, self.message.as_str());
        assert(out@ =~= old(out)@ + self@.encoding());
        r
    }

    /// Reads the greeting that `bytes` starts with, and says how many bytes
    /// it takes.
    pub fn decode(bytes: &[u8]) -> (r: Result<(Greeting, usize), Fault>)
        ensures
            match r {
                Ok((g, n)) => GreetingView::parse(bytes@) == Parsed::Value(g@, n as int) && n
                    <= bytes@.len(),
                Err(f) => f.explains(GreetingView::parse(bytes@)) && f.plain(),
            },
    {
        let version = match get_u8(bytes) {
            Ok(version) => version,
            Err(e) => {
                return Err(Fault::Incomplete(e));
            },
        };
        let rest = slice_subrange(bytes, 1, bytes.len());
        match decode_text(rest) {
            Ok((message, n)) => Ok((Greeting { protocol_version: version, message }, 1 + n)),
            Err(e) => Err(e),
        }
    }
}

/// An error as the server reports it to the client: a number and a text.
#[derive(Clone, Debug, PartialEq, Eq)]
pub struct ClientErrMsg {
    pub code: u16,
    pub msg: String,
}

/// The mathematical value of a [`ClientErrMsg`].
pub struct ClientErrMsgView {
    pub code: u16,
    pub msg: Seq<char>,
}

impl View for ClientErrMsg {
    type V = ClientErrMsgView;

    open spec fn view(&self) -> ClientErrMsgView {
        ClientErrMsgView { code: self.code, msg: self.msg@ }
    }
}

impl ClientErrMsgView {
    /// The message on the wire: the code in two bytes, then the text.
    pub open spec fn encoding(self) -> Seq<u8> {
        be_u16(self.code) + encode_text(self.msg)
    }

    /// The message that `s` starts with.
    pub open spec fn parse(s: Seq<u8>) -> Parsed<ClientErrMsgView> {
        if s.len() < 2 {
            Parsed::Incomplete
        } else {
            match parse_text(s.skip(2)) {
                Parsed::Value(msg, n) => Parsed::Value(
                    ClientErrMsgView { code: u16_of_be(s), msg },
                    2 + n,
                ),
                other => other.failure(),
            }
        }
    }

    /// A message is read back from its encoding, whatever follows it.
    pub proof fn lemma_round_trip(self, rest: Seq<u8>)
        requires
            encode_utf8(self.msg).len() <= u64::MAX,
        ensures
            ClientErrMsgView::parse(self.encoding() + rest) == Parsed::Value(
                self,
                self.encoding().len() as int,
            ),
    {
        let s = self.encoding() + rest;
        lemma_u16_round_trip(self.code, encode_text(self.msg) + rest);
        lemma_text_round_trip(self.msg, rest);
        assert(s =~= be_u16(self.code) + (encode_text(self.msg) + rest));
        assert(s.skip(2) =~= encode_text(self.msg) + rest);
    }
}

impl ClientErrMsg {
    /// Appends the message to `out`.
    pub fn encode_into(&self, out: &mut Vec<u8>) -> (r: Result<(), Error>)
        ensures
            r is Ok,
            final(out)@ == old(out)@ + self@.encoding(),
    {
        match put_u16(out, self.code) {
            Ok(()) => {},
            Err(e) => {
                return Err(Error::Bincode(e));
            },
        }
        let r = encode_text_into(out, self.msg.as_str());
        assert(out@ =~= old(out)@ + self@.encoding());
        r
    }

    /// Reads the message that `bytes` starts with, and says how many bytes
    /// it takes.
    pub fn decode(bytes: &[u8]) -> (r: Result<(ClientErrMsg, usize), Fault>)
        ensures
            match r {
                Ok((e, n)) => ClientErrMsgView::parse(bytes@) == Parsed::Value(e@, n as int) && n
                    <= bytes@.len(),
                Err(f) => f.explains(ClientErrMsgView::parse(bytes@)) && f.plain(),
            },
    {
        let code = match get_u16(bytes) {
            Ok(code) => code,
            Err(e) => {
                return Err(Fault::Incomplete(e));
            },
        };
        let rest = slice_subrange(bytes, 2, bytes.len());
        match decode_text(rest) {
            Ok((msg, n)) => Ok((ClientErrMsg { code, msg }, 2 + n)),
            Err(e) => Err(e),
        }
    }
}

impl From<Error> for ClientErrMsg {
    /// The report of an error to the client: the number of its kind and its
    /// description.
    fn from(error: Error) -> (msg: ClientErrMsg)
        ensures
            msg.code == error.spec_code(),
            msg.msg@ == error.spec_description(),
    {
        ClientErrMsg { code: error.code(), msg: String::from_str(error.description()) }
    }
}

impl vstd::std_specs::convert::FromSpecImpl<Error> for ClientErrMsg {
    open spec fn obeys_from_spec() -> bool {
        false
    }

    open spec fn from_spec(error: Error) -> ClientErrMsg {
        arbitrary()
    }
}

/// The rows of a result as a client reads them: the columns, and a cursor
/// that moves forward over the rows.
pub struct DataSet {
    rows: Rows,
}

/// Prepares a result for reading: the cursor stands before the first of the
/// whole rows that the result holds, under the columns of the result. Bytes
/// that are no whole row are counted as surplus; with more columns than a
/// table can have there are no rows, and all bytes are surplus.
pub fn preprocess(data: &ResultSet) -> (set: DataSet)
    ensures
        set.wf(),
        set.cursor().position() == 0,
        set.cursor().cols() == data.columns@,
        data.columns@.len() <= MAX_COLUMNS ==> set.cursor().rows() == chunks(
            data.data@,
            row_len(data.columns@),
            (data.data@.len() / row_len(data.columns@)) as nat,
        ) && set.cursor().spec_surplus() == data.data@.len() % row_len(data.columns@),
        data.columns@.len() > MAX_COLUMNS ==> set.cursor().rows() == Seq::<Seq<u8>>::empty()
            && set.cursor().spec_surplus() == data.data@.len(),
{
    DataSet {
        rows: Rows::whole(
            clone_columns(&data.columns),
            vstd::slice::slice_to_vec(data.data.as_slice()),
        ),
    }
}

impl DataSet {
    /// The cursor over the rows.
    pub closed spec fn cursor(&self) -> Rows {
        self.rows
    }

    /// What holds of every data set.
    pub open spec fn wf(&self) -> bool {
        self.cursor().wf()
    }

    /// The value of column `idx` in the current row, if there is a current
    /// row, it has the column and the field holds a value.
    pub open spec fn current_value(&self, idx: usize) -> Option<ValueView> {
        if self.cursor().position() >= 1 && idx < self.cursor().cols().len() {
            value_at(
                self.cursor().cols(),
                self.cursor().rows()[self.cursor().position() - 1],
                idx as int,
            )
        } else {
            None
        }
    }

    /// Whether there is no row at all.
    pub fn data_empty(&self) -> (b: bool)
        requires
            self.wf(),
        ensures
            b == (self.cursor().rows().len() == 0),
    {
        self.rows.data_empty()
    }

    /// Whether there is no column at all.
    pub fn metadata_empty(&self) -> (b: bool)
        ensures
            b == (self.cursor().cols().len() == 0),
    {
        self.rows.metadata_empty()
    }

    /// The number of bytes of the result that are shown in no row, because
    /// they were no whole row.
    pub fn surplus(&self) -> (n: usize)
        ensures
            n == self.cursor().spec_surplus(),
    {
        self.rows.surplus()
    }

    /// The number of columns.
    pub fn get_col_cnt(&self) -> (n: usize)
        ensures
            n == self.cursor().cols().len(),
    {
        self.rows.columns().len()
    }

    /// The name of column `idx`, if there is such a column.
    pub fn get_col_name(&self, idx: usize) -> (r: Option<&str>)
        ensures
            match r {
                Some(name) => idx < self.cursor().cols().len() && name@
                    == self.cursor().cols()[idx as int].name@,
                None => idx >= self.cursor().cols().len(),
            },
    {
        let cols = self.rows.columns();
        if idx < cols.len() {
            Some(cols[idx].name.as_str())
        } else {
            None
        }
    }

    /// The description of column `idx`, if there is such a column.
    pub fn get_description_by_idx(&self, idx: usize) -> (r: Option<&str>)
        ensures
            match r {
                Some(text) => idx < self.cursor().cols().len() && text@
                    == self.cursor().cols()[idx as int].description@,
                None => idx >= self.cursor().cols().len(),
            },
    {
        let cols = self.rows.columns();
        if idx < cols.len() {
            Some(cols[idx].description.as_str())
        } else {
            None
        }
    }

    /// The type of column `idx`, if there is such a column.
    pub fn get_type_by_idx(&self, idx: usize) -> (r: Option<SqlType>)
        ensures
            match r {
                Some(t) => idx < self.cursor().cols().len() && t
                    == self.cursor().cols()[idx as int].sql_type,
                None => idx >= self.cursor().cols().len(),
            },
    {
        let cols = self.rows.columns();
        if idx < cols.len() {
            Some(cols[idx].sql_type)
        } else {
            None
        }
    }

    /// Whether column `idx` is the primary key, if there is such a column.
    pub fn get_is_primary_key_by_idx(&self, idx: usize) -> (r: Option<bool>)
        ensures
            match r {
                Some(b) => idx < self.cursor().cols().len() && b
                    == self.cursor().cols()[idx as int].is_primary_key,
                None => idx >= self.cursor().cols().len(),
            },
    {
        let cols = self.rows.columns();
        if idx < cols.len() {
            Some(cols[idx].is_primary_key)
        } else {
            None
        }
    }

    /// Whether column `idx` allows null, if there is such a column.
    pub fn get_allow_null_by_idx(&self, idx: usize) -> (r: Option<bool>)
        ensures
            match r {
                Some(b) => idx < self.cursor().cols().len() && b
                    == self.cursor().cols()[idx as int].allow_null,
                None => idx >= self.cursor().cols().len(),
            },
    {
        let cols = self.rows.columns();
        if idx < cols.len() {
            Some(cols[idx].allow_null)
        } else {
            None
        }
    }

    /// Moves to the next row and says whether there was one.
    pub fn next(&mut self) -> (b: bool)
        requires
            old(self).wf(),
        ensures
            final(self).wf(),
            final(self).cursor().cols() == old(self).cursor().cols(),
            final(self).cursor().rows() == old(self).cursor().rows(),
            final(self).cursor().spec_surplus() == old(self).cursor().spec_surplus(),
            b == (old(self).cursor().position() < old(self).cursor().rows().len()),
            final(self).cursor().position() == old(self).cursor().position() + if b {
                1nat
            } else {
                0nat
            },
    {
        self.rows.next()
    }

    /// The integer in column `idx` of the current row, if the row holds one
    /// there.
    pub fn next_int_by_idx(&self, idx: usize) -> (r: Option<i32>)
        requires
            self.wf(),
        ensures
            r == match self.current_value(idx) {
                Some(ValueView::Int(v)) => Some(v),
                _ => None::<i32>,
            },
    {
        match self.rows.get_value(idx) {
            Ok(Value::Int(v)) => Some(v),
            _ => None,
        }
    }

    /// The truth value in column `idx` of the current row, if the row holds
    /// one there.
    pub fn next_bool_by_idx(&self, idx: usize) -> (r: Option<bool>)
        requires
            self.wf(),
        ensures
            r == match self.current_value(idx) {
                Some(ValueView::Bool(b)) => Some(b),
                _ => None::<bool>,
            },
    {
        match self.rows.get_value(idx) {
            Ok(Value::Bool(b)) => Some(b),
            _ => None,
        }
    }

    /// The text in column `idx` of the current row, if the row holds one
    /// there.
    pub fn next_char_by_idx(&self, idx: usize) -> (r: Option<String>)
        requires
            self.wf(),
        ensures
            match r {
                Some(t) => self.current_value(idx) == Some(ValueView::Char(t@)),
                None => !(self.current_value(idx) matches Some(ValueView::Char(_))),
            },
    {
        match self.rows.get_value(idx) {
            Ok(Value::Char(t)) => Some(t),
            _ => None,
        }
    }
}

} // verus!
