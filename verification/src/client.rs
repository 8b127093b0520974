//! The client side of a session: connecting, and sending commands.
//!
//! A connection works on the two directions of a stream held in memory. What
//! it writes is appended to the output; what it reads is taken from the
//! input, which must hold the answer of the server by then.

use crate::net::result::ResultSetView;
use crate::net::stream::{ByteReader, Duplex};
use crate::net::types::{
    preprocess, ClientErrMsg, ClientErrMsgView, Command, CommandView, DataSet, Greeting,
    GreetingView, Login, LoginView, PkgType,
};
use crate::net::wire::{u32_of_be, Fault, Parsed};
use crate::storage::data::{chunks, ResultSet};
use crate::storage::meta::{row_len, MAX_COLUMNS};
use crate::storage::types::column_views;
use vstd::prelude::*;
use vstd::slice::slice_subrange;

verus! {

/// The version of the protocol that this library speaks.
pub const PROTOCOL_VERSION: u8 = 1;

/// Client specific Error definition.
#[derive(Debug)]
pub enum Error {
    /// The address of the server is no IPv4 address.
    AddrParse,
    /// The connection failed.
    Io(std::io::Error),
    /// A package arrived that the state of the session does not allow.
    UnexpectedPkg,
    /// A package is incomplete or not in the form of its type.
    Bincode(bincode::Error),
    /// The server denied access.
    Auth,
    /// The server reported an error.
    Server(ClientErrMsg),
}

impl Error {
    /// The text that describes the error: a fixed one for each kind, and for
    /// an error of the server the text that it sent.
    pub open spec fn spec_description(&self) -> Seq<char> {
        match self {
            Error::AddrParse => "wrong IPv4 address format"@,
            Error::Io(_) => "IO error occured"@,
            Error::UnexpectedPkg => "received unexpected package"@,
            Error::Bincode(_) => "could not encode/decode send package"@,
            Error::Auth => "could not authenticate user"@,
            Error::Server(e) => e.msg@,
        }
    }

    /// A short description of the error.
    pub fn description(&self) -> (s: &str)
        ensures
            s@ == self.spec_description(),
    {
        match self {
            Error::AddrParse => "wrong IPv4 address format",
            Error::Io(_) => "IO error occured",
            Error::UnexpectedPkg => "received unexpected package",
            Error::Bincode(_) => "could not encode/decode send package",
            Error::Auth => "could not authenticate user",
            Error::Server(e) => e.msg.as_str(),
        }
    }

    /// The description as an owned text.
    pub fn to_string(&self) -> (s: String)
        ensures
            s@ == self.spec_description(),
    {
        String::from_str(self.description())
    }

    /// The error of the client for an error of the wire: a package that
    /// cannot be decoded stays one, and every other is an unexpected package.
    pub fn from_net(e: crate::net::Error) -> (r: Error)
        ensures
            e is Bincode ==> r is Bincode,
            !(e is Bincode) ==> r is UnexpectedPkg,
    {
        match e {
            crate::net::Error::Bincode(b) => Error::Bincode(b),
            _ => Error::UnexpectedPkg,
        }
    }
}

impl Error {
    /// The error of the client for bytes that could not be decoded.
    pub fn from_fault(f: Fault) -> (r: Error)
        ensures
            f is UnknownVariant ==> r is UnexpectedPkg,
            !(f is UnknownVariant) ==> r is Bincode,
    {
        match f {
            Fault::Incomplete(e) => Error::Bincode(e),
            Fault::Invalid(e) => Error::Bincode(e),
            Fault::UnknownVariant => Error::UnexpectedPkg,
        }
    }
}

/// A failure of the connection is an `Io` error that holds it.
impl From<std::io::Error> for Error {
    fn from(err: std::io::Error) -> (e: Error)
        ensures
            e == Error::Io(err),
    {
        Error::Io(err)
    }
}

impl vstd::std_specs::convert::FromSpecImpl<std::io::Error> for Error {
    open spec fn obeys_from_spec() -> bool {
        true
    }

    open spec fn from_spec(err: std::io::Error) -> Error {
        Error::Io(err)
    }
}

/// An error of the decoder is a `Bincode` error that holds it.
impl From<bincode::Error> for Error {
    fn from(err: bincode::Error) -> (e: Error)
        ensures
            e == Error::Bincode(err),
    {
        Error::Bincode(err)
    }
}

impl vstd::std_specs::convert::FromSpecImpl<bincode::Error> for Error {
    open spec fn obeys_from_spec() -> bool {
        true
    }

    open spec fn from_spec(err: bincode::Error) -> Error {
        Error::Bincode(err)
    }
}

/// An error message of the server is a `Server` error that holds it.
impl From<ClientErrMsg> for Error {
    fn from(err: ClientErrMsg) -> (e: Error)
        ensures
            e == Error::Server(err),
    {
        Error::Server(err)
    }
}

impl vstd::std_specs::convert::FromSpecImpl<ClientErrMsg> for Error {
    open spec fn obeys_from_spec() -> bool {
        true
    }

    open spec fn from_spec(err: ClientErrMsg) -> Error {
        Error::Server(err)
    }
}

/// What the client finds where it expects a package with a given tag.
pub enum Reply {
    /// The expected tag; with it, so many bytes are taken.
    Expected(int),
    /// Another package; with its content, so many bytes are taken.
    Unexpected(int),
    /// An error package with this message; with it, so many bytes are taken.
    Refused(ClientErrMsgView, int),
    /// A package that is not complete yet.
    Incomplete,
    /// A package that is not in the form of its type.
    Invalid,
}

/// The content of a package with the tag `tag` at the start of `s`, as far
/// as the client skips it where the package is unexpected: a result after
/// `Response`, a greeting after `Greet`, and nothing after any other tag.
pub open spec fn content(tag: PkgType, s: Seq<u8>) -> Parsed<()> {
    match tag {
        PkgType::Response => match ResultSetView::parse(s) {
            Parsed::Value(_, n) => Parsed::Value((), n),
            other => other.failure(),
        },
        PkgType::Greet => match GreetingView::parse(s) {
            Parsed::Value(_, n) => Parsed::Value((), n),
            other => other.failure(),
        },
        _ => Parsed::Value((), 0),
    }
}

/// What stands at the start of `s` for a client that expects the tag
/// `expected`. An error package is always taken as the error that it
/// reports. A tag that the protocol does not have is unexpected.
pub open spec fn reply(s: Seq<u8>, expected: PkgType) -> Reply {
    if s.len() < 4 {
        Reply::Incomplete
    } else {
        match PkgType::of_index(u32_of_be(s)) {
            None => Reply::Unexpected(4),
            Some(PkgType::Error) => match ClientErrMsgView::parse(s.skip(4)) {
                Parsed::Value(m, n) => Reply::Refused(m, 4 + n),
                Parsed::Incomplete => Reply::Incomplete,
                _ => Reply::Invalid,
            },
            Some(tag) => if tag == expected {
                Reply::Expected(4)
            } else {
                match content(tag, s.skip(4)) {
                    Parsed::Value(_, n) => Reply::Unexpected(4 + n),
                    Parsed::Incomplete => Reply::Incomplete,
                    _ => Reply::Invalid,
                }
            },
        }
    }
}

/// What receiving makes of a reply, for the bytes `s` that are on the stream
/// before, the result `r` and the bytes `after` that are left on it. A
/// package that is incomplete or invalid cannot be decoded and leaves the
/// stream as it is.
pub open spec fn replied(rep: Reply, s: Seq<u8>, r: Result<(), Error>, after: Seq<u8>) -> bool {
    match rep {
        Reply::Expected(n) => r is Ok && after == s.skip(n),
        Reply::Unexpected(n) => r matches Err(Error::UnexpectedPkg) && after == s.skip(n),
        Reply::Refused(m, n) => r matches Err(Error::Server(e)) && e@ == m && after == s.skip(n),
        _ => r matches Err(Error::Bincode(_)) && after == s,
    }
}

/// Return current library version.
pub fn get_lib_version() -> (v: u8)
    ensures
        v == PROTOCOL_VERSION,
{
    PROTOCOL_VERSION
}

/// Send command package with actual command, e.g. quit, ping, query.
pub fn send_cmd(s: &mut Vec<u8>, cmd: Command, _size: u64) -> (r: Result<(), Error>)
    ensures
        r is Ok,
        final(s)@ == old(s)@ + PkgType::Command.encoding() + cmd@.encoding(),
{
    match PkgType::Command.encode_into(s) {
        Ok(()) => {},
        Err(e) => {
            return Err(Error::from_net(e));
        },
    }
    match cmd.encode_into(s) {
        Ok(()) => Ok(()),
        Err(e) => Err(Error::from_net(e)),
    }
}

/// What stands on the stream for a client that expects the tag `cmd`, with
/// the error of the decoder where the package cannot be decoded.
fn inspect(rest: &[u8], cmd: PkgType) -> (r: Result<(Result<(), Error>, usize), Fault>)
    ensures
        match r {
            Ok((res, n)) => n <= rest@.len() && match reply(rest@, cmd) {
                Reply::Expected(k) => res is Ok && n == k,
                Reply::Unexpected(k) => res matches Err(Error::UnexpectedPkg) && n == k,
                Reply::Refused(m, k) => res matches Err(Error::Server(e)) && e@ == m && n == k,
                _ => false,
            },
            Err(Fault::Incomplete(_)) => reply(rest@, cmd) is Incomplete,
            Err(Fault::Invalid(_)) => reply(rest@, cmd) is Invalid,
            Err(_) => false,
        },
{
    let status = match PkgType::decode(rest) {
        Ok(status) => status,
        Err(crate::net::Error::Bincode(e)) => {
            return Err(Fault::Incomplete(e));
        },
        Err(_) => {
            return Ok((Err(Error::UnexpectedPkg), 4));
        },
    };
    let content = slice_subrange(rest, 4, rest.len());

    if status == PkgType::Error {
        return match ClientErrMsg::decode(content) {
            Ok((err, n)) => Ok((Err(Error::Server(err)), 4 + n)),
            Err(Fault::Incomplete(e)) => Err(Fault::Incomplete(e)),
            Err(Fault::Invalid(e)) => Err(Fault::Invalid(e)),
            Err(Fault::UnknownVariant) => Ok((Err(Error::UnexpectedPkg), 4)),
        };
    }
    if status != cmd {
        let skipped = match status {
            PkgType::Okay => Ok(0),
            PkgType::Response => match ResultSet::decode(content) {
                Ok((_, n)) => Ok(n),
                Err(f) => Err(f),
            },
            PkgType::Greet => match Greeting::decode(content) {
                Ok((_, n)) => Ok(n),
                Err(f) => Err(f),
            },
            _ => Ok(0),
        };
        return match skipped {
            Ok(n) => Ok((Err(Error::UnexpectedPkg), 4 + n)),
            Err(Fault::Incomplete(e)) => Err(Fault::Incomplete(e)),
            Err(Fault::Invalid(e)) => Err(Fault::Invalid(e)),
            Err(Fault::UnknownVariant) => Ok((Err(Error::UnexpectedPkg), 4)),
        };
    }
    Ok((Ok(()), 4))
}

/// Whether the package that a client expecting the tag `cmd` waits for has
/// not arrived completely: more bytes are to be read before it is received.
pub fn is_pending(rest: &[u8], cmd: PkgType) -> (b: bool)
    ensures
        b == (reply(rest@, cmd) is Incomplete),
{
    match inspect(rest, cmd) {
        Err(Fault::Incomplete(_)) => true,
        _ => false,
    }
}

/// What a reader finds that takes a package only once it has arrived.
#[derive(Debug)]
pub enum Poll<T> {
    /// The package has not arrived completely; nothing has been taken from
    /// the stream. The error is the one that the decoder gives for what is
    /// there.
    Pending(bincode::Error),
    /// The package has arrived and has been read with this result.
    Ready(T),
}

/// What polling makes of a reply, for the bytes `s` that are on the stream
/// before, the result `r` and the bytes `after` that are left on it: an
/// incomplete package is pending and stays on the stream, and every other
/// reply is received.
pub open spec fn polled(rep: Reply, s: Seq<u8>, r: Poll<Result<(), Error>>, after: Seq<u8>) -> bool {
    match rep {
        Reply::Incomplete => r is Pending && after == s,
        other => r matches Poll::Ready(res) && replied(other, s, res, after),
    }
}

/// Reads the package with the tag `cmd` from the stream once it has arrived.
pub fn poll(s: &mut ByteReader, cmd: PkgType) -> (r: Poll<Result<(), Error>>)
    ensures
        polled(reply(old(s).remaining(), cmd), old(s).remaining(), r, final(s).remaining()),
{
    match inspect(s.rest(), cmd) {
        Ok((res, n)) => {
            s.skip(n);
            Poll::Ready(res)
        },
        Err(Fault::Incomplete(e)) => Poll::Pending(e),
        Err(f) => Poll::Ready(Err(Error::from_fault(f))),
    }
}

/// Match received packages to expected packages.
pub fn receive(s: &mut ByteReader, cmd: PkgType) -> (r: Result<(), Error>)
    ensures
        replied(reply(old(s).remaining(), cmd), old(s).remaining(), r, final(s).remaining()),
{
    match poll(s, cmd) {
        Poll::Ready(res) => res,
        Poll::Pending(e) => Err(Error::Bincode(e)),
    }
}

/// What the client finds where it expects the greeting of the server.
pub enum Greeted {
    /// The greeting; with its tag, so many bytes are taken.
    Value(GreetingView, int),
    /// Another package.
    Unexpected,
    /// An error package with this message.
    Refused(ClientErrMsgView),
    /// A package that is not complete yet.
    Incomplete,
    /// A package that is not in the form of its type.
    Invalid,
}

/// What stands at the start of `s` for a client that expects the greeting of
/// the server: the tag `Greet` and the greeting after it.
pub open spec fn greeted(s: Seq<u8>) -> Greeted {
    match reply(s, PkgType::Greet) {
        Reply::Expected(n) => match GreetingView::parse(s.skip(n)) {
            Parsed::Value(g, m) => Greeted::Value(g, n + m),
            Parsed::Incomplete => Greeted::Incomplete,
            _ => Greeted::Invalid,
        },
        Reply::Unexpected(_) => Greeted::Unexpected,
        Reply::Refused(m, _) => Greeted::Refused(m),
        Reply::Incomplete => Greeted::Incomplete,
        Reply::Invalid => Greeted::Invalid,
    }
}

/// How the server answers a client that connects.
pub enum Start {
    /// It greets with this greeting and grants access; with the grant, so
    /// many bytes are taken.
    Granted(GreetingView, int),
    /// It greets and denies access.
    Denied,
    /// It sends a package that the state of the session does not allow.
    Unexpected,
    /// It reports an error.
    Refused(ClientErrMsgView),
    /// It sends a package that is incomplete or not in the form of its type.
    Broken,
}

/// How a server that sent `s` answers a client that connects: the greeting
/// tag and the greeting come first, then the tag that grants or denies
/// access.
pub open spec fn start(s: Seq<u8>) -> Start {
    match greeted(s) {
        Greeted::Value(g, k) => if s.skip(k).len() < 4 {
            Start::Broken
        } else {
            match PkgType::of_index(u32_of_be(s.skip(k))) {
                Some(PkgType::AccGranted) => Start::Granted(g, k + 4),
                Some(PkgType::AccDenied) => Start::Denied,
                _ => Start::Unexpected,
            }
        },
        Greeted::Unexpected => Start::Unexpected,
        Greeted::Refused(m) => Start::Refused(m),
        _ => Start::Broken,
    }
}

/// Whether `set` presents the result `v` for reading: it has the columns
/// of the result, and its cursor stands before the first of the whole rows.
/// Bytes that are no whole row are counted as surplus; with more columns
/// than a table can have there are no rows, and all bytes are surplus.
pub open spec fn presents(set: DataSet, v: ResultSetView) -> bool {
    &&& set.wf()
    &&& set.cursor().position() == 0
    &&& column_views(set.cursor().cols()) == v.columns
    &&& v.columns.len() <= MAX_COLUMNS ==> set.cursor().rows() == chunks(
        v.data,
        row_len(set.cursor().cols()),
        (v.data.len() / row_len(set.cursor().cols())) as nat,
    ) && set.cursor().spec_surplus() == v.data.len() % row_len(set.cursor().cols())
    &&& v.columns.len() > MAX_COLUMNS ==> set.cursor().rows() == Seq::<Seq<u8>>::empty()
        && set.cursor().spec_surplus() == v.data.len()
}

/// What the client finds where it expects the result of a query.
pub enum Answer {
    /// The result; with its tag, so many bytes are taken.
    Rows(ResultSetView, int),
    /// Another package; with its content, so many bytes are taken.
    Unexpected(int),
    /// An error package with this message; with it, so many bytes are taken.
    Refused(ClientErrMsgView, int),
    /// A package that is not complete yet.
    Incomplete,
    /// A package that is not in the form of its type.
    Invalid,
}

/// What stands at the start of `s` for a client that expects the result of a
/// query: the tag `Response` and the result after it.
pub open spec fn answer(s: Seq<u8>) -> Answer {
    match reply(s, PkgType::Response) {
        Reply::Expected(n) => match ResultSetView::parse(s.skip(n)) {
            Parsed::Value(v, m) => Answer::Rows(v, n + m),
            Parsed::Incomplete => Answer::Incomplete,
            _ => Answer::Invalid,
        },
        Reply::Unexpected(n) => Answer::Unexpected(n),
        Reply::Refused(m, n) => Answer::Refused(m, n),
        Reply::Incomplete => Answer::Incomplete,
        Reply::Invalid => Answer::Invalid,
    }
}

/// What reading the result of a query makes of an answer, for the bytes `s`
/// that are on the stream before, the result `r` and the bytes `after` that
/// are left on it. A result is presented for reading. A package that is
/// incomplete or invalid cannot be decoded and leaves the stream as it is.
pub open spec fn answered(a: Answer, s: Seq<u8>, r: Result<DataSet, Error>, after: Seq<u8>)
    -> bool {
    match a {
        Answer::Rows(v, n) => r matches Ok(set) && presents(set, v) && after == s.skip(n),
        Answer::Unexpected(n) => r matches Err(Error::UnexpectedPkg) && after == s.skip(n),
        Answer::Refused(m, n) => r matches Err(Error::Server(e)) && e@ == m && after == s.skip(n),
        _ => r matches Err(Error::Bincode(_)) && after == s,
    }
}

/// What polling for the result of a query makes of an answer: an incomplete
/// package is pending and stays on the stream, and every other answer is
/// read.
pub open spec fn polled_rows(
    a: Answer,
    s: Seq<u8>,
    r: Poll<Result<DataSet, Error>>,
    after: Seq<u8>,
) -> bool {
    match a {
        Answer::Incomplete => r is Pending && after == s,
        other => r matches Poll::Ready(res) && answered(other, s, res, after),
    }
}

/// Reads the result of a query from the stream once it has arrived.
pub fn poll_rows(s: &mut ByteReader) -> (r: Poll<Result<DataSet, Error>>)
    ensures
        polled_rows(answer(old(s).remaining()), old(s).remaining(), r, final(s).remaining()),
{
    let rest = s.rest();
    match inspect(rest, PkgType::Response) {
        Ok((Ok(()), n)) => {
            match ResultSet::decode(slice_subrange(rest, n, rest.len())) {
                Ok((rows, m)) => {
                    s.skip(n + m);
                    assert(old(s).remaining().skip(n as int).skip(m as int) =~= old(
                        s,
                    ).remaining().skip(n + m));
                    Poll::Ready(Ok(preprocess(&rows)))
                },
                Err(Fault::Incomplete(e)) => Poll::Pending(e),
                Err(f) => Poll::Ready(Err(Error::from_fault(f))),
            }
        },
        Ok((Err(e), n)) => {
            s.skip(n);
            Poll::Ready(Err(e))
        },
        Err(Fault::Incomplete(e)) => Poll::Pending(e),
        Err(f) => Poll::Ready(Err(Error::from_fault(f))),
    }
}

/// How the opening of a session goes on, for what has arrived.
pub enum Opened {
    /// More bytes are waited for. The greeting is known or not yet; so many
    /// bytes are taken from the input, and these bytes are written.
    Waiting(Option<GreetingView>, int, Seq<u8>),
    /// Access is granted under this greeting; so many bytes are taken from
    /// the input, and these bytes are written.
    Granted(GreetingView, int, Seq<u8>),
    /// Access is denied.
    Denied,
    /// A package has arrived that the state of the session does not allow.
    Unexpected,
    /// The server reports an error.
    Refused(ClientErrMsgView),
    /// A package has arrived that is not in the form of its type.
    Invalid,
}

/// How the opening goes on once the greeting `g` is known and `t` is on the
/// input: the tag that grants or denies access is waited for and read.
pub open spec fn admitted(g: GreetingView, t: Seq<u8>, taken: int, sent: Seq<u8>) -> Opened {
    if t.len() < 4 {
        Opened::Waiting(Some(g), taken, sent)
    } else {
        match PkgType::of_index(u32_of_be(t)) {
            Some(PkgType::AccGranted) => Opened::Granted(g, taken + 4, sent),
            Some(PkgType::AccDenied) => Opened::Denied,
            _ => Opened::Unexpected,
        }
    }
}

/// How the opening of a session goes on with `s` on the input. As long as
/// the greeting is not known, the greeting tag and the greeting are waited
/// for; once they have arrived they are taken and the login is written. Then
/// the tag that grants or denies access is waited for.
pub open spec fn opened(greeting: Option<GreetingView>, login: LoginView, s: Seq<u8>) -> Opened {
    match greeting {
        Some(g) => admitted(g, s, 0, Seq::empty()),
        None => match greeted(s) {
            Greeted::Value(g, k) => admitted(
                g,
                s.skip(k),
                k,
                PkgType::Login.encoding() + login.encoding(),
            ),
            Greeted::Unexpected => Opened::Unexpected,
            Greeted::Refused(m) => Opened::Refused(m),
            Greeted::Incomplete => Opened::Waiting(None, 0, Seq::empty()),
            Greeted::Invalid => Opened::Invalid,
        },
    }
}

/// Reads the greeting of the server, with its tag, from the bytes that have
/// arrived.
fn read_greeting(rest: &[u8]) -> (r: Result<(Result<Greeting, Error>, usize), Fault>)
    ensures
        match r {
            Ok((Ok(g), k)) => greeted(rest@) == Greeted::Value(g@, k as int) && k <= rest@.len(),
            Ok((Err(Error::UnexpectedPkg), _)) => greeted(rest@) is Unexpected,
            Ok((Err(Error::Server(e)), _)) => greeted(rest@) == Greeted::Refused(e@),
            Ok((Err(_), _)) => false,
            Err(Fault::Incomplete(_)) => greeted(rest@) is Incomplete,
            Err(Fault::Invalid(_)) => greeted(rest@) is Invalid,
            Err(_) => false,
        },
{
    match inspect(rest, PkgType::Greet) {
        Ok((Ok(()), n)) => match Greeting::decode(slice_subrange(rest, n, rest.len())) {
            Ok((greet, m)) => Ok((Ok(greet), n + m)),
            Err(Fault::Incomplete(e)) => Err(Fault::Incomplete(e)),
            Err(Fault::Invalid(e)) => Err(Fault::Invalid(e)),
            Err(Fault::UnknownVariant) => Ok((Err(Error::UnexpectedPkg), 0)),
        },
        Ok((Err(e), n)) => Ok((Err(e), n)),
        Err(f) => Err(f),
    }
}

/// Stores the connection with a server. Contains IP, Port, Login data and
/// greeting from server.
pub struct Connection {
    ip: String,
    port: u16,
    tcp: Duplex,
    greeting: Greeting,
    user_data: Login,
}

/// A session that is being opened: the greeting of the server is read, the
/// login is sent, and the answer to it is read, each as soon as the bytes
/// for it have arrived.
pub struct Handshake {
    ip: String,
    port: u16,
    tcp: Duplex,
    greeting: Option<Greeting>,
    user_data: Login,
}

/// What a step of the opening of a session gives.
pub enum Opening {
    /// More bytes are waited for: what has been written is to be sent, and
    /// what arrives is to be fed. The error is the one that the decoder gives
    /// for what is there.
    Pending(Handshake, bincode::Error),
    /// The opening has ended, with the connection or with an error.
    Done(Result<Connection, Error>),
}

impl Handshake {
    /// The address of the server.
    pub closed spec fn spec_ip(&self) -> Seq<char> {
        self.ip@
    }

    /// The port of the server.
    pub closed spec fn spec_port(&self) -> u16 {
        self.port
    }

    /// The greeting of the server, once it has been read.
    pub closed spec fn spec_greeting(&self) -> Option<GreetingView> {
        match self.greeting {
            Some(g) => Some(g@),
            None => None,
        }
    }

    /// The login that the client sends.
    pub closed spec fn spec_login(&self) -> LoginView {
        self.user_data@
    }

    /// The bytes that have arrived from the server and have not been read.
    pub closed spec fn spec_input(&self) -> Seq<u8> {
        self.tcp.input.remaining()
    }

    /// The bytes that have been written and are to be sent to the server.
    pub closed spec fn spec_output(&self) -> Seq<u8> {
        self.tcp.output@
    }

    /// Whether two handshakes differ in their stream and greeting at most.
    pub open spec fn same_peer(&self, other: &Handshake) -> bool {
        &&& self.spec_ip() == other.spec_ip()
        &&& self.spec_port() == other.spec_port()
        &&& self.spec_login() == other.spec_login()
    }

    /// Starts to open a session on the stream `tcp` to the server at the
    /// given address and port. `ip` is the address as an IPv4 address, if it
    /// is one: an address that is none is refused before anything is read or
    /// written.
    pub fn begin(
        addr: String,
        ip: Option<[u8; 4]>,
        port: u16,
        usern: String,
        passwd: String,
        tcp: Duplex,
    ) -> (r: Result<Handshake, Error>)
        ensures
            match r {
                Ok(h) => ip is Some && h.spec_ip() == addr@ && h.spec_port() == port
                    && h.spec_login() == (LoginView { username: usern@, password: passwd@ })
                    && h.spec_greeting() is None && h.spec_input() == tcp.input.remaining()
                    && h.spec_output() == tcp.output@,
                Err(e) => ip is None && e is AddrParse,
            },
    {
        if ip.is_none() {
            return Err(Error::AddrParse);
        }
        Ok(
            Handshake {
                ip: addr,
                port: port,
                tcp: tcp,
                greeting: None,
                user_data: Login { username: usern, password: passwd },
            },
        )
    }

    /// Appends bytes that have arrived from the server.
    pub fn feed(&mut self, bytes: &[u8])
        ensures
            final(self).same_peer(old(self)),
            final(self).spec_greeting() == old(self).spec_greeting(),
            final(self).spec_input() == old(self).spec_input() + bytes@,
            final(self).spec_output() == old(self).spec_output(),
    {
        self.tcp.input.feed(bytes);
    }

    /// Takes the bytes that are to be sent to the server.
    pub fn take_output(&mut self) -> (bytes: Vec<u8>)
        ensures
            final(self).same_peer(old(self)),
            final(self).spec_greeting() == old(self).spec_greeting(),
            final(self).spec_input() == old(self).spec_input(),
            final(self).spec_output() == Seq::<u8>::empty(),
            bytes@ == old(self).spec_output(),
    {
        let mut bytes: Vec<u8> = Vec::new();
        std::mem::swap(&mut bytes, &mut self.tcp.output);
        bytes
    }

    /// Reads the tag that grants or denies access, once the greeting is
    /// known and the tag has arrived.
    fn settle(self) -> (r: Opening)
        requires
            self.spec_greeting() is Some,
        ensures
            match admitted(self.spec_greeting()->Some_0, self.spec_input(), 0, Seq::empty()) {
                Opened::Waiting(_, _, _) => r matches Opening::Pending(h, _) && h.same_peer(&self)
                    && h.spec_greeting() == self.spec_greeting() && h.spec_input()
                    == self.spec_input() && h.spec_output() == self.spec_output(),
                Opened::Granted(g, _, _) => r matches Opening::Done(Ok(c)) && c.spec_ip()
                    == self.spec_ip() && c.spec_port() == self.spec_port() && c.spec_login()
                    == self.spec_login() && c.spec_greeting() == g && c.spec_input()
                    == self.spec_input().skip(4) && c.spec_output() == self.spec_output(),
                Opened::Denied => r matches Opening::Done(Err(Error::Auth)),
                _ => r matches Opening::Done(Err(Error::UnexpectedPkg)),
            },
    {
        let mut h = self;
        // Get Login response - either user is authorized or unauthorized
        let status = match PkgType::decode(h.tcp.input.rest()) {
            Ok(status) => status,
            Err(crate::net::Error::Bincode(e)) => {
                return Opening::Pending(h, e);
            },
            Err(_) => {
                return Opening::Done(Err(Error::UnexpectedPkg));
            },
        };
        match status {
            PkgType::AccGranted => {
                h.tcp.input.skip(4);
                match h.greeting {
                    Some(greet) => Opening::Done(
                        Ok(
                            Connection {
                                ip: h.ip,
                                port: h.port,
                                tcp: h.tcp,
                                greeting: greet,
                                user_data: h.user_data,
                            },
                        ),
                    ),
                    None => Opening::Done(Err(Error::UnexpectedPkg)),
                }
            },
            PkgType::AccDenied => Opening::Done(Err(Error::Auth)),
            _ => Opening::Done(Err(Error::UnexpectedPkg)),
        }
    }

    /// Takes the greeting with its `taken` bytes from the input and writes
    /// the login.
    fn greet(&mut self, greeting: Greeting, taken: usize)
        requires
            taken <= old(self).spec_input().len(),
        ensures
            final(self).same_peer(old(self)),
            final(self).spec_greeting() == Some(greeting@),
            final(self).spec_input() == old(self).spec_input().skip(taken as int),
            final(self).spec_output() == old(self).spec_output() + (PkgType::Login.encoding()
                + old(self).spec_login().encoding()),
    {
        self.tcp.input.skip(taken);
        self.greeting = Some(greeting);
        // Login package and login data
        let _ = PkgType::Login.encode_into(&mut self.tcp.output);
        let _ = self.user_data.encode_into(&mut self.tcp.output);
        assert(self.tcp.output@ =~= old(self).tcp.output@ + (PkgType::Login.encoding()
            + self.user_data@.encoding()));
    }

    /// Goes on with the opening as far as the bytes that have arrived allow,
    /// as [`opened`] says.
    pub fn advance(self) -> (r: Opening)
        ensures
            match opened(self.spec_greeting(), self.spec_login(), self.spec_input()) {
                Opened::Waiting(g, taken, sent) => r matches Opening::Pending(h, _) && h.same_peer(
                    &self,
                ) && h.spec_greeting() == g && h.spec_input() == self.spec_input().skip(taken)
                    && h.spec_output() == self.spec_output() + sent,
                Opened::Granted(g, taken, sent) => r matches Opening::Done(Ok(c)) && c.spec_ip()
                    == self.spec_ip() && c.spec_port() == self.spec_port() && c.spec_login()
                    == self.spec_login() && c.spec_greeting() == g && c.spec_input()
                    == self.spec_input().skip(taken) && c.spec_output() == self.spec_output()
                    + sent,
                Opened::Denied => r matches Opening::Done(Err(Error::Auth)),
                Opened::Unexpected => r matches Opening::Done(Err(Error::UnexpectedPkg)),
                Opened::Refused(m) => r matches Opening::Done(Err(Error::Server(e))) && e@ == m,
                Opened::Invalid => r matches Opening::Done(Err(Error::Bincode(_))),
            },
    {
        let mut h = self;
        let ghost s = h.spec_input();
        let ghost out = h.spec_output();
        proof {
            assert(s.skip(0) =~= s);
            assert(out + Seq::<u8>::empty() =~= out);
        }
        if h.greeting.is_some() {
            return h.settle();
        }
        // Greeting message
        let (greeting, taken) = match read_greeting(h.tcp.input.rest()) {
            Ok((Ok(greeting), taken)) => (greeting, taken),
            Ok((Err(e), _)) => {
                return Opening::Done(Err(e));
            },
            Err(Fault::Incomplete(e)) => {
                return Opening::Pending(h, e);
            },
            Err(f) => {
                return Opening::Done(Err(Error::from_fault(f)));
            },
        };
        h.greet(greeting, taken);
        proof {
            if s.skip(taken as int).len() >= 4 {
                assert(s.skip(taken as int).skip(4) =~= s.skip(taken + 4));
            }
            assert(h.spec_output() + Seq::<u8>::empty() =~= h.spec_output());
        }
        h.settle()
    }
}

impl Connection {
    /// The address of the server.
    pub closed spec fn spec_ip(&self) -> Seq<char> {
        self.ip@
    }

    /// The port of the server.
    pub closed spec fn spec_port(&self) -> u16 {
        self.port
    }

    /// The greeting that the server sent.
    pub closed spec fn spec_greeting(&self) -> GreetingView {
        self.greeting@
    }

    /// The login that the client sent.
    pub closed spec fn spec_login(&self) -> LoginView {
        self.user_data@
    }

    /// The bytes that have arrived from the server and have not been read.
    pub closed spec fn spec_input(&self) -> Seq<u8> {
        self.tcp.input.remaining()
    }

    /// The bytes that have been written and are to be sent to the server.
    pub closed spec fn spec_output(&self) -> Seq<u8> {
        self.tcp.output@
    }

    /// Appends bytes that have arrived from the server.
    pub fn feed(&mut self, bytes: &[u8])
        ensures
            final(self).same_session(old(self)),
            final(self).spec_input() == old(self).spec_input() + bytes@,
            final(self).spec_output() == old(self).spec_output(),
    {
        self.tcp.input.feed(bytes);
    }

    /// Takes the bytes that are to be sent to the server.
    pub fn take_output(&mut self) -> (bytes: Vec<u8>)
        ensures
            final(self).same_session(old(self)),
            final(self).spec_input() == old(self).spec_input(),
            final(self).spec_output() == Seq::<u8>::empty(),
            bytes@ == old(self).spec_output(),
    {
        let mut bytes: Vec<u8> = Vec::new();
        std::mem::swap(&mut bytes, &mut self.tcp.output);
        bytes
    }

    /// Whether two connections differ in their stream at most.
    pub open spec fn same_session(&self, other: &Connection) -> bool {
        &&& self.spec_ip() == other.spec_ip()
        &&& self.spec_port() == other.spec_port()
        &&& self.spec_greeting() == other.spec_greeting()
        &&& self.spec_login() == other.spec_login()
    }

    /// Opens a session on the stream `tcp` to the server at the given address
    /// and port: reads the greeting, sends the login and reads whether access
    /// is granted. `ip` is the address as an IPv4 address, if it is one: an
    /// address that is none is refused before anything is read or written.
    /// The answer of the server must have arrived: what is incomplete cannot
    /// be decoded.
    pub fn connect(
        addr: String,
        ip: Option<[u8; 4]>,
        port: u16,
        usern: String,
        passwd: String,
        tcp: Duplex,
    ) -> (r: Result<Connection, Error>)
        ensures
            ip is None ==> r matches Err(Error::AddrParse),
            ip is Some ==> match start(tcp.input.remaining()) {
                Start::Granted(g, n) => r matches Ok(c) && c.spec_greeting() == g && c.spec_ip()
                    == addr@ && c.spec_port() == port && c.spec_login() == (LoginView {
                    username: usern@,
                    password: passwd@,
                }) && c.spec_input() == tcp.input.remaining().skip(n) && c.spec_output()
                    == tcp.output@ + PkgType::Login.encoding() + (LoginView {
                    username: usern@,
                    password: passwd@,
                }).encoding(),
                Start::Denied => r matches Err(Error::Auth),
                Start::Unexpected => r matches Err(Error::UnexpectedPkg),
                Start::Refused(m) => r matches Err(Error::Server(e)) && e@ == m,
                Start::Broken => r matches Err(Error::Bincode(_)),
            },
    {
        let handshake = match Handshake::begin(addr, ip, port, usern, passwd, tcp) {
            Ok(handshake) => handshake,
            Err(e) => {
                return Err(e);
            },
        };
        proof {
            let sent = PkgType::Login.encoding() + handshake.spec_login().encoding();
            assert(tcp.output@ + sent =~= tcp.output@ + PkgType::Login.encoding()
                + handshake.spec_login().encoding());
        }
        match handshake.advance() {
            Opening::Done(r) => r,
            Opening::Pending(_, e) => Err(Error::Bincode(e)),
        }
    }

    /// Writes a command package for the server.
    pub fn send(&mut self, cmd: Command) -> (r: Result<(), Error>)
        ensures
            r is Ok,
            final(self).same_session(old(self)),
            final(self).spec_input() == old(self).spec_input(),
            final(self).spec_output() == old(self).spec_output() + PkgType::Command.encoding()
                + cmd@.encoding(),
    {
        send_cmd(&mut self.tcp.output, cmd, 1024)
    }

    /// Reads the package with the tag `expected` once it has arrived.
    pub fn poll(&mut self, expected: PkgType) -> (r: Poll<Result<(), Error>>)
        ensures
            final(self).same_session(old(self)),
            final(self).spec_output() == old(self).spec_output(),
            polled(
                reply(old(self).spec_input(), expected),
                old(self).spec_input(),
                r,
                final(self).spec_input(),
            ),
    {
        poll(&mut self.tcp.input, expected)
    }

    /// Reads the result of a query once it has arrived.
    pub fn poll_result(&mut self) -> (r: Poll<Result<DataSet, Error>>)
        ensures
            final(self).same_session(old(self)),
            final(self).spec_output() == old(self).spec_output(),
            polled_rows(
                answer(old(self).spec_input()),
                old(self).spec_input(),
                r,
                final(self).spec_input(),
            ),
    {
        poll_rows(&mut self.tcp.input)
    }

    /// Send ping-command to server and receive Ok-package
    pub fn ping(&mut self) -> (r: Result<(), Error>)
        ensures
            final(self).same_session(old(self)),
            final(self).spec_output() == old(self).spec_output() + PkgType::Command.encoding()
                + CommandView::Ping.encoding(),
            replied(
                reply(old(self).spec_input(), PkgType::Okay),
                old(self).spec_input(),
                r,
                final(self).spec_input(),
            ),
    {
        match self.send(Command::Ping) {
            Ok(_) => {},
            Err(e) => {
                return Err(e);
            },
        };
        match self.poll(PkgType::Okay) {
            Poll::Ready(res) => res,
            Poll::Pending(e) => Err(Error::Bincode(e)),
        }
    }

    /// Send quit-command to server and receive Ok-package
    pub fn quit(&mut self) -> (r: Result<(), Error>)
        ensures
            final(self).same_session(old(self)),
            final(self).spec_output() == old(self).spec_output() + PkgType::Command.encoding()
                + CommandView::Quit.encoding(),
            replied(
                reply(old(self).spec_input(), PkgType::Okay),
                old(self).spec_input(),
                r,
                final(self).spec_input(),
            ),
    {
        match self.send(Command::Quit) {
            Ok(_) => {},
            Err(e) => {
                return Err(e);
            },
        };
        match self.poll(PkgType::Okay) {
            Poll::Ready(res) => res,
            Poll::Pending(e) => Err(Error::Bincode(e)),
        }
    }

    /// Sends a query to the server and reads its result. Where the server
    /// answers with a result, the result is presented for reading.
    pub fn execute(&mut self, query: String) -> (r: Result<DataSet, Error>)
        ensures
            final(self).same_session(old(self)),
            final(self).spec_output() == old(self).spec_output() + PkgType::Command.encoding()
                + CommandView::Query(query@).encoding(),
            answered(
                answer(old(self).spec_input()),
                old(self).spec_input(),
                r,
                final(self).spec_input(),
            ),
    {
        match self.send(Command::Query(query)) {
            Ok(_) => {},
            Err(e) => {
                return Err(e);
            },
        };
        match self.poll_result() {
            Poll::Ready(res) => res,
            Poll::Pending(e) => Err(Error::Bincode(e)),
        }
    }

    /// Return server version number.
    pub fn get_version(&self) -> (v: u8)
        ensures
            v == self.spec_greeting().protocol_version,
    {
        self.greeting.protocol_version
    }

    /// Return server greeting message.
    pub fn get_message(&self) -> (m: &str)
        ensures
            m@ == self.spec_greeting().message,
    {
        self.greeting.message.as_str()
    }

    /// Return ip address for current connection.
    pub fn get_ip(&self) -> (ip: &str)
        ensures
            ip@ == self.spec_ip(),
    {
        self.ip.as_str()
    }

    /// Return port for current connection.
    pub fn get_port(&self) -> (p: u16)
        ensures
            p == self.spec_port(),
    {
        self.port
    }

    /// Return username used for current connection authentication.
    pub fn get_username(&self) -> (name: &str)
        ensures
            name@ == self.spec_login().username,
    {
        self.user_data.username.as_str()
    }
}

} // verus!
