//! The network protocol between client and server.
//!
//! A connection is a stream of bytes in each direction. Every package starts
//! with a tag of four bytes that says what follows; there is no length field
//! around a package, so a reader knows from the state of the session which
//! package to expect and reads exactly that.

pub mod result;
pub mod session;
pub mod stream;
pub mod types;
pub mod wire;

use self::stream::{ByteReader, Duplex};
use self::types::{ClientErrMsg, Command, CommandView, Greeting, Login, LoginView, PkgType};
use self::wire::{u32_of_be, Fault, Parsed};
use crate::parse::parser::ParseError;
use crate::storage::ResultSet;
use vstd::prelude::*;
use vstd::slice::slice_subrange;

verus! {

/// `std::io::Error`, carried through as an opaque value.
#[verifier::external_type_specification]
#[verifier::external_body]
pub struct ExIoError(std::io::Error);

/// The version of the protocol that this library speaks.
pub const PROTOCOL_VERSION: u8 = 1;

/// Collection of possible errors while communicating with the client.
#[derive(Debug)]
pub enum Error {
    /// The connection failed.
    Io(std::io::Error),
    /// A package arrived that the state of the session does not allow.
    UnexpectedPkg,
    /// A command package holds a command that the protocol does not have.
    UnknownCmd,
    /// A package is incomplete or not in the form of its type.
    Bincode(bincode::Error),
    /// The query of a command could not be parsed.
    UnEoq(ParseError),
}

impl Error {
    /// The text that describes each kind of error.
    pub open spec fn spec_description(&self) -> Seq<char> {
        match self {
            Error::Io(_) => "IO error occured"@,
            Error::UnexpectedPkg => "received unexpected package"@,
            Error::UnknownCmd => "cannot interpret command: unknown"@,
            Error::Bincode(_) => "could not encode/decode package"@,
            Error::UnEoq(_) => "parsing error"@,
        }
    }

    /// The number under which each kind of error is reported to the client.
    pub open spec fn spec_code(&self) -> u16 {
        match self {
            Error::Io(_) => 0,
            Error::UnexpectedPkg => 2,
            Error::UnknownCmd => 3,
            Error::Bincode(_) => 4,
            Error::UnEoq(_) => 6,
        }
    }

    /// A short description of the error.
    pub fn description(&self) -> (s: &'static str)
        ensures
            s@ == self.spec_description(),
    {
        match self {
            Error::Io(_) => "IO error occured",
            Error::UnexpectedPkg => "received unexpected package",
            Error::UnknownCmd => "cannot interpret command: unknown",
            Error::Bincode(_) => "could not encode/decode package",
            Error::UnEoq(_) => "parsing error",
        }
    }

    /// The number under which the error is reported to the client.
    pub fn code(&self) -> (c: u16)
        ensures
            c == self.spec_code(),
    {
        match self {
            Error::Io(_) => 0,
            Error::UnexpectedPkg => 2,
            Error::UnknownCmd => 3,
            Error::Bincode(_) => 4,
            Error::UnEoq(_) => 6,
        }
    }

    /// The error for bytes that could not be decoded: an unknown command where
    /// the variant of a command is unknown, and a decoding error with the
    /// error of the decoder for everything else.
    pub fn from_fault(f: Fault) -> (e: Error)
        ensures
            f is UnknownVariant ==> e is UnknownCmd,
            !(f is UnknownVariant) ==> e is Bincode,
    {
        match f {
            Fault::Incomplete(e) => Error::Bincode(e),
            Fault::Invalid(e) => Error::Bincode(e),
            Fault::UnknownVariant => Error::UnknownCmd,
        }
    }

    /// The description as an owned text.
    pub fn to_string(&self) -> (s: String)
        ensures
            s@ == self.spec_description(),
    {
        String::from_str(self.description())
    }
}

/// A failure of the connection is an `Io` error that holds it.
impl From<std::io::Error> for Error {
    fn from(err: std::io::Error) -> (e: Error)
        ensures
            e == Error::Io(err),
    {
        Error::Io(err)
    }
}

impl vstd::std_specs::convert::FromSpecImpl<std::io::Error> for Error {
    open spec fn obeys_from_spec() -> bool {
        true
    }

    open spec fn from_spec(err: std::io::Error) -> Error {
        Error::Io(err)
    }
}

/// An error of the decoder is a `Bincode` error that holds it.
impl From<bincode::Error> for Error {
    fn from(err: bincode::Error) -> (e: Error)
        ensures
            e == Error::Bincode(err),
    {
        Error::Bincode(err)
    }
}

impl vstd::std_specs::convert::FromSpecImpl<bincode::Error> for Error {
    open spec fn obeys_from_spec() -> bool {
        true
    }

    open spec fn from_spec(err: bincode::Error) -> Error {
        Error::Bincode(err)
    }
}

/// An error of the parser is an `UnEoq` error that holds it.
impl From<ParseError> for Error {
    fn from(err: ParseError) -> (e: Error)
        ensures
            e == Error::UnEoq(err),
    {
        Error::UnEoq(err)
    }
}

impl vstd::std_specs::convert::FromSpecImpl<ParseError> for Error {
    open spec fn obeys_from_spec() -> bool {
        true
    }

    open spec fn from_spec(err: ParseError) -> Error {
        Error::UnEoq(err)
    }
}

/// The text with which the server welcomes a client.
pub open spec fn spec_welcome_msg() -> Seq<char> {
    "Welcome to the fabulous uoSQL database."@
}

/// The text with which the server welcomes a client.
pub fn welcome_msg() -> (s: &'static str)
    ensures
        s@ == spec_welcome_msg(),
{
    "Welcome to the fabulous uoSQL database."
}

/// Whether `s` starts with the tag `tag`.
pub open spec fn starts_with_tag(s: Seq<u8>, tag: PkgType) -> bool {
    s.len() >= 4 && PkgType::of_index(u32_of_be(s)) == Some(tag)
}

/// What reading a login package does, for the bytes `s` that are on the
/// stream before, the result `r` and the bytes `after` that are left on it.
///
/// Without a complete tag, or with a login tag and no complete and valid
/// login after it, the package cannot be decoded and the stream stays as it
/// is. Any other tag is unexpected, and only the tag is taken. A login tag
/// with a login after it gives that login, and both are taken.
pub open spec fn login_read(s: Seq<u8>, r: Result<Login, Error>, after: Seq<u8>) -> bool {
    if s.len() < 4 {
        r matches Err(Error::Bincode(_)) && after == s
    } else if !starts_with_tag(s, PkgType::Login) {
        r matches Err(Error::UnexpectedPkg) && after == s.skip(4)
    } else {
        match LoginView::parse(s.skip(4)) {
            Parsed::Value(v, n) => r matches Ok(l) && l@ == v && after == s.skip(4 + n),
            _ => r matches Err(Error::Bincode(_)) && after == s,
        }
    }
}

/// What reading a command package does, for the bytes `s` that are on the
/// stream before, the result `r` and the bytes `after` that are left on it.
///
/// Without a complete tag, or with a command tag and no complete and valid
/// command after it, the package cannot be decoded and the stream stays as it
/// is. Any other tag is unexpected, and only the tag is taken. After a
/// command tag, a command number that the protocol does not have is an
/// unknown command, and tag and number are taken. A command tag with a
/// command after it gives that command, and both are taken.
pub open spec fn command_read(s: Seq<u8>, r: Result<Command, Error>, after: Seq<u8>) -> bool {
    if s.len() < 4 {
        r matches Err(Error::Bincode(_)) && after == s
    } else if !starts_with_tag(s, PkgType::Command) {
        r matches Err(Error::UnexpectedPkg) && after == s.skip(4)
    } else {
        match CommandView::parse(s.skip(4)) {
            Parsed::Value(v, n) => r matches Ok(c) && c@ == v && after == s.skip(4 + n),
            Parsed::UnknownVariant => r matches Err(Error::UnknownCmd) && after == s.skip(8),
            _ => r matches Err(Error::Bincode(_)) && after == s,
        }
    }
}

/// Write a welcome-message to the given server-client-stream, then read the
/// login that the client answers with, and give back its name and password.
pub fn do_handshake(stream: &mut Duplex) -> (r: Result<(String, String), Error>)
    ensures
        final(stream).output@ == old(stream).output@ + PkgType::Greet.encoding() + (
        types::GreetingView {
            protocol_version: PROTOCOL_VERSION,
            message: spec_welcome_msg(),
        }).encoding(),
        match r {
            Ok((name, password)) => login_read(
                old(stream).input.remaining(),
                Ok(Login { username: name, password: password }),
                final(stream).input.remaining(),
            ),
            Err(e) => login_read(
                old(stream).input.remaining(),
                Err(e),
                final(stream).input.remaining(),
            ),
        },
{
    let greet = Greeting::make_greeting(PROTOCOL_VERSION, String::from_str(welcome_msg()));

    // send handshake packet to client
    match PkgType::Greet.encode_into(&mut stream.output) {
        Ok(()) => {},
        Err(e) => {
            return Err(e);
        },
    }
    match greet.encode_into(&mut stream.output) {
        Ok(()) => {},
        Err(e) => {
            return Err(e);
        },
    }

    // receive login data from client
    let login = read_login(&mut stream.input);
    match login {
        Ok(sth) => Ok((sth.username, sth.password)),
        Err(msg) => Err(msg),
    }
}

/// Read the data from the response to the handshake,
/// username and password extracted and returned.
pub fn read_login(stream: &mut ByteReader) -> (r: Result<Login, Error>)
    ensures
        login_read(old(stream).remaining(), r, final(stream).remaining()),
{
    let rest = stream.rest();
    // read package-type
    let status = match PkgType::decode(rest) {
        Ok(status) => status,
        Err(Error::UnexpectedPkg) => {
            stream.skip(4);
            return Err(Error::UnexpectedPkg);
        },
        Err(e) => {
            return Err(e);
        },
    };
    match status {
        PkgType::Login => {
            // read the login data
            match Login::decode(slice_subrange(rest, 4, rest.len())) {
                Ok((login, n)) => {
                    stream.skip(4 + n);
                    Ok(login)
                },
                Err(f) => Err(Error::from_fault(f)),
            }
        },
        _ => {
            stream.skip(4);
            Err(Error::UnexpectedPkg)
        },
    }
}

/// Read the sent bytes, extract the kind of command.
pub fn read_commands(stream: &mut ByteReader) -> (r: Result<Command, Error>)
    ensures
        command_read(old(stream).remaining(), r, final(stream).remaining()),
{
    let rest = stream.rest();
    // read the tag for the kind of package
    let status = match PkgType::decode(rest) {
        Ok(status) => status,
        Err(Error::UnexpectedPkg) => {
            stream.skip(4);
            return Err(Error::UnexpectedPkg);
        },
        Err(e) => {
            return Err(e);
        },
    };
    match status {
        PkgType::Command => {
            match Command::decode(slice_subrange(rest, 4, rest.len())) {
                Ok((command, n)) => {
                    stream.skip(4 + n);
                    Ok(command)
                },
                Err(Fault::UnknownVariant) => {
                    stream.skip(8);
                    Err(Error::UnknownCmd)
                },
                Err(f) => Err(Error::from_fault(f)),
            }
        },
        _ => {
            stream.skip(4);
            Err(Error::UnexpectedPkg)
        },
    }
}

/// Send error package with given error code status.
pub fn send_error_package(stream: &mut Vec<u8>, err: ClientErrMsg) -> (r: Result<(), Error>)
    ensures
        r is Ok,
        final(stream)@ == old(stream)@ + PkgType::Error.encoding() + err@.encoding(),
{
    match PkgType::Error.encode_into(stream) {
        Ok(()) => {},
        Err(e) => {
            return Err(e);
        },
    }
    err.encode_into(stream)
}

/// Send Result package as response to a query.
pub fn send_response_package(stream: &mut Vec<u8>, data: ResultSet) -> (r: Result<(), Error>)
    ensures
        r is Ok,
        final(stream)@ == old(stream)@ + PkgType::Response.encoding() + data@.encoding(),
{
    match PkgType::Response.encode_into(stream) {
        Ok(()) => {},
        Err(e) => {
            return Err(e);
        },
    }
    data.encode_into(stream)
}

/// Send information package only with package type information.
pub fn send_info_package(stream: &mut Vec<u8>, pkg: PkgType) -> (r: Result<(), Error>)
    ensures
        r is Ok,
        final(stream)@ == old(stream)@ + pkg.encoding(),
{
    pkg.encode_into(stream)
}

} // verus!
