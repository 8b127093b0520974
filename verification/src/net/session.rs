//! The server side of a session as a state machine.
//!
//! The machine decides; the program around it performs. It is told what
//! happened (a client was accepted, bytes arrived, the login was judged, a
//! query was run), reads from and writes to the stream in memory, and answers
//! with what the program has to do next.

use super::result::ResultSetView;
use super::stream::Duplex;
use super::types::{
    ClientErrMsg, ClientErrMsgView, Command, CommandView, Greeting, GreetingView, Login,
    LoginView, PkgType,
};
use super::types::lemma_pkg_type_round_trip;
use super::wire::{Fault, Parsed};
use vstd::slice::slice_subrange;
use vstd::utf8::encode_utf8;
use super::{
    send_error_package, send_info_package, send_response_package, spec_welcome_msg,
    starts_with_tag, welcome_msg, Error, PROTOCOL_VERSION,
};
use crate::storage::ResultSet;
use vstd::prelude::*;

verus! {

/// Where a session stands.
#[derive(Clone, Copy, Debug, PartialEq, Eq, Structural)]
pub enum State {
    /// The client has been accepted and nothing has been sent.
    Connected,
    /// The greeting has been sent; the login package is expected.
    GreetingSent,
    /// The login package has arrived; the judgement on it is expected.
    AwaitingLogin,
    /// Access has been granted; commands are expected.
    Authenticated,
    /// The session has ended.
    Closed,
}

/// What happened outside the machine.
pub enum Event {
    /// A client has been accepted.
    Accepted,
    /// Bytes have arrived and have been appended to the input of the stream.
    Received,
    /// The login has been judged: access is granted or denied.
    AuthResult(bool),
    /// The query has been run and has this result.
    QueryDone(ResultSet),
    /// The query has failed with this error.
    QueryFailed(ClientErrMsg),
}

/// What the program around the machine has to do next.
pub enum Action {
    /// Wait for more bytes: the package on the stream is not complete.
    Wait,
    /// Send what has been written to the output of the stream.
    Send,
    /// Have the login judged, and hand back the judgement.
    Authenticate(Login),
    /// Have the query run, and hand back its result or its error.
    Execute(String),
    /// The package is refused with this error; the session stays where it
    /// is, and the connection may be closed.
    Reject(Error),
    /// The bytes on the input are no package: the session has ended with this
    /// error, and the connection is to be closed.
    Abort(Error),
    /// Send what has been written to the output, then close the connection.
    Close,
    /// Nothing: the event has no meaning where the session stands.
    Ignore,
}

/// The mathematical value of an [`Event`].
pub enum EventView {
    Accepted,
    Received,
    AuthResult(bool),
    QueryDone(ResultSetView),
    QueryFailed(ClientErrMsgView),
}

impl View for Event {
    type V = EventView;

    open spec fn view(&self) -> EventView {
        match self {
            Event::Accepted => EventView::Accepted,
            Event::Received => EventView::Received,
            Event::AuthResult(b) => EventView::AuthResult(*b),
            Event::QueryDone(rs) => EventView::QueryDone(rs@),
            Event::QueryFailed(e) => EventView::QueryFailed(e@),
        }
    }
}

/// The mathematical value of an [`Action`].
pub enum ActionView {
    Wait,
    Send,
    Authenticate(LoginView),
    Execute(Seq<char>),
    RejectUnexpected,
    RejectUnknown,
    Abort,
    Close,
    Ignore,
}

/// Whether `a` is the action that `v` describes.
pub open spec fn acts(a: Action, v: ActionView) -> bool {
    match v {
        ActionView::Wait => a is Wait,
        ActionView::Send => a is Send,
        ActionView::Authenticate(l) => a matches Action::Authenticate(login) && login@ == l,
        ActionView::Execute(q) => a matches Action::Execute(query) && query@ == q,
        ActionView::RejectUnexpected => a matches Action::Reject(Error::UnexpectedPkg),
        ActionView::RejectUnknown => a matches Action::Reject(Error::UnknownCmd),
        ActionView::Abort => a matches Action::Abort(Error::Bincode(_)),
        ActionView::Close => a is Close,
        ActionView::Ignore => a is Ignore,
    }
}

/// What one step of the machine does.
pub struct Step {
    /// Where the session stands after it.
    pub state: State,
    /// What the program has to do.
    pub action: ActionView,
    /// How many bytes are taken from the input.
    pub taken: int,
    /// What is appended to the output.
    pub sent: Seq<u8>,
}

/// The greeting of the server on the wire, with its tag.
pub open spec fn greeting_package() -> Seq<u8> {
    PkgType::Greet.encoding() + (GreetingView {
        protocol_version: PROTOCOL_VERSION,
        message: spec_welcome_msg(),
    }).encoding()
}

/// What a step does where a login package is expected and `s` is on the
/// input. A complete login is taken and handed on for judgement. An
/// incomplete package is waited for. A login that is not in its form ends
/// the session. Any other package is refused as unexpected, with its tag
/// taken, and the session stays where it is.
pub open spec fn on_login(s: Seq<u8>) -> Step {
    if s.len() < 4 {
        Step { state: State::GreetingSent, action: ActionView::Wait, taken: 0, sent: Seq::empty() }
    } else if !starts_with_tag(s, PkgType::Login) {
        Step {
            state: State::GreetingSent,
            action: ActionView::RejectUnexpected,
            taken: 4,
            sent: Seq::empty(),
        }
    } else {
        match LoginView::parse(s.skip(4)) {
            Parsed::Value(l, n) => Step {
                state: State::AwaitingLogin,
                action: ActionView::Authenticate(l),
                taken: 4 + n,
                sent: Seq::empty(),
            },
            Parsed::Incomplete => Step {
                state: State::GreetingSent,
                action: ActionView::Wait,
                taken: 0,
                sent: Seq::empty(),
            },
            _ => Step { state: State::Closed, action: ActionView::Abort, taken: 0, sent: Seq::empty() },
        }
    }
}

/// What a step does where a command package is expected and `s` is on the
/// input. A ping is answered with `Ok`. A quit is answered with `Ok` and
/// ends the session. A query is handed on to be run. An incomplete package is
/// waited for. A command that is not in its form ends the session. Any other
/// package is refused as unexpected and a command that the protocol does not
/// have as unknown, and the session stays where it is.
pub open spec fn on_command(s: Seq<u8>) -> Step {
    if s.len() < 4 {
        Step { state: State::Authenticated, action: ActionView::Wait, taken: 0, sent: Seq::empty() }
    } else if !starts_with_tag(s, PkgType::Command) {
        Step {
            state: State::Authenticated,
            action: ActionView::RejectUnexpected,
            taken: 4,
            sent: Seq::empty(),
        }
    } else {
        match CommandView::parse(s.skip(4)) {
            Parsed::Value(CommandView::Ping, n) => Step {
                state: State::Authenticated,
                action: ActionView::Send,
                taken: 4 + n,
                sent: PkgType::Okay.encoding(),
            },
            Parsed::Value(CommandView::Quit, n) => Step {
                state: State::Closed,
                action: ActionView::Close,
                taken: 4 + n,
                sent: PkgType::Okay.encoding(),
            },
            Parsed::Value(CommandView::Query(q), n) => Step {
                state: State::Authenticated,
                action: ActionView::Execute(q),
                taken: 4 + n,
                sent: Seq::empty(),
            },
            Parsed::Incomplete => Step {
                state: State::Authenticated,
                action: ActionView::Wait,
                taken: 0,
                sent: Seq::empty(),
            },
            Parsed::Invalid => Step {
                state: State::Closed,
                action: ActionView::Abort,
                taken: 0,
                sent: Seq::empty(),
            },
            Parsed::UnknownVariant => Step {
                state: State::Authenticated,
                action: ActionView::RejectUnknown,
                taken: 8,
                sent: Seq::empty(),
            },
        }
    }
}

/// What a step does, for the state of the session, the event and the bytes
/// `s` on the input.
///
/// An accepted client is greeted. Where the greeting has been sent, a login
/// is expected. A granted login is answered with `AccGranted` and opens the
/// session for commands; a denied one is answered with `AccDenied` and ends
/// it. Where access has been granted, commands are expected, the result of a
/// query is answered with `Response` and the result, and its error with
/// `Error` and the message. Every other event is ignored: it changes nothing.
pub open spec fn transition(state: State, event: EventView, s: Seq<u8>) -> Step {
    match (state, event) {
        (State::Connected, EventView::Accepted) => Step {
            state: State::GreetingSent,
            action: ActionView::Send,
            taken: 0,
            sent: greeting_package(),
        },
        (State::GreetingSent, EventView::Received) => on_login(s),
        (State::AwaitingLogin, EventView::AuthResult(granted)) => if granted {
            Step {
                state: State::Authenticated,
                action: ActionView::Send,
                taken: 0,
                sent: PkgType::AccGranted.encoding(),
            }
        } else {
            Step {
                state: State::Closed,
                action: ActionView::Close,
                taken: 0,
                sent: PkgType::AccDenied.encoding(),
            }
        },
        (State::Authenticated, EventView::Received) => on_command(s),
        (State::Authenticated, EventView::QueryDone(rs)) => Step {
            state: State::Authenticated,
            action: ActionView::Send,
            taken: 0,
            sent: PkgType::Response.encoding() + rs.encoding(),
        },
        (State::Authenticated, EventView::QueryFailed(e)) => Step {
            state: State::Authenticated,
            action: ActionView::Send,
            taken: 0,
            sent: PkgType::Error.encoding() + e.encoding(),
        },
        _ => Step { state: state, action: ActionView::Ignore, taken: 0, sent: Seq::empty() },
    }
}

/// One step of the session: takes the event, reads from the input of the
/// stream and writes to its output as [`transition`] says, and gives the
/// state that follows and the action to perform.
pub fn step(state: State, event: Event, stream: &mut Duplex) -> (r: (State, Action))
    ensures
        r.0 == transition(state, event@, old(stream).input.remaining()).state,
        acts(r.1, transition(state, event@, old(stream).input.remaining()).action),
        final(stream).input.remaining() == old(stream).input.remaining().skip(
            transition(state, event@, old(stream).input.remaining()).taken,
        ),
        final(stream).output@ == old(stream).output@ + transition(
            state,
            event@,
            old(stream).input.remaining(),
        ).sent,
{
    let ghost s = stream.input.remaining();
    let ghost out = stream.output@;
    proof {
        assert(s.skip(0) =~= s);
        assert(out + Seq::<u8>::empty() =~= out);
    }
    match (state, event) {
        (State::Connected, Event::Accepted) => {
            let greet = Greeting::make_greeting(PROTOCOL_VERSION, String::from_str(welcome_msg()));
            let _ = PkgType::Greet.encode_into(&mut stream.output);
            let _ = greet.encode_into(&mut stream.output);
            assert(stream.output@ =~= out + greeting_package());
            (State::GreetingSent, Action::Send)
        },
        (State::GreetingSent, Event::Received) => {
            let rest = stream.input.rest();
            match PkgType::decode(rest) {
                Ok(PkgType::Login) => {
                    match Login::decode(slice_subrange(rest, 4, rest.len())) {
                        Ok((login, n)) => {
                            stream.input.skip(4 + n);
                            (State::AwaitingLogin, Action::Authenticate(login))
                        },
                        Err(Fault::Incomplete(_)) => (State::GreetingSent, Action::Wait),
                        Err(f) => (State::Closed, Action::Abort(Error::from_fault(f))),
                    }
                },
                Err(Error::Bincode(_)) => (State::GreetingSent, Action::Wait),
                _ => {
                    stream.input.skip(4);
                    (State::GreetingSent, Action::Reject(Error::UnexpectedPkg))
                },
            }
        },
        (State::AwaitingLogin, Event::AuthResult(granted)) => {
            if granted {
                let _ = send_info_package(&mut stream.output, PkgType::AccGranted);
                (State::Authenticated, Action::Send)
            } else {
                let _ = send_info_package(&mut stream.output, PkgType::AccDenied);
                (State::Closed, Action::Close)
            }
        },
        (State::Authenticated, Event::Received) => {
            let rest = stream.input.rest();
            match PkgType::decode(rest) {
                Ok(PkgType::Command) => {
                    match Command::decode(slice_subrange(rest, 4, rest.len())) {
                        Ok((Command::Ping, n)) => {
                            stream.input.skip(4 + n);
                            let _ = send_info_package(&mut stream.output, PkgType::Okay);
                            (State::Authenticated, Action::Send)
                        },
                        Ok((Command::Quit, n)) => {
                            stream.input.skip(4 + n);
                            let _ = send_info_package(&mut stream.output, PkgType::Okay);
                            (State::Closed, Action::Close)
                        },
                        Ok((Command::Query(q), n)) => {
                            stream.input.skip(4 + n);
                            (State::Authenticated, Action::Execute(q))
                        },
                        Err(Fault::Incomplete(_)) => (State::Authenticated, Action::Wait),
                        Err(Fault::UnknownVariant) => {
                            stream.input.skip(8);
                            (State::Authenticated, Action::Reject(Error::UnknownCmd))
                        },
                        Err(f) => (State::Closed, Action::Abort(Error::from_fault(f))),
                    }
                },
                Err(Error::Bincode(_)) => (State::Authenticated, Action::Wait),
                _ => {
                    stream.input.skip(4);
                    (State::Authenticated, Action::Reject(Error::UnexpectedPkg))
                },
            }
        },
        (State::Authenticated, Event::QueryDone(rs)) => {
            let _ = send_response_package(&mut stream.output, rs);
            (State::Authenticated, Action::Send)
        },
        (State::Authenticated, Event::QueryFailed(e)) => {
            let _ = send_error_package(&mut stream.output, e);
            (State::Authenticated, Action::Send)
        },
        (state, _) => (state, Action::Ignore),
    }
}

/// A package that is refused does not move the session: whatever the state
/// and the bytes on the input, a step that rejects leaves the state as it
/// was and sends nothing.
pub proof fn lemma_reject_keeps_state(state: State, event: EventView, s: Seq<u8>)
    requires
        transition(state, event, s).action is RejectUnexpected || transition(
            state,
            event,
            s,
        ).action is RejectUnknown,
    ensures
        transition(state, event, s).state == state,
        transition(state, event, s).sent == Seq::<u8>::empty(),
{
}

/// A session that has ended stays ended and does nothing more.
pub proof fn lemma_closed_is_final(event: EventView, s: Seq<u8>)
    ensures
        transition(State::Closed, event, s).state == State::Closed,
        transition(State::Closed, event, s).action is Ignore,
        transition(State::Closed, event, s).taken == 0,
        transition(State::Closed, event, s).sent == Seq::<u8>::empty(),
{
}

/// A whole session without a query: the client is greeted, logs in, is
/// granted access and quits. Whatever the login, the session ends, and the
/// server has sent the greeting, `AccGranted` and exactly one `Ok`.
pub proof fn lemma_handshake_then_quit(login: LoginView)
    requires
        encode_utf8(login.username).len() <= u64::MAX,
        encode_utf8(login.password).len() <= u64::MAX,
    ensures
        ({
            let first = PkgType::Login.encoding() + login.encoding();
            let second = PkgType::Command.encoding() + CommandView::Quit.encoding();
            let a = transition(State::Connected, EventView::Accepted, Seq::empty());
            let b = transition(a.state, EventView::Received, first);
            let c = transition(b.state, EventView::AuthResult(true), first.skip(b.taken));
            let d = transition(c.state, EventView::Received, second);
            &&& a.state == State::GreetingSent && a.sent == greeting_package()
            &&& b.state == State::AwaitingLogin && b.action == ActionView::Authenticate(login)
                && b.taken == first.len() && b.sent == Seq::<u8>::empty()
            &&& c.state == State::Authenticated && c.sent == PkgType::AccGranted.encoding()
            &&& d.state == State::Closed && d.action is Close && d.taken == second.len()
                && d.sent == PkgType::Okay.encoding()
        }),
{
    let first = PkgType::Login.encoding() + login.encoding();
    let second = PkgType::Command.encoding() + CommandView::Quit.encoding();
    lemma_pkg_type_round_trip(PkgType::Login, login.encoding());
    login.lemma_round_trip(Seq::empty());
    assert(first.skip(4) =~= login.encoding() + Seq::<u8>::empty());
    lemma_pkg_type_round_trip(PkgType::Command, CommandView::Quit.encoding());
    CommandView::Quit.lemma_round_trip(Seq::empty());
    assert(second.skip(4) =~= CommandView::Quit.encoding() + Seq::<u8>::empty());
}

} // verus!
