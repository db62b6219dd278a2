//! The server's per-connection state machine. Inbound messages, backend
//! start reports, backend outputs and transport closes are folded over a
//! [`Router`] value; each step yields a [`StepEffect`] that tells the caller
//! what to send, what to forward to the backend, which backend to start, and
//! whether the session is over. Every step is a pure function of the current
//! state and the event, specified exactly by the `spec_on_*` functions.

use vstd::prelude::*;

use crate::message::{Connection, Message, MessageV};

verus! {

/// An event fed into a session backend: bytes to deliver, a signal for the
/// shell child, a terminal resize, or the end of the session.
#[derive(Clone, Debug, PartialEq)]
pub enum Input {
    Data(Vec<u8>),
    Continue,
    Stop,
    Winch(u16, u16),
    End,
}

/// The mathematical image of an [`Input`].
#[verifier::ext_equal]
pub enum InputV {
    Data(Seq<u8>),
    Continue,
    Stop,
    Winch(u16, u16),
    End,
}

impl View for Input {
    type V = InputV;

    open spec fn view(&self) -> InputV {
        match self {
            Input::Data(d) => InputV::Data(d@),
            Input::Continue => InputV::Continue,
            Input::Stop => InputV::Stop,
            Input::Winch(cols, rows) => InputV::Winch(*cols, *rows),
            Input::End => InputV::End,
        }
    }
}

/// An event emitted by a session backend: bytes it produced, the death of
/// the shell child with its exit code, or the close of the forwarded socket.
#[derive(Clone, Debug, PartialEq)]
pub enum Output {
    Data(Vec<u8>),
    Died(u8),
    Closed,
}

/// The mathematical image of an [`Output`].
#[verifier::ext_equal]
pub enum OutputV {
    Data(Seq<u8>),
    Died(u8),
    Closed,
}

impl View for Output {
    type V = OutputV;

    open spec fn view(&self) -> OutputV {
        match self {
            Output::Data(d) => OutputV::Data(d@),
            Output::Died(code) => OutputV::Died(*code),
            Output::Closed => OutputV::Closed,
        }
    }
}

/// The phase of a tunnel connection, totally ordered from handshake to
/// teardown. `Ended` absorbs every further event.
#[derive(Clone, Copy, Debug, PartialEq, Eq, Structural)]
pub enum ConnectionState {
    AwaitingHandshake,
    AwaitingAuthentication,
    AwaitingConnection,
    ShellActive,
    SocketActive,
    Ended,
}

/// What one router step asks the caller to do. At most one reply is sent, at
/// most one event is forwarded to the backend, at most one backend start is
/// requested, and `terminate` says that the session is over.
#[derive(Debug)]
pub struct StepEffect {
    /// Message to send to the peer.
    pub reply: Option<Message>,
    /// Event to forward to the session backend.
    pub to_backend: Option<Input>,
    /// Backend to start; the caller reports the outcome through
    /// [`Router::backend_started`].
    pub start: Option<Connection>,
    /// The session is over; the caller closes the transport.
    pub terminate: bool,
}

/// The mathematical image of a [`StepEffect`].
#[verifier::ext_equal]
pub struct StepEffectV {
    pub reply: Option<MessageV>,
    pub to_backend: Option<InputV>,
    pub start: Option<Connection>,
    pub terminate: bool,
}

impl View for StepEffect {
    type V = StepEffectV;

    open spec fn view(&self) -> StepEffectV {
        StepEffectV {
            reply: match &self.reply {
                Some(m) => Some(m@),
                None => None,
            },
            to_backend: match &self.to_backend {
                Some(i) => Some(i@),
                None => None,
            },
            start: self.start,
            terminate: self.terminate,
        }
    }
}

/// The effect that does nothing: a silently dropped event.
pub open spec fn no_effect() -> StepEffectV {
    StepEffectV { reply: None, to_backend: None, start: None, terminate: false }
}

/// The protocol version this peer speaks.
pub const VERSION_MAJOR: u8 = 0;

/// The protocol version this peer speaks.
pub const VERSION_MINOR: u8 = 2;

/// The state and effect after one inbound message. This is the legality
/// table of the protocol: a message arriving in a state where it is not
/// listed leaves the state unchanged and has no effect.
pub open spec fn spec_on_message(state: ConnectionState, key: Seq<char>, m: MessageV) -> (
    ConnectionState,
    StepEffectV,
) {
    if state == ConnectionState::Ended {
        (state, no_effect())
    } else {
        match m {
            MessageV::Hello(maj, min) => if state == ConnectionState::AwaitingHandshake {
                if maj == VERSION_MAJOR && min == VERSION_MINOR {
                    (ConnectionState::AwaitingAuthentication, no_effect())
                } else {
                    (
                        ConnectionState::Ended,
                        StepEffectV {
                            reply: Some(MessageV::Error),
                            to_backend: None,
                            start: None,
                            terminate: true,
                        },
                    )
                }
            } else {
                (state, no_effect())
            },
            MessageV::Authenticate(pw) => if state == ConnectionState::AwaitingAuthentication {
                (
                    if pw == key {
                        ConnectionState::AwaitingConnection
                    } else {
                        ConnectionState::AwaitingAuthentication
                    },
                    StepEffectV {
                        reply: Some(MessageV::Authentication(pw == key)),
                        to_backend: None,
                        start: None,
                        terminate: false,
                    },
                )
            } else {
                (state, no_effect())
            },
            MessageV::ConnectionType(c) => if state == ConnectionState::AwaitingConnection {
                (
                    state,
                    StepEffectV { reply: None, to_backend: None, start: Some(c), terminate: false },
                )
            } else {
                (state, no_effect())
            },
            MessageV::EndSession => (
                ConnectionState::Ended,
                StepEffectV {
                    reply: None,
                    to_backend: if state == ConnectionState::ShellActive || state
                        == ConnectionState::SocketActive {
                        Some(InputV::End)
                    } else {
                        None
                    },
                    start: None,
                    terminate: true,
                },
            ),
            MessageV::SignalContinue => if state == ConnectionState::ShellActive {
                (
                    state,
                    StepEffectV {
                        reply: None,
                        to_backend: Some(InputV::Continue),
                        start: None,
                        terminate: false,
                    },
                )
            } else {
                (state, no_effect())
            },
            MessageV::SignalStop => if state == ConnectionState::ShellActive {
                (
                    state,
                    StepEffectV {
                        reply: None,
                        to_backend: Some(InputV::Stop),
                        start: None,
                        terminate: false,
                    },
                )
            } else {
                (state, no_effect())
            },
            MessageV::SignalWinch(cols, rows) => if state == ConnectionState::ShellActive {
                (
                    state,
                    StepEffectV {
                        reply: None,
                        to_backend: Some(InputV::Winch(cols, rows)),
                        start: None,
                        terminate: false,
                    },
                )
            } else {
                (state, no_effect())
            },
            MessageV::TerminalInput(d) => if state == ConnectionState::ShellActive {
                (
                    state,
                    StepEffectV {
                        reply: None,
                        to_backend: Some(InputV::Data(d)),
                        start: None,
                        terminate: false,
                    },
                )
            } else {
                (state, no_effect())
            },
            MessageV::SocketInput(d) => if state == ConnectionState::SocketActive {
                (
                    state,
                    StepEffectV {
                        reply: None,
                        to_backend: Some(InputV::Data(d)),
                        start: None,
                        terminate: false,
                    },
                )
            } else {
                (state, no_effect())
            },
            _ => (state, no_effect()),
        }
    }
}

/// The state and effect after the caller reports the outcome of a backend
/// start: success enters the matching active state; a failed port forward
/// sends `Error` and keeps the connection; a failed shell sends `Error` and
/// ends the session.
pub open spec fn spec_backend_started(state: ConnectionState, c: Connection, ok: bool) -> (
    ConnectionState,
    StepEffectV,
) {
    if state != ConnectionState::AwaitingConnection {
        (state, no_effect())
    } else if ok {
        (
            if c == Connection::Shell {
                ConnectionState::ShellActive
            } else {
                ConnectionState::SocketActive
            },
            no_effect(),
        )
    } else if c == Connection::Shell {
        (
            ConnectionState::Ended,
            StepEffectV {
                reply: Some(MessageV::Error),
                to_backend: None,
                start: None,
                terminate: true,
            },
        )
    } else {
        (
            state,
            StepEffectV {
                reply: Some(MessageV::Error),
                to_backend: None,
                start: None,
                terminate: false,
            },
        )
    }
}

/// The state and effect after one backend output: data is framed for the
/// active mode; `Died` and `Closed` are forwarded once and end the session.
pub open spec fn spec_on_backend_output(state: ConnectionState, o: OutputV) -> (
    ConnectionState,
    StepEffectV,
) {
    match o {
        OutputV::Data(d) => if state == ConnectionState::ShellActive {
            (
                state,
                StepEffectV {
                    reply: Some(MessageV::TerminalOutput(d)),
                    to_backend: None,
                    start: None,
                    terminate: false,
                },
            )
        } else if state == ConnectionState::SocketActive {
            (
                state,
                StepEffectV {
                    reply: Some(MessageV::SocketOutput(d)),
                    to_backend: None,
                    start: None,
                    terminate: false,
                },
            )
        } else {
            (state, no_effect())
        },
        OutputV::Died(code) => if state == ConnectionState::ShellActive {
            (
                ConnectionState::Ended,
                StepEffectV {
                    reply: Some(MessageV::ChildDeath(code)),
                    to_backend: None,
                    start: None,
                    terminate: true,
                },
            )
        } else {
            (state, no_effect())
        },
        OutputV::Closed => if state == ConnectionState::SocketActive {
            (
                ConnectionState::Ended,
                StepEffectV {
                    reply: Some(MessageV::SocketClose),
                    to_backend: None,
                    start: None,
                    terminate: true,
                },
            )
        } else {
            (state, no_effect())
        },
    }
}

/// The server's per-connection router: the current phase and the configured
/// shared secret.
pub struct Router {
    /// The current phase of the connection.
    pub state: ConnectionState,
    /// The shared secret presented secrets are compared against.
    pub key: String,
}

impl Router {
    /// A router for a fresh connection, awaiting the version announcement.
    pub fn new(key: String) -> (r: Router)
        ensures
            r.state == ConnectionState::AwaitingHandshake,
            r.key == key,
    {
        Router { state: ConnectionState::AwaitingHandshake, key }
    }

    /// Feeds one inbound message to the state machine.
    pub fn on_message(&mut self, m: Message) -> (eff: StepEffect)
        ensures
            ({
                let (st, effv) = spec_on_message(old(self).state, old(self).key@, m@);
                &&& final(self).state == st
                &&& final(self).key == old(self).key
                &&& eff@ == effv
            }),
    {
        if matches!(self.state, ConnectionState::Ended) {
            return StepEffect { reply: None, to_backend: None, start: None, terminate: false };
        }
        match m {
            Message::Hello(maj, min) => {
                if matches!(self.state, ConnectionState::AwaitingHandshake) {
                    if maj == VERSION_MAJOR && min == VERSION_MINOR {
                        self.state = ConnectionState::AwaitingAuthentication;
                        StepEffect { reply: None, to_backend: None, start: None, terminate: false }
                    } else {
                        self.state = ConnectionState::Ended;
                        StepEffect {
                            reply: Some(Message::Error),
                            to_backend: None,
                            start: None,
                            terminate: true,
                        }
                    }
                } else {
                    StepEffect { reply: None, to_backend: None, start: None, terminate: false }
                }
            },
            Message::Authenticate(pw) => {
                if matches!(self.state, ConnectionState::AwaitingAuthentication) {
                    let ok = pw == self.key;
                    if ok {
                        self.state = ConnectionState::AwaitingConnection;
                    }
                    StepEffect {
                        reply: Some(Message::Authentication(ok)),
                        to_backend: None,
                        start: None,
                        terminate: false,
                    }
                } else {
                    StepEffect { reply: None, to_backend: None, start: None, terminate: false }
                }
            },
            Message::ConnectionType(c) => {
                if matches!(self.state, ConnectionState::AwaitingConnection) {
                    StepEffect { reply: None, to_backend: None, start: Some(c), terminate: false }
                } else {
                    StepEffect { reply: None, to_backend: None, start: None, terminate: false }
                }
            },
            Message::EndSession => {
                let active = matches!(self.state, ConnectionState::ShellActive)
                    || matches!(self.state, ConnectionState::SocketActive);
                self.state = ConnectionState::Ended;
                StepEffect {
                    reply: None,
                    to_backend: if active {
                        Some(Input::End)
                    } else {
                        None
                    },
                    start: None,
                    terminate: true,
                }
            },
            Message::SignalContinue => {
                if matches!(self.state, ConnectionState::ShellActive) {
                    StepEffect {
                        reply: None,
                        to_backend: Some(Input::Continue),
                        start: None,
                        terminate: false,
                    }
                } else {
                    StepEffect { reply: None, to_backend: None, start: None, terminate: false }
                }
            },
            Message::SignalStop => {
                if matches!(self.state, ConnectionState::ShellActive) {
                    StepEffect {
                        reply: None,
                        to_backend: Some(Input::Stop),
                        start: None,
                        terminate: false,
                    }
                } else {
                    StepEffect { reply: None, to_backend: None, start: None, terminate: false }
                }
            },
            Message::SignalWinch(cols, rows) => {
                if matches!(self.state, ConnectionState::ShellActive) {
                    StepEffect {
                        reply: None,
                        to_backend: Some(Input::Winch(cols, rows)),
                        start: None,
                        terminate: false,
                    }
                } else {
                    StepEffect { reply: None, to_backend: None, start: None, terminate: false }
                }
            },
            Message::TerminalInput(d) => {
                if matches!(self.state, ConnectionState::ShellActive) {
                    StepEffect {
                        reply: None,
                        to_backend: Some(Input::Data(d)),
                        start: None,
                        terminate: false,
                    }
                } else {
                    StepEffect { reply: None, to_backend: None, start: None, terminate: false }
                }
            },
            Message::SocketInput(d) => {
                if matches!(self.state, ConnectionState::SocketActive) {
                    StepEffect {
                        reply: None,
                        to_backend: Some(Input::Data(d)),
                        start: None,
                        terminate: false,
                    }
                } else {
                    StepEffect { reply: None, to_backend: None, start: None, terminate: false }
                }
            },
            _ => StepEffect { reply: None, to_backend: None, start: None, terminate: false },
        }
    }

    /// Reports the outcome of the backend start that the last effect asked
    /// for.
    pub fn backend_started(&mut self, c: Connection, ok: bool) -> (eff: StepEffect)
        ensures
            ({
                let (st, effv) = spec_backend_started(old(self).state, c, ok);
                &&& final(self).state == st
                &&& final(self).key == old(self).key
                &&& eff@ == effv
            }),
    {
        if !matches!(self.state, ConnectionState::AwaitingConnection) {
            StepEffect { reply: None, to_backend: None, start: None, terminate: false }
        } else if ok {
            self.state = if matches!(c, Connection::Shell) {
                ConnectionState::ShellActive
            } else {
                ConnectionState::SocketActive
            };
            StepEffect { reply: None, to_backend: None, start: None, terminate: false }
        } else if matches!(c, Connection::Shell) {
            self.state = ConnectionState::Ended;
            StepEffect {
                reply: Some(Message::Error),
                to_backend: None,
                start: None,
                terminate: true,
            }
        } else {
            StepEffect {
                reply: Some(Message::Error),
                to_backend: None,
                start: None,
                terminate: false,
            }
        }
    }

    /// Feeds one backend output to the state machine.
    pub fn on_backend_output(&mut self, o: Output) -> (eff: StepEffect)
        ensures
            ({
                let (st, effv) = spec_on_backend_output(old(self).state, o@);
                &&& final(self).state == st
                &&& final(self).key == old(self).key
                &&& eff@ == effv
            }),
    {
        match o {
            Output::Data(d) => {
                if matches!(self.state, ConnectionState::ShellActive) {
                    StepEffect {
                        reply: Some(Message::TerminalOutput(d)),
                        to_backend: None,
                        start: None,
                        terminate: false,
                    }
                } else if matches!(self.state, ConnectionState::SocketActive) {
                    StepEffect {
                        reply: Some(Message::SocketOutput(d)),
                        to_backend: None,
                        start: None,
                        terminate: false,
                    }
                } else {
                    StepEffect { reply: None, to_backend: None, start: None, terminate: false }
                }
            },
            Output::Died(code) => {
                if matches!(self.state, ConnectionState::ShellActive) {
                    self.state = ConnectionState::Ended;
                    StepEffect {
                        reply: Some(Message::ChildDeath(code)),
                        to_backend: None,
                        start: None,
                        terminate: true,
                    }
                } else {
                    StepEffect { reply: None, to_backend: None, start: None, terminate: false }
                }
            },
            Output::Closed => {
                if matches!(self.state, ConnectionState::SocketActive) {
                    self.state = ConnectionState::Ended;
                    StepEffect {
                        reply: Some(Message::SocketClose),
                        to_backend: None,
                        start: None,
                        terminate: true,
                    }
                } else {
                    StepEffect { reply: None, to_backend: None, start: None, terminate: false }
                }
            },
        }
    }

    /// Notes that the transport closed: the session is over.
    pub fn on_close(&mut self)
        ensures
            final(self).state == ConnectionState::Ended,
            final(self).key == old(self).key,
    {
        self.state = ConnectionState::Ended;
    }
}

/// The states in which an inbound message is honoured. A message kind not
/// listed for the current state is silently dropped.
pub open spec fn message_legal(state: ConnectionState, m: MessageV) -> bool {
    match m {
        MessageV::Hello(_, _) => state == ConnectionState::AwaitingHandshake,
        MessageV::Authenticate(_) => state == ConnectionState::AwaitingAuthentication,
        MessageV::ConnectionType(_) => state == ConnectionState::AwaitingConnection,
        MessageV::EndSession => true,
        MessageV::SignalContinue => state == ConnectionState::ShellActive,
        MessageV::SignalStop => state == ConnectionState::ShellActive,
        MessageV::SignalWinch(_, _) => state == ConnectionState::ShellActive,
        MessageV::TerminalInput(_) => state == ConnectionState::ShellActive,
        MessageV::SocketInput(_) => state == ConnectionState::SocketActive,
        _ => false,
    }
}

/// State legality: a message that is not legal in the current state leaves
/// the state unchanged and produces no observable effect — no reply, no
/// backend call, no teardown. Together with [`spec_on_message`] being a
/// function of the state and the message alone, the router's reaction to
/// every inbound message is deterministic.
pub proof fn lemma_state_legality(state: ConnectionState, key: Seq<char>, m: MessageV)
    requires
        state != ConnectionState::Ended,
        !message_legal(state, m),
    ensures
        spec_on_message(state, key, m) == (state, no_effect()),
{
}

/// The ended state absorbs every message without effect.
pub proof fn lemma_ended_absorbs(key: Seq<char>, m: MessageV)
    ensures
        spec_on_message(ConnectionState::Ended, key, m) == (ConnectionState::Ended, no_effect()),
{
}

/// Version rejection: a `Hello` carrying any version other than the
/// supported one is answered with `Error` and ends the session.
pub proof fn lemma_version_rejection(key: Seq<char>, maj: u8, min: u8)
    requires
        maj != VERSION_MAJOR || min != VERSION_MINOR,
    ensures
        spec_on_message(ConnectionState::AwaitingHandshake, key, MessageV::Hello(maj, min)) == (
            ConnectionState::Ended,
            StepEffectV {
                reply: Some(MessageV::Error),
                to_backend: None,
                start: None,
                terminate: true,
            },
        ),
{
}

/// `Authentication` is only ever sent in answer to an `Authenticate` that
/// arrived while authentication was awaited; in particular no `Hello`, of
/// any version, is answered with `Authentication`.
pub proof fn lemma_authentication_only_for_authenticate(
    state: ConnectionState,
    key: Seq<char>,
    m: MessageV,
)
    ensures
        match spec_on_message(state, key, m).1.reply {
            Some(MessageV::Authentication(_)) => state == ConnectionState::AwaitingAuthentication
                && m matches MessageV::Authenticate(_),
            _ => true,
        },
{
}

/// Authentication correctness: presenting a secret while authentication is
/// awaited is answered with `Authentication(pw == key)`; a wrong secret
/// leaves the server still awaiting authentication, without ending the
/// session.
pub proof fn lemma_authentication_correctness(key: Seq<char>, pw: Seq<char>)
    ensures
        ({
            let (st, eff) = spec_on_message(
                ConnectionState::AwaitingAuthentication,
                key,
                MessageV::Authenticate(pw),
            );
            &&& eff.reply == Some(MessageV::Authentication(pw == key))
            &&& eff.to_backend is None
            &&& eff.start is None
            &&& !eff.terminate
            &&& (pw == key ==> st == ConnectionState::AwaitingConnection)
            &&& (pw != key ==> st == ConnectionState::AwaitingAuthentication)
        }),
{
}

/// One event in the life of a connection, as the router sees it.
pub enum EventV {
    /// An inbound message was decoded.
    Msg(MessageV),
    /// A backend start was attempted with the given outcome.
    Started(Connection, bool),
    /// The backend produced an output.
    Backend(OutputV),
    /// The transport closed.
    Close,
}

/// The state and effect after one event of any kind.
pub open spec fn spec_event_step(state: ConnectionState, key: Seq<char>, e: EventV) -> (
    ConnectionState,
    StepEffectV,
) {
    match e {
        EventV::Msg(m) => spec_on_message(state, key, m),
        EventV::Started(c, ok) => spec_backend_started(state, c, ok),
        EventV::Backend(o) => spec_on_backend_output(state, o),
        EventV::Close => (ConnectionState::Ended, no_effect()),
    }
}

/// The effects of folding a whole sequence of events over the router.
pub open spec fn spec_run(state: ConnectionState, key: Seq<char>, events: Seq<EventV>) -> Seq<
    StepEffectV,
>
    decreases events.len(),
{
    if events.len() == 0 {
        Seq::empty()
    } else {
        let (st2, eff) = spec_event_step(state, key, events[0]);
        seq![eff] + spec_run(st2, key, events.drop_first())
    }
}

/// Whether a step's reply announces the end of the session: the death of the
/// shell child or the close of the forwarded socket.
pub open spec fn is_termination_reply(e: StepEffectV) -> bool {
    e.reply matches Some(MessageV::ChildDeath(_)) || e.reply matches Some(MessageV::SocketClose)
}

/// How many of the given effects carry a termination reply.
pub open spec fn count_termination_replies(effs: Seq<StepEffectV>) -> nat
    decreases effs.len(),
{
    if effs.len() == 0 {
        0
    } else {
        (if is_termination_reply(effs[0]) {
            1nat
        } else {
            0nat
        }) + count_termination_replies(effs.drop_first())
    }
}

/// From the ended state no run of events sends anything at all.
pub proof fn lemma_run_from_ended(key: Seq<char>, events: Seq<EventV>)
    ensures
        count_termination_replies(spec_run(ConnectionState::Ended, key, events)) == 0,
    decreases events.len(),
{
    if events.len() > 0 {
        let (st2, eff) = spec_event_step(ConnectionState::Ended, key, events[0]);
        let tail = spec_run(st2, key, events.drop_first());
        assert(st2 == ConnectionState::Ended && eff == no_effect());
        assert((seq![eff] + tail)[0] == eff);
        assert((seq![eff] + tail).drop_first() =~= tail);
        lemma_run_from_ended(key, events.drop_first());
    }
}

/// Single termination event: over any sequence of events whatsoever, a
/// connection sends at most one termination reply — one `ChildDeath` or one
/// `SocketClose`, never more and never both.
pub proof fn lemma_single_termination(
    state: ConnectionState,
    key: Seq<char>,
    events: Seq<EventV>,
)
    ensures
        count_termination_replies(spec_run(state, key, events)) <= 1,
    decreases events.len(),
{
    if events.len() > 0 {
        let (st2, eff) = spec_event_step(state, key, events[0]);
        let tail = spec_run(st2, key, events.drop_first());
        assert((seq![eff] + tail)[0] == eff);
        assert((seq![eff] + tail).drop_first() =~= tail);
        if is_termination_reply(eff) {
            assert(st2 == ConnectionState::Ended);
            lemma_run_from_ended(key, events.drop_first());
        } else {
            lemma_single_termination(st2, key, events.drop_first());
        }
    }
}

} // verus!
