//! The tunnel's message taxonomy: the fixed set of frame kinds exchanged
//! between client and server, the frozen byte discriminant of each kind, and
//! the connection-type selector carried by `ConnectionType` frames.

use vstd::prelude::*;
use vstd::string::StrSliceExecFns;

use crate::cbor::{
    lemma_read_bool, lemma_read_bytes, lemma_read_text, lemma_read_u8, lemma_read_u16,
    read_bool_item, read_bytes_item, read_text_item, read_u16_item, read_u8_item, spec_bool_item,
    spec_bytes_item, spec_read_bool, spec_read_bytes, spec_read_text, spec_read_u8, spec_read_u16,
    spec_text_item, spec_uint_item, write_bool_item, write_bytes_item, write_text_item,
    write_u16_item, write_u8_item,
};

verus! {

/// The websocket subprotocol both peers negotiate for the tunnel.
pub const SUBPROTOCOL: &'static str = "autobahn-websocket-tunnel";

/// The kind of a tunnel frame. The wire discriminant of each kind is its
/// position in the alphabetical order of the kind names, frozen by
/// [`MessageType::ordinal`]; new kinds may only be appended.
#[derive(Clone, Copy, Debug, PartialEq, Eq, Structural)]
pub enum MessageType {
    Authenticate,
    Authentication,
    ChildDeath,
    ConnectionType,
    EndSession,
    Error,
    Hello,
    SignalContinue,
    SignalStop,
    SignalWinch,
    SocketClose,
    SocketInput,
    SocketOutput,
    TerminalInput,
    TerminalOutput,
}

impl MessageType {
    /// The frozen wire discriminant of this message kind.
    pub open spec fn ordinal(self) -> u8 {
        match self {
            MessageType::Authenticate => 0,
            MessageType::Authentication => 1,
            MessageType::ChildDeath => 2,
            MessageType::ConnectionType => 3,
            MessageType::EndSession => 4,
            MessageType::Error => 5,
            MessageType::Hello => 6,
            MessageType::SignalContinue => 7,
            MessageType::SignalStop => 8,
            MessageType::SignalWinch => 9,
            MessageType::SocketClose => 10,
            MessageType::SocketInput => 11,
            MessageType::SocketOutput => 12,
            MessageType::TerminalInput => 13,
            MessageType::TerminalOutput => 14,
        }
    }

    /// The message kind with the given wire discriminant, if any.
    pub open spec fn spec_from_u8(v: u8) -> Option<MessageType> {
        if v == 0 {
            Some(MessageType::Authenticate)
        } else if v == 1 {
            Some(MessageType::Authentication)
        } else if v == 2 {
            Some(MessageType::ChildDeath)
        } else if v == 3 {
            Some(MessageType::ConnectionType)
        } else if v == 4 {
            Some(MessageType::EndSession)
        } else if v == 5 {
            Some(MessageType::Error)
        } else if v == 6 {
            Some(MessageType::Hello)
        } else if v == 7 {
            Some(MessageType::SignalContinue)
        } else if v == 8 {
            Some(MessageType::SignalStop)
        } else if v == 9 {
            Some(MessageType::SignalWinch)
        } else if v == 10 {
            Some(MessageType::SocketClose)
        } else if v == 11 {
            Some(MessageType::SocketInput)
        } else if v == 12 {
            Some(MessageType::SocketOutput)
        } else if v == 13 {
            Some(MessageType::TerminalInput)
        } else if v == 14 {
            Some(MessageType::TerminalOutput)
        } else {
            None
        }
    }

    /// The wire discriminant of this message kind.
    pub fn as_u8(self) -> (r: u8)
        ensures
            r == self.ordinal(),
    {
        match self {
            MessageType::Authenticate => 0,
            MessageType::Authentication => 1,
            MessageType::ChildDeath => 2,
            MessageType::ConnectionType => 3,
            MessageType::EndSession => 4,
            MessageType::Error => 5,
            MessageType::Hello => 6,
            MessageType::SignalContinue => 7,
            MessageType::SignalStop => 8,
            MessageType::SignalWinch => 9,
            MessageType::SocketClose => 10,
            MessageType::SocketInput => 11,
            MessageType::SocketOutput => 12,
            MessageType::TerminalInput => 13,
            MessageType::TerminalOutput => 14,
        }
    }

    /// The message kind with the given wire discriminant; `None` when the
    /// discriminant is unassigned.
    pub fn from_u8(v: u8) -> (r: Option<MessageType>)
        ensures
            r == Self::spec_from_u8(v),
    {
        if v == 0 {
            Some(MessageType::Authenticate)
        } else if v == 1 {
            Some(MessageType::Authentication)
        } else if v == 2 {
            Some(MessageType::ChildDeath)
        } else if v == 3 {
            Some(MessageType::ConnectionType)
        } else if v == 4 {
            Some(MessageType::EndSession)
        } else if v == 5 {
            Some(MessageType::Error)
        } else if v == 6 {
            Some(MessageType::Hello)
        } else if v == 7 {
            Some(MessageType::SignalContinue)
        } else if v == 8 {
            Some(MessageType::SignalStop)
        } else if v == 9 {
            Some(MessageType::SignalWinch)
        } else if v == 10 {
            Some(MessageType::SocketClose)
        } else if v == 11 {
            Some(MessageType::SocketInput)
        } else if v == 12 {
            Some(MessageType::SocketOutput)
        } else if v == 13 {
            Some(MessageType::TerminalInput)
        } else if v == 14 {
            Some(MessageType::TerminalOutput)
        } else {
            None
        }
    }
}

/// Round trip between a message kind and its wire discriminant: every kind
/// survives the conversion to a byte and back.
pub proof fn lemma_message_type_u8_round_trip(t: MessageType)
    ensures
        MessageType::spec_from_u8(t.ordinal()) == Some(t),
{
}

/// The mode selected by a `ConnectionType` frame: an interactive shell, or a
/// forward to a TCP port inside the workspace.
#[derive(Clone, Copy, Debug, PartialEq, Eq, Structural)]
pub enum Connection {
    Shell,
    Port(u16),
}

impl Connection {
    /// The wire form of the selector: `0` selects the shell, any other value
    /// selects a forward to that port.
    pub open spec fn spec_to_u16(self) -> u16 {
        match self {
            Connection::Shell => 0,
            Connection::Port(p) => p,
        }
    }

    /// The selector carried by the given wire value.
    pub open spec fn spec_from_u16(v: u16) -> Connection {
        if v == 0 {
            Connection::Shell
        } else {
            Connection::Port(v)
        }
    }

    /// A selector is in wire form when it does not spell the shell selection
    /// as `Port(0)`; only such selectors survive a round trip over the wire.
    pub open spec fn wire_form(self) -> bool {
        self != Connection::Port(0u16)
    }

    pub fn to_u16(self) -> (r: u16)
        ensures
            r == self.spec_to_u16(),
    {
        match self {
            Connection::Shell => 0,
            Connection::Port(p) => p,
        }
    }

    pub fn from_u16(v: u16) -> (r: Connection)
        ensures
            r == Connection::spec_from_u16(v),
    {
        if v == 0 {
            Connection::Shell
        } else {
            Connection::Port(v)
        }
    }
}

/// Round trip between a connection selector in wire form and its wire value.
pub proof fn lemma_connection_u16_round_trip(c: Connection)
    requires
        c.wire_form(),
    ensures
        Connection::spec_from_u16(c.spec_to_u16()) == c,
{
}

/// One tunnel frame. Each variant is carried as one binary websocket frame,
/// encoded by [`crate::cbor`] helpers as a discriminant byte followed by the
/// payload fields in order.
#[derive(Clone, Debug)]
pub enum Message {
    /// Presents the shared secret (client to server).
    Authenticate(String),
    /// Reports whether the secret was accepted (server to client).
    Authentication(bool),
    /// Reports that the shell child exited, with its exit code (server to client).
    ChildDeath(u8),
    /// Selects the session mode (client to server).
    ConnectionType(Connection),
    /// Requests teardown of the session (client to server).
    EndSession,
    /// Reports a fatal protocol error; a close follows (server to client).
    Error,
    /// Announces the protocol version, major then minor (client to server).
    Hello(u8, u8),
    /// Asks that the shell child be continued (client to server).
    SignalContinue,
    /// Asks that the shell child be stopped (client to server).
    SignalStop,
    /// Announces a new terminal size, columns then rows (client to server).
    SignalWinch(u16, u16),
    /// Reports that the forwarded TCP peer closed (server to client).
    SocketClose,
    /// Bytes for the forwarded TCP peer (client to server).
    SocketInput(Vec<u8>),
    /// Bytes read from the forwarded TCP peer (server to client).
    SocketOutput(Vec<u8>),
    /// Bytes for the pseudo-terminal master (client to server).
    TerminalInput(Vec<u8>),
    /// Bytes read from the pseudo-terminal master (server to client).
    TerminalOutput(Vec<u8>),
}

/// The mathematical image of a [`Message`]: text payloads as character
/// sequences and binary payloads as byte sequences. Contracts and lemmas
/// speak of messages through this type.
#[verifier::ext_equal]
pub enum MessageV {
    Authenticate(Seq<char>),
    Authentication(bool),
    ChildDeath(u8),
    ConnectionType(Connection),
    EndSession,
    Error,
    Hello(u8, u8),
    SignalContinue,
    SignalStop,
    SignalWinch(u16, u16),
    SocketClose,
    SocketInput(Seq<u8>),
    SocketOutput(Seq<u8>),
    TerminalInput(Seq<u8>),
    TerminalOutput(Seq<u8>),
}

impl View for Message {
    type V = MessageV;

    open spec fn view(&self) -> MessageV {
        match self {
            Message::Authenticate(s) => MessageV::Authenticate(s@),
            Message::Authentication(ok) => MessageV::Authentication(*ok),
            Message::ChildDeath(code) => MessageV::ChildDeath(*code),
            Message::ConnectionType(c) => MessageV::ConnectionType(*c),
            Message::EndSession => MessageV::EndSession,
            Message::Error => MessageV::Error,
            Message::Hello(maj, min) => MessageV::Hello(*maj, *min),
            Message::SignalContinue => MessageV::SignalContinue,
            Message::SignalStop => MessageV::SignalStop,
            Message::SignalWinch(cols, rows) => MessageV::SignalWinch(*cols, *rows),
            Message::SocketClose => MessageV::SocketClose,
            Message::SocketInput(d) => MessageV::SocketInput(d@),
            Message::SocketOutput(d) => MessageV::SocketOutput(d@),
            Message::TerminalInput(d) => MessageV::TerminalInput(d@),
            Message::TerminalOutput(d) => MessageV::TerminalOutput(d@),
        }
    }
}

impl MessageV {
    /// The kind of the message.
    pub open spec fn tag(self) -> MessageType {
        match self {
            MessageV::Authenticate(_) => MessageType::Authenticate,
            MessageV::Authentication(_) => MessageType::Authentication,
            MessageV::ChildDeath(_) => MessageType::ChildDeath,
            MessageV::ConnectionType(_) => MessageType::ConnectionType,
            MessageV::EndSession => MessageType::EndSession,
            MessageV::Error => MessageType::Error,
            MessageV::Hello(_, _) => MessageType::Hello,
            MessageV::SignalContinue => MessageType::SignalContinue,
            MessageV::SignalStop => MessageType::SignalStop,
            MessageV::SignalWinch(_, _) => MessageType::SignalWinch,
            MessageV::SocketClose => MessageType::SocketClose,
            MessageV::SocketInput(_) => MessageType::SocketInput,
            MessageV::SocketOutput(_) => MessageType::SocketOutput,
            MessageV::TerminalInput(_) => MessageType::TerminalInput,
            MessageV::TerminalOutput(_) => MessageType::TerminalOutput,
        }
    }

    /// A message survives a round trip over the wire when every embedded
    /// selector is in wire form and every payload length fits the largest
    /// length head. Every message built from executable values satisfies the
    /// length bounds; only `ConnectionType(Port(0))`, which spells the shell
    /// selection in a reserved way, is genuinely excluded.
    pub open spec fn encodable(self) -> bool {
        match self {
            MessageV::Authenticate(s) => vstd::utf8::encode_utf8(s).len()
                < 0x1_0000_0000_0000_0000,
            MessageV::ConnectionType(c) => c.wire_form(),
            MessageV::SocketInput(d) => d.len() < 0x1_0000_0000_0000_0000,
            MessageV::SocketOutput(d) => d.len() < 0x1_0000_0000_0000_0000,
            MessageV::TerminalInput(d) => d.len() < 0x1_0000_0000_0000_0000,
            MessageV::TerminalOutput(d) => d.len() < 0x1_0000_0000_0000_0000,
            _ => true,
        }
    }
}

impl Message {
    /// The kind of this message.
    pub fn message_type(&self) -> (r: MessageType)
        ensures
            r == self@.tag(),
    {
        match self {
            Message::Authenticate(_) => MessageType::Authenticate,
            Message::Authentication(_) => MessageType::Authentication,
            Message::ChildDeath(_) => MessageType::ChildDeath,
            Message::ConnectionType(_) => MessageType::ConnectionType,
            Message::EndSession => MessageType::EndSession,
            Message::Error => MessageType::Error,
            Message::Hello(_, _) => MessageType::Hello,
            Message::SignalContinue => MessageType::SignalContinue,
            Message::SignalStop => MessageType::SignalStop,
            Message::SignalWinch(_, _) => MessageType::SignalWinch,
            Message::SocketClose => MessageType::SocketClose,
            Message::SocketInput(_) => MessageType::SocketInput,
            Message::SocketOutput(_) => MessageType::SocketOutput,
            Message::TerminalInput(_) => MessageType::TerminalInput,
            Message::TerminalOutput(_) => MessageType::TerminalOutput,
        }
    }
}

impl PartialEq for Message {
    /// Two messages are equal when they are the same kind and carry the same
    /// payload.
    fn eq(&self, other: &Message) -> (r: bool) {
        let r = match (self, other) {
            (Message::Authenticate(a), Message::Authenticate(b)) => str_eq(a.as_str(), b.as_str()),
            (Message::Authentication(a), Message::Authentication(b)) => *a == *b,
            (Message::ChildDeath(a), Message::ChildDeath(b)) => *a == *b,
            (Message::ConnectionType(a), Message::ConnectionType(b)) => *a == *b,
            (Message::EndSession, Message::EndSession) => true,
            (Message::Error, Message::Error) => true,
            (Message::Hello(a1, a2), Message::Hello(b1, b2)) => *a1 == *b1 && *a2 == *b2,
            (Message::SignalContinue, Message::SignalContinue) => true,
            (Message::SignalStop, Message::SignalStop) => true,
            (Message::SignalWinch(a1, a2), Message::SignalWinch(b1, b2)) => *a1 == *b1 && *a2
                == *b2,
            (Message::SocketClose, Message::SocketClose) => true,
            (Message::SocketInput(a), Message::SocketInput(b)) => vec_bytes_eq(a, b),
            (Message::SocketOutput(a), Message::SocketOutput(b)) => vec_bytes_eq(a, b),
            (Message::TerminalInput(a), Message::TerminalInput(b)) => vec_bytes_eq(a, b),
            (Message::TerminalOutput(a), Message::TerminalOutput(b)) => vec_bytes_eq(a, b),
            _ => false,
        };
        r
    }
}

impl Eq for Message {

}

impl vstd::std_specs::cmp::PartialEqSpecImpl for Message {
    open spec fn obeys_eq_spec() -> bool {
        true
    }

    open spec fn eq_spec(&self, other: &Message) -> bool {
        self@ == other@
    }
}

/// Whether two strings hold the same characters.
fn str_eq(a: &str, b: &str) -> (r: bool)
    ensures
        r == (a@ == b@),
{
    let la = a.unicode_len();
    let lb = b.unicode_len();
    if la != lb {
        return false;
    }
    let mut i: usize = 0;
    while i < la
        invariant
            i <= a@.len(),
            a@.len() == b@.len(),
            la == a@.len(),
            forall|j: int| 0 <= j < i ==> a@[j] == b@[j],
        decreases a@.len() - i,
    {
        if a.get_char(i) != b.get_char(i) {
            return false;
        }
        i = i + 1;
    }
    assert(a@ =~= b@);
    true
}

/// Whether two byte vectors hold the same bytes.
fn vec_bytes_eq(a: &Vec<u8>, b: &Vec<u8>) -> (r: bool)
    ensures
        r == (a@ == b@),
{
    if a.len() != b.len() {
        return false;
    }
    let mut i: usize = 0;
    while i < a.len()
        invariant
            i <= a@.len(),
            a@.len() == b@.len(),
            forall|j: int| 0 <= j < i ==> a@[j] == b@[j],
        decreases a@.len() - i,
    {
        if a[i] != b[i] {
            return false;
        }
        i = i + 1;
    }
    assert(a@ =~= b@);
    true
}

/// The error raised by frame decoding: a discriminant outside the assigned
/// range, or a payload that does not fit the discriminant's shape. Both are
/// fatal to the connection.
#[derive(Clone, Copy, Debug, PartialEq, Eq, Structural)]
pub enum DecodeError {
    UnknownTag,
    Malformed,
}

/// The payload bytes of a message: its fields in order, each as one item.
pub open spec fn spec_payload(m: MessageV) -> Seq<u8> {
    match m {
        MessageV::Authenticate(s) => spec_text_item(s),
        MessageV::Authentication(ok) => spec_bool_item(ok),
        MessageV::ChildDeath(code) => spec_uint_item(code as nat),
        MessageV::ConnectionType(c) => spec_uint_item(c.spec_to_u16() as nat),
        MessageV::EndSession => Seq::<u8>::empty(),
        MessageV::Error => Seq::<u8>::empty(),
        MessageV::Hello(maj, min) => spec_uint_item(maj as nat) + spec_uint_item(min as nat),
        MessageV::SignalContinue => Seq::<u8>::empty(),
        MessageV::SignalStop => Seq::<u8>::empty(),
        MessageV::SignalWinch(cols, rows) => spec_uint_item(cols as nat) + spec_uint_item(
            rows as nat,
        ),
        MessageV::SocketClose => Seq::<u8>::empty(),
        MessageV::SocketInput(d) => spec_bytes_item(d),
        MessageV::SocketOutput(d) => spec_bytes_item(d),
        MessageV::TerminalInput(d) => spec_bytes_item(d),
        MessageV::TerminalOutput(d) => spec_bytes_item(d),
    }
}

/// The frame encoding a message: its discriminant as an unsigned-integer
/// item, then its payload.
pub open spec fn spec_encode(m: MessageV) -> Seq<u8> {
    spec_uint_item(m.tag().ordinal() as nat) + spec_payload(m)
}

/// Decodes the payload of a frame whose discriminant named `tag`. Bytes past
/// the fields of the message are ignored.
pub open spec fn spec_decode_payload(tag: MessageType, b: Seq<u8>) -> Result<
    MessageV,
    DecodeError,
> {
    match tag {
        MessageType::Authenticate => match spec_read_text(b) {
            Some((s, _)) => Ok(MessageV::Authenticate(s)),
            None => Err(DecodeError::Malformed),
        },
        MessageType::Authentication => match spec_read_bool(b) {
            Some((v, _)) => Ok(MessageV::Authentication(v)),
            None => Err(DecodeError::Malformed),
        },
        MessageType::ChildDeath => match spec_read_u8(b) {
            Some((v, _)) => Ok(MessageV::ChildDeath(v)),
            None => Err(DecodeError::Malformed),
        },
        MessageType::ConnectionType => match spec_read_u16(b) {
            Some((v, _)) => Ok(MessageV::ConnectionType(Connection::spec_from_u16(v))),
            None => Err(DecodeError::Malformed),
        },
        MessageType::EndSession => Ok(MessageV::EndSession),
        MessageType::Error => Ok(MessageV::Error),
        MessageType::Hello => match spec_read_u8(b) {
            Some((maj, r)) => match spec_read_u8(r) {
                Some((min, _)) => Ok(MessageV::Hello(maj, min)),
                None => Err(DecodeError::Malformed),
            },
            None => Err(DecodeError::Malformed),
        },
        MessageType::SignalContinue => Ok(MessageV::SignalContinue),
        MessageType::SignalStop => Ok(MessageV::SignalStop),
        MessageType::SignalWinch => match spec_read_u16(b) {
            Some((cols, r)) => match spec_read_u16(r) {
                Some((rows, _)) => Ok(MessageV::SignalWinch(cols, rows)),
                None => Err(DecodeError::Malformed),
            },
            None => Err(DecodeError::Malformed),
        },
        MessageType::SocketClose => Ok(MessageV::SocketClose),
        MessageType::SocketInput => match spec_read_bytes(b) {
            Some((d, _)) => Ok(MessageV::SocketInput(d)),
            None => Err(DecodeError::Malformed),
        },
        MessageType::SocketOutput => match spec_read_bytes(b) {
            Some((d, _)) => Ok(MessageV::SocketOutput(d)),
            None => Err(DecodeError::Malformed),
        },
        MessageType::TerminalInput => match spec_read_bytes(b) {
            Some((d, _)) => Ok(MessageV::TerminalInput(d)),
            None => Err(DecodeError::Malformed),
        },
        MessageType::TerminalOutput => match spec_read_bytes(b) {
            Some((d, _)) => Ok(MessageV::TerminalOutput(d)),
            None => Err(DecodeError::Malformed),
        },
    }
}

/// Decodes one frame: the discriminant, then the payload it announces.
pub open spec fn spec_decode(b: Seq<u8>) -> Result<MessageV, DecodeError> {
    match spec_read_u8(b) {
        None => Err(DecodeError::Malformed),
        Some((t, rest)) => match MessageType::spec_from_u8(t) {
            None => Err(DecodeError::UnknownTag),
            Some(tag) => spec_decode_payload(tag, rest),
        },
    }
}

impl Message {
    /// Encodes this message as one self-contained binary frame.
    pub fn encode(&self) -> (r: Vec<u8>)
        ensures
            r@ == spec_encode(self@),
    {
        let mut out: Vec<u8> = Vec::new();
        let tag = self.message_type().as_u8();
        write_u8_item(&mut out, tag);
        match self {
            Message::Authenticate(s) => write_text_item(&mut out, s.as_str()),
            Message::Authentication(ok) => write_bool_item(&mut out, *ok),
            Message::ChildDeath(code) => write_u8_item(&mut out, *code),
            Message::ConnectionType(c) => write_u16_item(&mut out, (*c).to_u16()),
            Message::EndSession => (),
            Message::Error => (),
            Message::Hello(maj, min) => {
                write_u8_item(&mut out, *maj);
                write_u8_item(&mut out, *min);
            },
            Message::SignalContinue => (),
            Message::SignalStop => (),
            Message::SignalWinch(cols, rows) => {
                write_u16_item(&mut out, *cols);
                write_u16_item(&mut out, *rows);
            },
            Message::SocketClose => (),
            Message::SocketInput(d) => write_bytes_item(&mut out, d.as_slice()),
            Message::SocketOutput(d) => write_bytes_item(&mut out, d.as_slice()),
            Message::TerminalInput(d) => write_bytes_item(&mut out, d.as_slice()),
            Message::TerminalOutput(d) => write_bytes_item(&mut out, d.as_slice()),
        }
        assert(out@ =~= spec_encode(self@));
        out
    }

    /// Decodes one binary frame. Fails with `UnknownTag` on an unassigned
    /// discriminant and with `Malformed` on a payload that does not fit the
    /// discriminant's shape.
    pub fn decode(b: &[u8]) -> (r: Result<Message, DecodeError>)
        ensures
            match r {
                Ok(m) => spec_decode(b@) == Ok::<MessageV, DecodeError>(m@),
                Err(e) => spec_decode(b@) == Err::<MessageV, DecodeError>(e),
            },
    {
        assert(b@.skip(0) =~= b@);
        match read_u8_item(b, 0) {
            None => Err(DecodeError::Malformed),
            Some((t, at)) => match MessageType::from_u8(t) {
                None => Err(DecodeError::UnknownTag),
                Some(tag) => Self::decode_payload(tag, b, at),
            },
        }
    }

    /// Decodes the payload of a frame whose discriminant named `tag`,
    /// starting at byte offset `at`.
    fn decode_payload(tag: MessageType, b: &[u8], at: usize) -> (r: Result<Message, DecodeError>)
        requires
            at <= b@.len(),
        ensures
            match r {
                Ok(m) => spec_decode_payload(tag, b@.skip(at as int)) == Ok::<
                    MessageV,
                    DecodeError,
                >(m@),
                Err(e) => spec_decode_payload(tag, b@.skip(at as int)) == Err::<
                    MessageV,
                    DecodeError,
                >(e),
            },
    {
        match tag {
            MessageType::Authenticate => match read_text_item(b, at) {
                Some((s, _)) => Ok(Message::Authenticate(s)),
                None => Err(DecodeError::Malformed),
            },
            MessageType::Authentication => match read_bool_item(b, at) {
                Some((v, _)) => Ok(Message::Authentication(v)),
                None => Err(DecodeError::Malformed),
            },
            MessageType::ChildDeath => match read_u8_item(b, at) {
                Some((v, _)) => Ok(Message::ChildDeath(v)),
                None => Err(DecodeError::Malformed),
            },
            MessageType::ConnectionType => match read_u16_item(b, at) {
                Some((v, _)) => Ok(Message::ConnectionType(Connection::from_u16(v))),
                None => Err(DecodeError::Malformed),
            },
            MessageType::EndSession => Ok(Message::EndSession),
            MessageType::Error => Ok(Message::Error),
            MessageType::Hello => match read_u8_item(b, at) {
                Some((maj, at2)) => match read_u8_item(b, at2) {
                    Some((min, _)) => Ok(Message::Hello(maj, min)),
                    None => Err(DecodeError::Malformed),
                },
                None => Err(DecodeError::Malformed),
            },
            MessageType::SignalContinue => Ok(Message::SignalContinue),
            MessageType::SignalStop => Ok(Message::SignalStop),
            MessageType::SignalWinch => match read_u16_item(b, at) {
                Some((cols, at2)) => match read_u16_item(b, at2) {
                    Some((rows, _)) => Ok(Message::SignalWinch(cols, rows)),
                    None => Err(DecodeError::Malformed),
                },
                None => Err(DecodeError::Malformed),
            },
            MessageType::SocketClose => Ok(Message::SocketClose),
            MessageType::SocketInput => match read_bytes_item(b, at) {
                Some((d, _)) => Ok(Message::SocketInput(d)),
                None => Err(DecodeError::Malformed),
            },
            MessageType::SocketOutput => match read_bytes_item(b, at) {
                Some((d, _)) => Ok(Message::SocketOutput(d)),
                None => Err(DecodeError::Malformed),
            },
            MessageType::TerminalInput => match read_bytes_item(b, at) {
                Some((d, _)) => Ok(Message::TerminalInput(d)),
                None => Err(DecodeError::Malformed),
            },
            MessageType::TerminalOutput => match read_bytes_item(b, at) {
                Some((d, _)) => Ok(Message::TerminalOutput(d)),
                None => Err(DecodeError::Malformed),
            },
        }
    }
}

/// Codec round trip: decoding the encoding of any encodable message yields
/// the message itself.
pub proof fn lemma_codec_round_trip(m: MessageV)
    requires
        m.encodable(),
    ensures
        spec_decode(spec_encode(m)) == Ok::<MessageV, DecodeError>(m),
{
    let tag = m.tag();
    let payload = spec_payload(m);
    lemma_read_u8(tag.ordinal(), payload);
    lemma_message_type_u8_round_trip(tag);
    let empty = Seq::<u8>::empty();
    match m {
        MessageV::Authenticate(s) => {
            assert(spec_text_item(s) + empty =~= spec_text_item(s));
            lemma_read_text(s, empty);
        },
        MessageV::Authentication(ok) => {
            assert(spec_bool_item(ok) + empty =~= spec_bool_item(ok));
            lemma_read_bool(ok, empty);
        },
        MessageV::ChildDeath(code) => {
            assert(spec_uint_item(code as nat) + empty =~= spec_uint_item(code as nat));
            lemma_read_u8(code, empty);
        },
        MessageV::ConnectionType(c) => {
            assert(spec_uint_item(c.spec_to_u16() as nat) + empty =~= spec_uint_item(
                c.spec_to_u16() as nat,
            ));
            lemma_read_u16(c.spec_to_u16(), empty);
            lemma_connection_u16_round_trip(c);
        },
        MessageV::Hello(maj, min) => {
            lemma_read_u8(maj, spec_uint_item(min as nat));
            assert(spec_uint_item(min as nat) + empty =~= spec_uint_item(min as nat));
            lemma_read_u8(min, empty);
        },
        MessageV::SignalWinch(cols, rows) => {
            lemma_read_u16(cols, spec_uint_item(rows as nat));
            assert(spec_uint_item(rows as nat) + empty =~= spec_uint_item(rows as nat));
            lemma_read_u16(rows, empty);
        },
        MessageV::SocketInput(d) => {
            assert(spec_bytes_item(d) + empty =~= spec_bytes_item(d));
            lemma_read_bytes(d, empty);
        },
        MessageV::SocketOutput(d) => {
            assert(spec_bytes_item(d) + empty =~= spec_bytes_item(d));
            lemma_read_bytes(d, empty);
        },
        MessageV::TerminalInput(d) => {
            assert(spec_bytes_item(d) + empty =~= spec_bytes_item(d));
            lemma_read_bytes(d, empty);
        },
        MessageV::TerminalOutput(d) => {
            assert(spec_bytes_item(d) + empty =~= spec_bytes_item(d));
            lemma_read_bytes(d, empty);
        },
        _ => {},
    }
}

/// Discriminant stability: every encoded frame is non-empty and its first
/// byte is the frozen ordinal of the message's kind.
pub proof fn lemma_discriminant_stability(m: MessageV)
    ensures
        spec_encode(m).len() > 0,
        spec_encode(m)[0] == m.tag().ordinal(),
{
}

} // verus!
