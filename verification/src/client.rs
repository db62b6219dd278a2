//! The client's side of the tunnel: the workspace address, the connection
//! settings, the handshake checks, and the mapping between tunnel messages
//! and the frontend's input and output events.

use vstd::prelude::*;
use vstd::string::StrSliceExecFns;
use vstd::string::StringExecFns;

use crate::message::{Connection, Message, MessageV};
use crate::router::{Input, InputV, Output, OutputV};
use crate::scan::{find_char_from, spec_find_char};

verus! {

/// A workspace address: the owning user and the workspace name.
#[derive(Clone, Debug, PartialEq)]
pub struct Repl {
    pub name: String,
    pub user: String,
}

/// The first segment of `s` up to the first `/`, with one leading `@`
/// removed.
pub open spec fn spec_user_part(s: Seq<char>, slash: int) -> Seq<char> {
    let u = s.take(slash);
    if u.len() > 0 && u[0] == '@' {
        u.drop_first()
    } else {
        u
    }
}

/// The second `/`-separated segment of `s`, given the position of the first
/// `/`.
pub open spec fn spec_name_part(s: Seq<char>, slash: int) -> Seq<char> {
    let rest = s.skip(slash + 1);
    match spec_find_char(rest, '/') {
        None => rest,
        Some(q) => rest.take(q),
    }
}

/// The workspace address written in `s` as `[@]user/name`, if any.
pub open spec fn spec_parse_repl(s: Seq<char>) -> Option<(Seq<char>, Seq<char>)> {
    match spec_find_char(s, '/') {
        None => None,
        Some(p) => Some((spec_user_part(s, p), spec_name_part(s, p))),
    }
}

impl Repl {
    /// The hostname of the workspace.
    pub open spec fn spec_domain(&self) -> Seq<char> {
        self.name@ + "."@ + self.user@ + ".repl.co"@
    }

    /// The hostname of the workspace: `name.user.repl.co`.
    pub fn domain(&self) -> (r: String)
        ensures
            r@ == self.spec_domain(),
    {
        let mut s = String::new();
        s.append(self.name.as_str());
        s.append(".");
        s.append(self.user.as_str());
        s.append(".repl.co");
        assert(s@ =~= self.spec_domain());
        s
    }

    /// The websocket endpoint of the workspace's tunnel.
    pub open spec fn spec_tunnel_url(&self) -> Seq<char> {
        "wss://"@ + self.spec_domain() + "/__atbws"@
    }

    /// The websocket endpoint of the workspace's tunnel:
    /// `wss://name.user.repl.co/__atbws`.
    pub fn tunnel_url(&self) -> (r: String)
        ensures
            r@ == self.spec_tunnel_url(),
    {
        let mut s = String::new();
        s.append("wss://");
        s.append(self.name.as_str());
        s.append(".");
        s.append(self.user.as_str());
        s.append(".repl.co");
        s.append("/__atbws");
        assert(s@ =~= self.spec_tunnel_url());
        s
    }

    /// Parses a workspace address of the form `[@]user/name`: the part
    /// before the first `/`, with one leading `@` removed, names the user;
    /// the following `/`-separated segment names the workspace. Fails when
    /// `s` holds no `/`.
    pub fn from_str(s: &str) -> (r: Result<Repl, ()>)
        ensures
            match r {
                Ok(repl) => spec_parse_repl(s@) == Some((repl.user@, repl.name@)),
                Err(_) => spec_parse_repl(s@) is None,
            },
    {
        assert(s@.skip(0) =~= s@);
        let p = match find_char_from(s, '/', 0) {
            None => {
                return Err(());
            },
            Some(p) => p,
        };
        let user = if p > 0 && s.get_char(0) == '@' {
            let u = s.substring_char(1, p);
            assert(u@ =~= spec_user_part(s@, p as int));
            u
        } else {
            let u = s.substring_char(0, p);
            assert(u@ =~= spec_user_part(s@, p as int));
            u
        };
        let len = s.unicode_len();
        let name = match find_char_from(s, '/', p + 1) {
            None => {
                let n = s.substring_char(p + 1, len);
                assert(n@ =~= spec_name_part(s@, p as int));
                n
            },
            Some(q) => {
                let n = s.substring_char(p + 1, q);
                assert(n@ =~= spec_name_part(s@, p as int));
                n
            },
        };
        Ok(Repl { user: user.to_owned(), name: name.to_owned() })
    }
}

/// Everything a client connection needs: the workspace address, the mode to
/// select, and the shared secret to present.
#[derive(Clone, Debug, PartialEq)]
pub struct ConnectionSettings {
    pub repl: Repl,
    pub connection: Connection,
    pub key: String,
}

/// True exactly when the server's answer accepts the presented secret.
pub fn is_auth_success(m: &Message) -> (r: bool)
    ensures
        r == (m@ == MessageV::Authentication(true)),
{
    matches!(m, Message::Authentication(true))
}

/// The message that carries one frontend input over the tunnel: data frames
/// for the selected mode, signal frames for the shell, `EndSession` for the
/// end.
pub open spec fn spec_input_message(conn: Connection, i: InputV) -> MessageV {
    match i {
        InputV::Data(d) => if conn == Connection::Shell {
            MessageV::TerminalInput(d)
        } else {
            MessageV::SocketInput(d)
        },
        InputV::Continue => MessageV::SignalContinue,
        InputV::Stop => MessageV::SignalStop,
        InputV::Winch(cols, rows) => MessageV::SignalWinch(cols, rows),
        InputV::End => MessageV::EndSession,
    }
}

/// Wraps one frontend input as the message to send for the given mode.
pub fn input_to_message(conn: Connection, i: Input) -> (m: Message)
    ensures
        m@ == spec_input_message(conn, i@),
{
    match i {
        Input::Data(d) => {
            if matches!(conn, Connection::Shell) {
                Message::TerminalInput(d)
            } else {
                Message::SocketInput(d)
            }
        },
        Input::Continue => Message::SignalContinue,
        Input::Stop => Message::SignalStop,
        Input::Winch(cols, rows) => Message::SignalWinch(cols, rows),
        Input::End => Message::EndSession,
    }
}

/// What the client does with one inbound message: the frontend event it
/// forwards, if any, and whether the session is over.
pub open spec fn spec_client_on_message(m: MessageV) -> (Option<OutputV>, bool) {
    match m {
        MessageV::ChildDeath(code) => (Some(OutputV::Died(code)), false),
        MessageV::Error => (None, true),
        MessageV::SocketClose => (Some(OutputV::Closed), false),
        MessageV::SocketOutput(d) => (Some(OutputV::Data(d)), false),
        MessageV::TerminalOutput(d) => (Some(OutputV::Data(d)), false),
        _ => (None, false),
    }
}

/// The view of an optional frontend output.
pub open spec fn spec_opt_output(o: Option<Output>) -> Option<OutputV> {
    match o {
        Some(out) => Some(out@),
        None => None,
    }
}

/// Handles one inbound message on the client: data and termination reports
/// become frontend events; `Error` ends the session; everything else is
/// dropped.
pub fn client_on_message(m: Message) -> (r: (Option<Output>, bool))
    ensures
        (spec_opt_output(r.0), r.1) == spec_client_on_message(m@),
{
    match m {
        Message::ChildDeath(code) => (Some(Output::Died(code)), false),
        Message::Error => (None, true),
        Message::SocketClose => (Some(Output::Closed), false),
        Message::SocketOutput(d) => (Some(Output::Data(d)), false),
        Message::TerminalOutput(d) => (Some(Output::Data(d)), false),
        _ => (None, false),
    }
}

/// What the port-forward frontend does with one tunnel output against its
/// local socket.
pub enum SocketAction {
    /// Write these bytes to the local socket.
    Write(Vec<u8>),
    /// Stop serving this local client.
    Close,
    /// Nothing; the event does not concern a port forward.
    Ignore,
}

/// Maps one tunnel output to the action on the local socket: data is
/// written through, `Closed` ends the local connection, a death report (which
/// only a shell session can produce) is ignored.
pub fn portfwd_on_output(o: Output) -> (r: SocketAction)
    ensures
        (o@ matches OutputV::Data(d) ==> r matches SocketAction::Write(w) && w@ == d),
        (o@ is Closed ==> r is Close),
        (o@ matches OutputV::Died(_) ==> r is Ignore),
{
    match o {
        Output::Data(d) => SocketAction::Write(d),
        Output::Closed => SocketAction::Close,
        Output::Died(_) => SocketAction::Ignore,
    }
}

/// The local port the port-forward frontend listens on when none is named.
pub const DEFAULT_LOCAL_PORT: u16 = 3325;

} // verus!
