//! Client-side behaviour: workspace addresses, the handshake check, and the
//! mapping between tunnel messages and frontend events.

use autobahn::client::{
    client_on_message, input_to_message, is_auth_success, portfwd_on_output, Repl, SocketAction,
    DEFAULT_LOCAL_PORT,
};
use autobahn::message::{Connection, Message};
use autobahn::router::{Input, Output};

#[test]
fn repl_parses_user_and_name() {
    let r = Repl::from_str("user/name").unwrap();
    assert_eq!(r.user, "user");
    assert_eq!(r.name, "name");
}

#[test]
fn repl_strips_leading_at() {
    let r = Repl::from_str("@user/name").unwrap();
    assert_eq!(r.user, "user");
    assert_eq!(r.name, "name");
}

#[test]
fn repl_takes_second_segment_as_name() {
    let r = Repl::from_str("a/b/c").unwrap();
    assert_eq!(r.user, "a");
    assert_eq!(r.name, "b");
}

#[test]
fn repl_without_slash_is_rejected() {
    assert_eq!(Repl::from_str("justauser"), Err(()));
    assert_eq!(Repl::from_str(""), Err(()));
}

#[test]
fn domain_and_tunnel_url() {
    let r = Repl { name: String::from("name"), user: String::from("user") };
    assert_eq!(r.domain(), "name.user.repl.co");
    assert_eq!(r.tunnel_url(), "wss://name.user.repl.co/__atbws");
}

#[test]
fn auth_success_check() {
    assert!(is_auth_success(&Message::Authentication(true)));
    assert!(!is_auth_success(&Message::Authentication(false)));
    assert!(!is_auth_success(&Message::Hello(0, 2)));
    assert!(!is_auth_success(&Message::Error));
}

#[test]
fn inputs_become_messages_for_the_mode() {
    assert_eq!(
        input_to_message(Connection::Shell, Input::Data(b"ls\n".to_vec())),
        Message::TerminalInput(b"ls\n".to_vec())
    );
    assert_eq!(
        input_to_message(Connection::Port(8080), Input::Data(b"ping".to_vec())),
        Message::SocketInput(b"ping".to_vec())
    );
    assert_eq!(input_to_message(Connection::Shell, Input::Stop), Message::SignalStop);
    assert_eq!(input_to_message(Connection::Shell, Input::Continue), Message::SignalContinue);
    assert_eq!(
        input_to_message(Connection::Shell, Input::Winch(120, 40)),
        Message::SignalWinch(120, 40)
    );
    assert_eq!(input_to_message(Connection::Port(80), Input::End), Message::EndSession);
}

#[test]
fn inbound_messages_become_frontend_events() {
    assert_eq!(client_on_message(Message::ChildDeath(3)), (Some(Output::Died(3)), false));
    assert_eq!(client_on_message(Message::Error), (None, true));
    assert_eq!(client_on_message(Message::SocketClose), (Some(Output::Closed), false));
    assert_eq!(
        client_on_message(Message::TerminalOutput(b"$ ".to_vec())),
        (Some(Output::Data(b"$ ".to_vec())), false)
    );
    assert_eq!(
        client_on_message(Message::SocketOutput(vec![1])),
        (Some(Output::Data(vec![1])), false)
    );
    // Client-bound traffic never carries these kinds; they are dropped.
    assert_eq!(client_on_message(Message::Hello(0, 2)), (None, false));
    assert_eq!(client_on_message(Message::SignalStop), (None, false));
}

#[test]
fn portfwd_frontend_socket_actions() {
    assert!(matches!(
        portfwd_on_output(Output::Data(vec![1, 2])),
        SocketAction::Write(w) if w == vec![1, 2]
    ));
    assert!(matches!(portfwd_on_output(Output::Closed), SocketAction::Close));
    assert!(matches!(portfwd_on_output(Output::Died(0)), SocketAction::Ignore));
}

#[test]
fn default_local_port() {
    assert_eq!(DEFAULT_LOCAL_PORT, 3325);
}
