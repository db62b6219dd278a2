//! Server state-machine behaviour: the handshake, authentication, mode
//! selection, active-session routing, and teardown.

use autobahn::message::{Connection, Message};
use autobahn::router::{ConnectionState, Input, Output, Router};

fn no_op(eff: &autobahn::router::StepEffect) -> bool {
    eff.reply.is_none() && eff.to_backend.is_none() && eff.start.is_none() && !eff.terminate
}

#[test]
fn handshake_advances_on_supported_version() {
    let mut r = Router::new(String::from("hunter2"));
    assert_eq!(r.state, ConnectionState::AwaitingHandshake);
    let eff = r.on_message(Message::Hello(0, 2));
    assert!(no_op(&eff));
    assert_eq!(r.state, ConnectionState::AwaitingAuthentication);
}

#[test]
fn version_mismatch_sends_error_and_ends() {
    let mut r = Router::new(String::from("hunter2"));
    let eff = r.on_message(Message::Hello(0, 1));
    assert_eq!(eff.reply, Some(Message::Error));
    assert!(eff.terminate);
    assert_eq!(r.state, ConnectionState::Ended);
    // No Authentication is ever sent afterwards.
    let eff = r.on_message(Message::Authenticate(String::from("hunter2")));
    assert!(no_op(&eff));
}

#[test]
fn wrong_password_keeps_awaiting_authentication() {
    let mut r = Router::new(String::from("hunter2"));
    r.on_message(Message::Hello(0, 2));
    let eff = r.on_message(Message::Authenticate(String::from("wrong")));
    assert_eq!(eff.reply, Some(Message::Authentication(false)));
    assert!(!eff.terminate);
    assert_eq!(r.state, ConnectionState::AwaitingAuthentication);
    // The client may try again on the same connection.
    let eff = r.on_message(Message::Authenticate(String::from("hunter2")));
    assert_eq!(eff.reply, Some(Message::Authentication(true)));
    assert_eq!(r.state, ConnectionState::AwaitingConnection);
}

#[test]
fn shell_session_routes_input_and_reports_death() {
    let mut r = Router::new(String::from("hunter2"));
    r.on_message(Message::Hello(0, 2));
    r.on_message(Message::Authenticate(String::from("hunter2")));
    let eff = r.on_message(Message::ConnectionType(Connection::Shell));
    assert_eq!(eff.start, Some(Connection::Shell));
    assert_eq!(r.state, ConnectionState::AwaitingConnection);
    let eff = r.backend_started(Connection::Shell, true);
    assert!(no_op(&eff));
    assert_eq!(r.state, ConnectionState::ShellActive);

    let eff = r.on_message(Message::TerminalInput(b"exit\n".to_vec()));
    assert_eq!(eff.to_backend, Some(Input::Data(b"exit\n".to_vec())));
    let eff = r.on_message(Message::SignalStop);
    assert_eq!(eff.to_backend, Some(Input::Stop));
    let eff = r.on_message(Message::SignalContinue);
    assert_eq!(eff.to_backend, Some(Input::Continue));
    let eff = r.on_message(Message::SignalWinch(120, 40));
    assert_eq!(eff.to_backend, Some(Input::Winch(120, 40)));

    let eff = r.on_backend_output(Output::Data(b"$ ".to_vec()));
    assert_eq!(eff.reply, Some(Message::TerminalOutput(b"$ ".to_vec())));
    assert!(!eff.terminate);

    let eff = r.on_backend_output(Output::Died(0));
    assert_eq!(eff.reply, Some(Message::ChildDeath(0)));
    assert!(eff.terminate);
    assert_eq!(r.state, ConnectionState::Ended);

    // A second death report is never forwarded: one termination event only.
    let eff = r.on_backend_output(Output::Died(0));
    assert!(no_op(&eff));
}

#[test]
fn portfwd_session_routes_data_and_reports_close() {
    let mut r = Router::new(String::from("hunter2"));
    r.on_message(Message::Hello(0, 2));
    r.on_message(Message::Authenticate(String::from("hunter2")));
    let eff = r.on_message(Message::ConnectionType(Connection::Port(8080)));
    assert_eq!(eff.start, Some(Connection::Port(8080)));
    r.backend_started(Connection::Port(8080), true);
    assert_eq!(r.state, ConnectionState::SocketActive);

    let eff = r.on_message(Message::SocketInput(b"ping".to_vec()));
    assert_eq!(eff.to_backend, Some(Input::Data(b"ping".to_vec())));
    let eff = r.on_backend_output(Output::Data(b"ping".to_vec()));
    assert_eq!(eff.reply, Some(Message::SocketOutput(b"ping".to_vec())));

    let eff = r.on_backend_output(Output::Closed);
    assert_eq!(eff.reply, Some(Message::SocketClose));
    assert!(eff.terminate);
    assert_eq!(r.state, ConnectionState::Ended);
    let eff = r.on_backend_output(Output::Closed);
    assert!(no_op(&eff));
}

#[test]
fn off_state_messages_are_dropped() {
    let mut r = Router::new(String::from("hunter2"));
    // Terminal input before any handshake.
    let eff = r.on_message(Message::TerminalInput(b"ls\n".to_vec()));
    assert!(no_op(&eff));
    assert_eq!(r.state, ConnectionState::AwaitingHandshake);
    // Authentication before the version announcement.
    let eff = r.on_message(Message::Authenticate(String::from("hunter2")));
    assert!(no_op(&eff));
    assert_eq!(r.state, ConnectionState::AwaitingHandshake);

    // Socket input during a shell session.
    r.on_message(Message::Hello(0, 2));
    r.on_message(Message::Authenticate(String::from("hunter2")));
    r.on_message(Message::ConnectionType(Connection::Shell));
    r.backend_started(Connection::Shell, true);
    let eff = r.on_message(Message::SocketInput(b"x".to_vec()));
    assert!(no_op(&eff));
    assert_eq!(r.state, ConnectionState::ShellActive);
    // Peer-bound kinds are dropped wherever they arrive.
    let eff = r.on_message(Message::ChildDeath(1));
    assert!(no_op(&eff));
}

#[test]
fn end_session_terminates_from_any_state() {
    let mut r = Router::new(String::from("k"));
    let eff = r.on_message(Message::EndSession);
    assert!(eff.to_backend.is_none());
    assert!(eff.terminate);
    assert_eq!(r.state, ConnectionState::Ended);

    let mut r = Router::new(String::from("k"));
    r.on_message(Message::Hello(0, 2));
    r.on_message(Message::Authenticate(String::from("k")));
    r.on_message(Message::ConnectionType(Connection::Shell));
    r.backend_started(Connection::Shell, true);
    let eff = r.on_message(Message::EndSession);
    assert_eq!(eff.to_backend, Some(Input::End));
    assert!(eff.terminate);
}

#[test]
fn backend_start_failure_for_port_keeps_connection() {
    let mut r = Router::new(String::from("k"));
    r.on_message(Message::Hello(0, 2));
    r.on_message(Message::Authenticate(String::from("k")));
    r.on_message(Message::ConnectionType(Connection::Port(81)));
    let eff = r.backend_started(Connection::Port(81), false);
    assert_eq!(eff.reply, Some(Message::Error));
    assert!(!eff.terminate);
    assert_eq!(r.state, ConnectionState::AwaitingConnection);
    // A second selection may still succeed.
    let eff = r.on_message(Message::ConnectionType(Connection::Shell));
    assert_eq!(eff.start, Some(Connection::Shell));
}

#[test]
fn backend_start_failure_for_shell_ends_session() {
    let mut r = Router::new(String::from("k"));
    r.on_message(Message::Hello(0, 2));
    r.on_message(Message::Authenticate(String::from("k")));
    r.on_message(Message::ConnectionType(Connection::Shell));
    let eff = r.backend_started(Connection::Shell, false);
    assert_eq!(eff.reply, Some(Message::Error));
    assert!(eff.terminate);
    assert_eq!(r.state, ConnectionState::Ended);
}

#[test]
fn transport_close_ends_session() {
    let mut r = Router::new(String::from("k"));
    r.on_message(Message::Hello(0, 2));
    r.on_close();
    assert_eq!(r.state, ConnectionState::Ended);
    let eff = r.on_message(Message::Authenticate(String::from("k")));
    assert!(no_op(&eff));
}
