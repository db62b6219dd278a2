//! Core logic of a websocket tunnel that connects a terminal client to a
//! sandboxed workspace: the framed binary message codec, the per-connection
//! handshake and routing state machines of both peers, the decision logic of
//! the shell and port-forward backends, the client menu overlay, the
//! front-door path router, and the socket-table parsing used for port
//! auto-detection.

pub mod cbor;
pub mod client;
pub mod config;
pub mod frontend;
pub mod message;
pub mod netstat;
pub mod proxy;
pub mod router;
pub mod scan;
pub mod shell;
