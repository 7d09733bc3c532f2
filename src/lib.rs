//! A client for the remote-control protocol of the iTerm2 terminal emulator.
//!
//! The library holds the protocol's logic: credential headers, the upgrade
//! handshake's decisions, the binary message schema and its codec, and the
//! state machine of a command channel. The transport itself (the Unix domain
//! socket and the WebSocket framing) is driven by the caller, which hands the
//! library plain values and carries out the actions it returns.
pub mod auth;
pub mod codec;
pub mod connection;
pub mod error;
pub mod handshake;
pub mod schema;
pub mod text;
pub mod wire;

pub use auth::{auth_string_from_output, Authenticator};
pub use codec::{decode_response, encode_command};
pub use connection::{
    create_tab_reply, create_tab_request, create_window_reply, create_window_request,
    list_sessions_reply, list_sessions_request, send_text_reply, send_text_request,
    windows_reply, CommandChannel, CommandKind, Inbound,
};
pub use error::{Error, ErrorKind, Result};
pub use handshake::{
    handshake_headers, handshake_result, missing_endpoint_error, ConnectAction, ConnectEvent,
    ConnectPhase, Connector,
};
pub use schema::{
    Command, CreateTabResponse, ListSessionsResponse, Response, SendTextResponse, SessionSummary,
    Tab, Window,
};
