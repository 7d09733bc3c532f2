//! The decisions of `connect`: the endpoint check, the upgrade request's
//! headers, and the judgement of the handshake's answer.
use vstd::prelude::*;

use crate::auth::{cookie_header_name, key_header_name, Authenticator, Credential};
use crate::error::{is_connection_error, Error};
use crate::text::{contains, decimal, decimal_string, lemma_contains_middle};

verus! {

/// The status of a successful upgrade: switching protocols.
pub const SWITCHING_PROTOCOLS: u16 = 101;

/// The reason phrase that the HTTP registry gives a status code.
pub uninterp spec fn canonical_reason_of(status: u16) -> Option<Seq<char>>;

/// Relies on `http::StatusCode::from_u16` and `StatusCode::canonical_reason`:
/// the registered reason phrase of a status code, or none for a code that
/// has none; codes outside 100..=999 are no status codes and have none.
#[verifier::external_body]
fn reason_phrase(status: u16) -> (r: Option<String>)
    ensures
        match r {
            Some(s) => canonical_reason_of(status) == Some(s@),
            None => canonical_reason_of(status) is None,
        },
        !(100 <= status <= 999) ==> r is None,
{
    match tokio_tungstenite::tungstenite::http::StatusCode::from_u16(status) {
        Ok(code) => code.canonical_reason().map(String::from),
        Err(_) => None,
    }
}

/// The reason phrase shown for a status: the registered one, or "Unknown reason".
pub open spec fn reason_text(status: u16) -> Seq<char> {
    match canonical_reason_of(status) {
        Some(r) => r,
        None => "Unknown reason"@,
    }
}

/// The message of a rejected handshake: the status, its reason and what to
/// enable in the application.
pub open spec fn rejection_message(status: u16) -> Seq<char> {
    "WebSocket handshake failed with status "@ + decimal(status as nat) + ": "@ + reason_text(status)
        + ". Make sure iTerm2 has 'Allow all apps to connect' enabled in Settings > General > Magic, or run this script from iTerm2."@
}

/// The message of a missing endpoint: the path, and that the application
/// must be running with its API server enabled.
pub open spec fn missing_endpoint_message(path: Seq<char>) -> Seq<char> {
    "iTerm2 Unix domain socket not found at: "@ + path
        + ". iTerm2 must be running with API server enabled."@
}

/// The headers of the upgrade request that every connection sends.
pub open spec fn fixed_headers() -> Seq<(Seq<char>, Seq<char>)> {
    seq![
        ("Host"@, "localhost"@),
        ("Upgrade"@, "websocket"@),
        ("Connection"@, "Upgrade"@),
        ("Sec-WebSocket-Key"@, "dGhlIHNhbXBsZSBub25jZQ=="@),
        ("Sec-WebSocket-Version"@, "13"@),
        ("Sec-WebSocket-Protocol"@, "api.iterm2.com"@),
        ("Origin"@, "ws://localhost/"@),
        ("x-iterm2-library-version"@, "rust 1.0"@),
    ]
}

/// The headers of the upgrade request: the fixed ones, then the credential's
/// header when there is a credential.
pub open spec fn request_headers(c: Option<Credential>) -> Seq<(Seq<char>, Seq<char>)> {
    match c {
        Some(Credential::Cookie(v)) => fixed_headers().push((cookie_header_name(), v)),
        Some(Credential::Key(v)) => fixed_headers().push((key_header_name(), v)),
        None => fixed_headers(),
    }
}

pub open spec fn headers_view(h: Seq<(String, String)>) -> Seq<(Seq<char>, Seq<char>)> {
    h.map_values(|p: (String, String)| (p.0@, p.1@))
}

fn push_header(h: &mut Vec<(String, String)>, name: &str, value: &str)
    ensures
        headers_view(final(h)@) == headers_view(old(h)@).push((name@, value@)),
{
    h.push((String::from_str(name), String::from_str(value)));
    assert(headers_view(h@) =~= headers_view(old(h)@).push((name@, value@)));
}

/// The headers of the upgrade request, in order, as name and value.
pub fn handshake_headers(auth: &Authenticator) -> (r: Vec<(String, String)>)
    ensures
        headers_view(r@) == request_headers(auth.credential()),
{
    let mut h: Vec<(String, String)> = Vec::new();
    push_header(&mut h, "Host", "localhost");
    push_header(&mut h, "Upgrade", "websocket");
    push_header(&mut h, "Connection", "Upgrade");
    push_header(&mut h, "Sec-WebSocket-Key", "dGhlIHNhbXBsZSBub25jZQ==");
    push_header(&mut h, "Sec-WebSocket-Version", "13");
    push_header(&mut h, "Sec-WebSocket-Protocol", "api.iterm2.com");
    push_header(&mut h, "Origin", "ws://localhost/");
    push_header(&mut h, "x-iterm2-library-version", "rust 1.0");
    assert(headers_view(h@) =~= fixed_headers());
    match auth.auth_header_field() {
        Some((name, value)) => {
            push_header(&mut h, name.as_str(), value.as_str());
        },
        None => {},
    }
    h
}

/// The error of a missing endpoint.
pub fn missing_endpoint_error(path: &str) -> (r: Error)
    ensures
        is_connection_error(r, missing_endpoint_message(path@)),
{
    let mut m = String::from_str("iTerm2 Unix domain socket not found at: ");
    m.append(path);
    m.append(". iTerm2 must be running with API server enabled.");
    Error::Connection(m)
}

/// Judges the status of the handshake's answer: 101 succeeds, anything else
/// is a connection error that names the status.
pub fn handshake_result(status: u16) -> (r: Result<(), Error>)
    ensures
        status == SWITCHING_PROTOCOLS ==> r is Ok,
        status != SWITCHING_PROTOCOLS ==> (r matches Err(e) && is_connection_error(
            e,
            rejection_message(status),
        )),
{
    if status == SWITCHING_PROTOCOLS {
        return Ok(());
    }
    let mut m = String::from_str("WebSocket handshake failed with status ");
    let code = decimal_string(status as u64);
    m.append(code.as_str());
    m.append(": ");
    match reason_phrase(status) {
        Some(reason) => m.append(reason.as_str()),
        None => m.append("Unknown reason"),
    }
    m.append(
        ". Make sure iTerm2 has 'Allow all apps to connect' enabled in Settings > General > Magic, or run this script from iTerm2.",
    );
    Err(Error::Connection(m))
}

/// Every handshake answer other than 101 is rejected with a message that
/// holds the exact status code.
pub proof fn lemma_rejection_names_status(status: u16)
    requires
        status != SWITCHING_PROTOCOLS,
    ensures
        contains(rejection_message(status), decimal(status as nat)),
{
    let tail = ": "@ + reason_text(status)
        + ". Make sure iTerm2 has 'Allow all apps to connect' enabled in Settings > General > Magic, or run this script from iTerm2."@;
    lemma_contains_middle("WebSocket handshake failed with status "@, decimal(status as nat), tail);
    assert(rejection_message(status) =~= "WebSocket handshake failed with status "@ + decimal(
        status as nat,
    ) + tail);
}

/// Where an attempt to connect stands.
#[derive(Clone, Copy, PartialEq, Eq, Structural, Debug)]
pub enum ConnectPhase {
    /// The endpoint's existence is to be checked.
    CheckingEndpoint,
    /// The socket is being opened.
    Opening,
    /// The upgrade request has been sent; its answer is awaited.
    Upgrading,
    /// The channel is ready.
    Connected,
    /// The attempt failed; it is over.
    Failed,
}

/// What the caller observed while carrying out the last action.
#[derive(Debug)]
pub enum ConnectEvent {
    /// Whether the endpoint path exists.
    EndpointChecked(bool),
    SocketOpened,
    /// Opening the socket failed, with the transport's diagnostic.
    SocketFailed(String),
    /// The handshake was answered with this status.
    HandshakeAnswered(u16),
    /// The handshake could not be carried out, with the transport's diagnostic.
    HandshakeFailed(String),
}

/// What the caller is to do next.
#[derive(Debug)]
pub enum ConnectAction {
    /// Open the socket at the endpoint.
    OpenSocket,
    /// Send the upgrade request with these headers and read its answer.
    SendHandshake(Vec<(String, String)>),
    /// The handshake succeeded: the stream is a framed channel.
    Ready,
    /// Give up with this error.
    Fail(Error),
}

/// One attempt to connect to the endpoint at `path`, presenting the
/// credential of `auth`. A single attempt: no retries.
pub struct Connector {
    phase: ConnectPhase,
    path: String,
    auth: Authenticator,
}

/// The error when the socket cannot be opened.
pub open spec fn socket_failure_message(detail: Seq<char>) -> Seq<char> {
    "Failed to connect to Unix domain socket: "@ + detail
}

/// The error when the handshake cannot be carried out.
pub open spec fn handshake_failure_message(detail: Seq<char>) -> Seq<char> {
    "WebSocket handshake failed: "@ + detail
}

impl Connector {
    pub closed spec fn phase_spec(&self) -> ConnectPhase {
        self.phase
    }

    pub closed spec fn path_spec(&self) -> Seq<char> {
        self.path@
    }

    pub closed spec fn credential_spec(&self) -> Option<Credential> {
        self.auth.credential()
    }

    pub fn new(path: &str, auth: Authenticator) -> (r: Self)
        ensures
            r.phase_spec() == ConnectPhase::CheckingEndpoint,
            r.path_spec() == path@,
            r.credential_spec() == auth.credential(),
    {
        Connector { phase: ConnectPhase::CheckingEndpoint, path: String::from_str(path), auth }
    }

    pub fn phase(&self) -> (r: ConnectPhase)
        ensures
            r == self.phase_spec(),
    {
        self.phase
    }

    /// Takes what the caller observed and says what to do next.
    ///
    /// A missing endpoint fails at once, before anything is written; an
    /// answer other than 101 fails naming the status. Once failed or
    /// connected, the attempt takes no further event: every later step
    /// fails and nothing is sent.
    pub fn step(&mut self, event: ConnectEvent) -> (r: ConnectAction)
        ensures
            final(self).path_spec() == old(self).path_spec(),
            final(self).credential_spec() == old(self).credential_spec(),
            match (old(self).phase_spec(), event) {
                (ConnectPhase::CheckingEndpoint, ConnectEvent::EndpointChecked(exists)) => if exists {
                    r is OpenSocket && final(self).phase_spec() == ConnectPhase::Opening
                } else {
                    (r matches ConnectAction::Fail(e) && is_connection_error(
                        e,
                        missing_endpoint_message(old(self).path_spec()),
                    )) && final(self).phase_spec() == ConnectPhase::Failed
                },
                (ConnectPhase::Opening, ConnectEvent::SocketOpened) => (r matches ConnectAction::SendHandshake(h)
                    && headers_view(h@) == request_headers(old(self).credential_spec()))
                    && final(self).phase_spec() == ConnectPhase::Upgrading,
                (ConnectPhase::Opening, ConnectEvent::SocketFailed(d)) => (r matches ConnectAction::Fail(e)
                    && is_connection_error(e, socket_failure_message(d@))) && final(self).phase_spec()
                    == ConnectPhase::Failed,
                (ConnectPhase::Upgrading, ConnectEvent::HandshakeAnswered(status)) => if status
                    == SWITCHING_PROTOCOLS {
                    r is Ready && final(self).phase_spec() == ConnectPhase::Connected
                } else {
                    (r matches ConnectAction::Fail(e) && is_connection_error(
                        e,
                        rejection_message(status),
                    )) && final(self).phase_spec() == ConnectPhase::Failed
                },
                (ConnectPhase::Upgrading, ConnectEvent::HandshakeFailed(d)) => (r matches ConnectAction::Fail(e)
                    && is_connection_error(e, handshake_failure_message(d@)))
                    && final(self).phase_spec() == ConnectPhase::Failed,
                (ConnectPhase::Connected, _) => (r matches ConnectAction::Fail(e) && e is Protocol)
                    && final(self).phase_spec() == ConnectPhase::Connected,
                _ => (r matches ConnectAction::Fail(e) && e is Protocol) && final(self).phase_spec()
                    == ConnectPhase::Failed,
            },
    {
        match (self.phase, event) {
            (ConnectPhase::CheckingEndpoint, ConnectEvent::EndpointChecked(exists)) => {
                if exists {
                    self.phase = ConnectPhase::Opening;
                    ConnectAction::OpenSocket
                } else {
                    self.phase = ConnectPhase::Failed;
                    ConnectAction::Fail(missing_endpoint_error(self.path.as_str()))
                }
            },
            (ConnectPhase::Opening, ConnectEvent::SocketOpened) => {
                self.phase = ConnectPhase::Upgrading;
                ConnectAction::SendHandshake(handshake_headers(&self.auth))
            },
            (ConnectPhase::Opening, ConnectEvent::SocketFailed(d)) => {
                self.phase = ConnectPhase::Failed;
                let mut m = String::from_str("Failed to connect to Unix domain socket: ");
                m.append(d.as_str());
                ConnectAction::Fail(Error::Connection(m))
            },
            (ConnectPhase::Upgrading, ConnectEvent::HandshakeAnswered(status)) => {
                match handshake_result(status) {
                    Ok(()) => {
                        self.phase = ConnectPhase::Connected;
                        ConnectAction::Ready
                    },
                    Err(e) => {
                        self.phase = ConnectPhase::Failed;
                        ConnectAction::Fail(e)
                    },
                }
            },
            (ConnectPhase::Upgrading, ConnectEvent::HandshakeFailed(d)) => {
                self.phase = ConnectPhase::Failed;
                let mut m = String::from_str("WebSocket handshake failed: ");
                m.append(d.as_str());
                ConnectAction::Fail(Error::Connection(m))
            },
            (ConnectPhase::Connected, _) => {
                ConnectAction::Fail(
                    Error::Protocol(String::from_str("the connection is already established")),
                )
            },
            _ => {
                self.phase = ConnectPhase::Failed;
                ConnectAction::Fail(
                    Error::Protocol(String::from_str("unexpected event while connecting")),
                )
            },
        }
    }
}

} // verus!
