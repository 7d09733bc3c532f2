//! The command channel: the requests behind each operation, the reading of
//! their replies, and the open/closed state machine of one channel.
use vstd::prelude::*;

use crate::codec::{command_bytes, decode_response, encode_command, response_of};
use crate::error::{is_connection_error, Error, ErrorKind};
use crate::schema::{
    Command, CommandView, CreateTabView, ListSessionsView, Response, ResponseView,
    SessionSummary, Window, WindowView, STATUS_OK,
};
use crate::text::{contains, decimal, decimal_string, lemma_contains_middle};

verus! {

/// The message of a frame that is not binary, given its description.
pub open spec fn unexpected_frame_message(description: Seq<char>) -> Seq<char> {
    "Unexpected message type: "@ + description
}

/// The message of every failure on a closed channel.
pub open spec fn closed_message() -> Seq<char> {
    "connection closed"@
}

/// The name of a create-tab status code; an unknown code by its number.
pub open spec fn create_tab_status_name(code: u64) -> Seq<char> {
    if code == 0 {
        "OK"@
    } else if code == 1 {
        "INVALID_PROFILE_NAME"@
    } else if code == 2 {
        "INVALID_WINDOW_ID"@
    } else if code == 3 {
        "INVALID_TAB_INDEX"@
    } else if code == 4 {
        "MISSING_SUBSTITUTION"@
    } else {
        decimal(code as nat)
    }
}

/// The name of a send-text status code; an unknown code by its number.
pub open spec fn send_text_status_name(code: u64) -> Seq<char> {
    if code == 0 {
        "OK"@
    } else if code == 1 {
        "SESSION_NOT_FOUND"@
    } else {
        decimal(code as nat)
    }
}

/// The name of a create-tab status code.
pub fn create_tab_status_text(code: u64) -> (r: String)
    ensures
        r@ == create_tab_status_name(code),
{
    match code {
        0 => String::from_str("OK"),
        1 => String::from_str("INVALID_PROFILE_NAME"),
        2 => String::from_str("INVALID_WINDOW_ID"),
        3 => String::from_str("INVALID_TAB_INDEX"),
        4 => String::from_str("MISSING_SUBSTITUTION"),
        _ => decimal_string(code),
    }
}

/// The name of a send-text status code.
pub fn send_text_status_text(code: u64) -> (r: String)
    ensures
        r@ == send_text_status_name(code),
{
    match code {
        0 => String::from_str("OK"),
        1 => String::from_str("SESSION_NOT_FOUND"),
        _ => decimal_string(code),
    }
}

/// What an operation yields, as a value or as a failure of some kind with
/// its message.
pub enum Outcome<T> {
    Done(T),
    Failed(ErrorKind, Seq<char>),
}

pub open spec fn failure<T>(e: Error) -> Outcome<T> {
    Outcome::Failed(e.kind(), e.text())
}

/// The outcome of a create-tab reply for the operation called `action`.
pub open spec fn session_outcome(resp: ResponseView, action: Seq<char>) -> Outcome<Seq<char>> {
    match resp {
        ResponseView::CreateTab(c) => if c.status == STATUS_OK {
            Outcome::Done(c.session_id)
        } else {
            Outcome::Failed(ErrorKind::Api, action + " failed: "@ + create_tab_status_name(c.status))
        },
        _ => Outcome::Failed(ErrorKind::Protocol, "expected create-tab response"@),
    }
}

/// The outcome of a reply to `create_window`.
pub open spec fn create_window_outcome(resp: ResponseView) -> Outcome<Seq<char>> {
    session_outcome(resp, "Create window"@)
}

/// The outcome of a reply to `create_tab`.
pub open spec fn create_tab_outcome(resp: ResponseView) -> Outcome<Seq<char>> {
    session_outcome(resp, "Create tab"@)
}

/// The outcome of a reply to `send_text`.
pub open spec fn send_text_outcome(resp: ResponseView) -> Outcome<()> {
    match resp {
        ResponseView::SendText(status) => if status == STATUS_OK {
            Outcome::Done(())
        } else {
            Outcome::Failed(ErrorKind::Api, "Send text failed: "@ + send_text_status_name(status))
        },
        _ => Outcome::Failed(ErrorKind::Protocol, "expected send-text response"@),
    }
}

/// The outcome of a reply to `list_sessions`: the buried sessions, as they came.
pub open spec fn list_sessions_outcome(resp: ResponseView) -> Outcome<Seq<Seq<char>>> {
    match resp {
        ResponseView::ListSessions(l) => Outcome::Done(l.buried_sessions),
        _ => Outcome::Failed(ErrorKind::Protocol, "expected list-sessions response"@),
    }
}

/// The outcome of a reply to `get_windows`: the windows, as they came.
pub open spec fn windows_outcome(resp: ResponseView) -> Outcome<Seq<WindowView>> {
    match resp {
        ResponseView::ListSessions(l) => Outcome::Done(l.windows),
        _ => Outcome::Failed(ErrorKind::Protocol, "expected list-sessions response"@),
    }
}

/// The request behind `create_window`: a create-tab request without a window.
pub fn create_window_request(profile_name: Option<&str>) -> (r: Command)
    ensures
        r@ == (CommandView::CreateTab {
            profile_name: match profile_name {
                Some(p) => Some(p@),
                None => None,
            },
            window_id: None,
        }),
{
    let profile_name = match profile_name {
        Some(p) => Some(String::from_str(p)),
        None => None,
    };
    Command::CreateTab { profile_name, window_id: None }
}

/// The request behind `create_tab`: a create-tab request in the given window.
pub fn create_tab_request(profile_name: Option<&str>, window_id: &str) -> (r: Command)
    ensures
        r@ == (CommandView::CreateTab {
            profile_name: match profile_name {
                Some(p) => Some(p@),
                None => None,
            },
            window_id: Some(window_id@),
        }),
{
    let profile_name = match profile_name {
        Some(p) => Some(String::from_str(p)),
        None => None,
    };
    Command::CreateTab { profile_name, window_id: Some(String::from_str(window_id)) }
}

/// The request behind `send_text`: the text goes as it is, with no line end added.
pub fn send_text_request(session_id: &str, text: &str) -> (r: Command)
    ensures
        r@ == (CommandView::SendText { session_id: session_id@, text: text@ }),
{
    Command::SendText { session_id: String::from_str(session_id), text: String::from_str(text) }
}

/// The request behind `list_sessions` and `get_windows`.
pub fn list_sessions_request() -> (r: Command)
    ensures
        r@ == CommandView::ListSessions,
{
    Command::ListSessions
}

fn session_reply(resp: Response, action: &str) -> (r: Result<SessionSummary, Error>)
    ensures
        match r {
            Ok(s) => Outcome::Done(s@),
            Err(e) => failure(e),
        } == session_outcome(resp@, action@),
{
    match resp {
        Response::CreateTab(c) => {
            if c.status == STATUS_OK {
                Ok(SessionSummary { unique_identifier: c.session_id })
            } else {
                let mut m = String::from_str(action);
                m.append(" failed: ");
                let name = create_tab_status_text(c.status);
                m.append(name.as_str());
                Err(Error::Api(m))
            }
        },
        _ => Err(Error::Protocol(String::from_str("expected create-tab response"))),
    }
}

/// Reads the reply to `create_window`.
pub fn create_window_reply(resp: Response) -> (r: Result<SessionSummary, Error>)
    ensures
        match r {
            Ok(s) => Outcome::Done(s@),
            Err(e) => failure(e),
        } == create_window_outcome(resp@),
{
    session_reply(resp, "Create window")
}

/// Reads the reply to `create_tab`.
pub fn create_tab_reply(resp: Response) -> (r: Result<SessionSummary, Error>)
    ensures
        match r {
            Ok(s) => Outcome::Done(s@),
            Err(e) => failure(e),
        } == create_tab_outcome(resp@),
{
    session_reply(resp, "Create tab")
}

/// Reads the reply to `send_text`.
pub fn send_text_reply(resp: Response) -> (r: Result<(), Error>)
    ensures
        match r {
            Ok(_) => Outcome::Done(()),
            Err(e) => failure(e),
        } == send_text_outcome(resp@),
{
    match resp {
        Response::SendText(s) => {
            if s.status == STATUS_OK {
                Ok(())
            } else {
                let mut m = String::from_str("Send text failed: ");
                let name = send_text_status_text(s.status);
                m.append(name.as_str());
                Err(Error::Api(m))
            }
        },
        _ => Err(Error::Protocol(String::from_str("expected send-text response"))),
    }
}

/// Reads the reply to `list_sessions`: the buried sessions only; sessions
/// inside windows are reached through `get_windows`.
pub fn list_sessions_reply(resp: Response) -> (r: Result<Vec<SessionSummary>, Error>)
    ensures
        match r {
            Ok(v) => Outcome::Done(v@.map_values(|s: SessionSummary| s@)),
            Err(e) => failure(e),
        } == list_sessions_outcome(resp@),
{
    match resp {
        Response::ListSessions(l) => Ok(l.buried_sessions),
        _ => Err(Error::Protocol(String::from_str("expected list-sessions response"))),
    }
}

/// Reads the reply to `get_windows`.
pub fn windows_reply(resp: Response) -> (r: Result<Vec<Window>, Error>)
    ensures
        match r {
            Ok(v) => Outcome::Done(v@.map_values(|w: Window| w@)),
            Err(e) => failure(e),
        } == windows_outcome(resp@),
{
    match resp {
        Response::ListSessions(l) => Ok(l.windows),
        _ => Err(Error::Protocol(String::from_str("expected list-sessions response"))),
    }
}

/// A reply of the kind that matches the command, with status OK, gives the
/// operation's value: the new session for the create operations, nothing for
/// send-text, and the lists exactly as received for the list operations.
pub proof fn lemma_ok_reply_gives_value(c: CreateTabView, status: u64, l: ListSessionsView)
    requires
        c.status == STATUS_OK,
        status == STATUS_OK,
    ensures
        create_window_outcome(ResponseView::CreateTab(c)) == Outcome::Done(c.session_id),
        create_tab_outcome(ResponseView::CreateTab(c)) == Outcome::Done(c.session_id),
        send_text_outcome(ResponseView::SendText(status)) == Outcome::Done(()),
        list_sessions_outcome(ResponseView::ListSessions(l)) == Outcome::Done(l.buried_sessions),
        windows_outcome(ResponseView::ListSessions(l)) == Outcome::Done(l.windows),
{
}

/// A reply of the matching kind whose status is not OK fails as an API error
/// whose message names that status.
pub proof fn lemma_rejected_reply_names_status(c: CreateTabView, status: u64)
    requires
        c.status != STATUS_OK,
        status != STATUS_OK,
    ensures
        create_window_outcome(ResponseView::CreateTab(c)) matches Outcome::Failed(k, m) && k
            == ErrorKind::Api && contains(m, create_tab_status_name(c.status)),
        create_tab_outcome(ResponseView::CreateTab(c)) matches Outcome::Failed(k, m) && k
            == ErrorKind::Api && contains(m, create_tab_status_name(c.status)),
        send_text_outcome(ResponseView::SendText(status)) matches Outcome::Failed(k, m) && k
            == ErrorKind::Api && contains(m, send_text_status_name(status)),
{
    lemma_contains_middle(
        "Create window"@ + " failed: "@,
        create_tab_status_name(c.status),
        Seq::empty(),
    );
    assert("Create window"@ + " failed: "@ + create_tab_status_name(c.status) + Seq::empty()
        =~= "Create window"@ + " failed: "@ + create_tab_status_name(c.status));
    lemma_contains_middle(
        "Create tab"@ + " failed: "@,
        create_tab_status_name(c.status),
        Seq::empty(),
    );
    assert("Create tab"@ + " failed: "@ + create_tab_status_name(c.status) + Seq::empty()
        =~= "Create tab"@ + " failed: "@ + create_tab_status_name(c.status));
    lemma_contains_middle("Send text failed: "@, send_text_status_name(status), Seq::empty());
    assert("Send text failed: "@ + send_text_status_name(status) + Seq::empty()
        =~= "Send text failed: "@ + send_text_status_name(status));
}

/// A reply of another kind than the command's is a protocol error, never a
/// value.
pub proof fn lemma_mismatched_reply_is_protocol_error(resp: ResponseView)
    ensures
        !(resp is CreateTab) ==> create_window_outcome(resp) == Outcome::<Seq<char>>::Failed(
            ErrorKind::Protocol,
            "expected create-tab response"@,
        ) && create_tab_outcome(resp) == Outcome::<Seq<char>>::Failed(
            ErrorKind::Protocol,
            "expected create-tab response"@,
        ),
        !(resp is SendText) ==> send_text_outcome(resp) == Outcome::<()>::Failed(
            ErrorKind::Protocol,
            "expected send-text response"@,
        ),
        !(resp is ListSessions) ==> list_sessions_outcome(resp) == Outcome::<
            Seq<Seq<char>>,
        >::Failed(ErrorKind::Protocol, "expected list-sessions response"@) && windows_outcome(
            resp,
        ) == Outcome::<Seq<WindowView>>::Failed(
            ErrorKind::Protocol,
            "expected list-sessions response"@,
        ),
{
}

/// The kind of a command, which is the kind of reply it awaits.
#[derive(Clone, Copy, PartialEq, Eq, Structural, Debug)]
pub enum CommandKind {
    CreateTab,
    SendText,
    ListSessions,
}

pub open spec fn kind_of(c: CommandView) -> CommandKind {
    match c {
        CommandView::CreateTab { .. } => CommandKind::CreateTab,
        CommandView::SendText { .. } => CommandKind::SendText,
        CommandView::ListSessions => CommandKind::ListSessions,
    }
}

/// What the transport reported when the channel read for a reply.
#[derive(Debug)]
pub enum Inbound {
    /// One binary frame.
    Frame(Vec<u8>),
    /// A frame that is not binary, with a description of it.
    NonBinary(String),
    /// The stream ended.
    EndOfStream,
    /// Reading failed.
    ReadFailed,
    /// Writing the command's frame failed.
    SendFailed,
}

/// The state of one framed channel to the application.
///
/// It is open or closed, and open it has at most one command that awaits
/// its reply. A closed channel stays closed.
pub struct CommandChannel {
    closed: bool,
    pending: Option<CommandKind>,
}

impl CommandChannel {
    pub closed spec fn is_closed_spec(&self) -> bool {
        self.closed
    }

    /// The kind of the command that awaits its reply, if any.
    pub closed spec fn pending_spec(&self) -> Option<CommandKind> {
        self.pending
    }

    /// A channel over a stream whose handshake has succeeded.
    pub fn new() -> (r: Self)
        ensures
            !r.is_closed_spec(),
            r.pending_spec() is None,
    {
        CommandChannel { closed: false, pending: None }
    }

    pub fn is_closed(&self) -> (r: bool)
        ensures
            r == self.is_closed_spec(),
    {
        self.closed
    }

    pub fn pending(&self) -> (r: Option<CommandKind>)
        ensures
            r == self.pending_spec(),
    {
        self.pending
    }

    /// Starts a command: the frame to write, and the channel now awaits the
    /// reply.
    ///
    /// On a closed channel it fails with "connection closed"; while another
    /// command awaits its reply it fails as a protocol error and nothing is
    /// written.
    pub fn begin(&mut self, cmd: &Command) -> (r: Result<Vec<u8>, Error>)
        ensures
            old(self).is_closed_spec() ==> *final(self) == *old(self) && (r matches Err(e)
                && is_connection_error(e, closed_message())),
            !old(self).is_closed_spec() && old(self).pending_spec() is Some ==> *final(self)
                == *old(self) && (r matches Err(e) && e is Protocol),
            !old(self).is_closed_spec() && old(self).pending_spec() is None ==> (r matches Ok(
                frame,
            ) && frame@ == command_bytes(cmd@)) && !final(self).is_closed_spec()
                && final(self).pending_spec() == Some(kind_of(cmd@)),
    {
        if self.closed {
            return Err(Error::Connection(String::from_str("connection closed")));
        }
        if self.pending.is_some() {
            return Err(
                Error::Protocol(String::from_str("a command is already awaiting its reply")),
            );
        }
        let frame = encode_command(cmd);
        self.pending = Some(
            match cmd {
                Command::CreateTab { .. } => CommandKind::CreateTab,
                Command::SendText { .. } => CommandKind::SendText,
                Command::ListSessions => CommandKind::ListSessions,
            },
        );
        Ok(frame)
    }

    /// Finishes the command that awaits its reply, with what the transport
    /// reported.
    ///
    /// A frame is decoded; a non-binary frame is a connection error; an end
    /// of stream or a transport failure closes the channel for good. On a
    /// closed channel it fails with "connection closed".
    pub fn finish(&mut self, event: Inbound) -> (r: Result<Response, Error>)
        ensures
            old(self).is_closed_spec() ==> *final(self) == *old(self) && (r matches Err(e)
                && is_connection_error(e, closed_message())),
            !old(self).is_closed_spec() && old(self).pending_spec() is None ==> *final(self)
                == *old(self) && (r matches Err(e) && e is Protocol),
            !old(self).is_closed_spec() && old(self).pending_spec() is Some ==> final(self).pending_spec() is None
                && match event {
                Inbound::Frame(b) => !final(self).is_closed_spec() && match response_of(b@) {
                    Some(v) => r matches Ok(x) && x@ == v,
                    None => r matches Err(e) && e is Decode,
                },
                Inbound::NonBinary(d) => !final(self).is_closed_spec() && (r matches Err(e)
                    && is_connection_error(e, unexpected_frame_message(d@))),
                _ => final(self).is_closed_spec() && (r matches Err(e) && is_connection_error(
                    e,
                    closed_message(),
                )),
            },
    {
        if self.closed {
            return Err(Error::Connection(String::from_str("connection closed")));
        }
        if self.pending.is_none() {
            return Err(Error::Protocol(String::from_str("no command is awaiting a reply")));
        }
        self.pending = None;
        match event {
            Inbound::Frame(b) => decode_response(b.as_slice()),
            Inbound::NonBinary(d) => {
                let mut m = String::from_str("Unexpected message type: ");
                m.append(d.as_str());
                Err(Error::Connection(m))
            },
            _ => {
                self.closed = true;
                Err(Error::Connection(String::from_str("connection closed")))
            },
        }
    }
}

} // verus!
