//! The messages of the protocol: the commands a client sends and the
//! responses the application sends back, with their mathematical views.
use vstd::prelude::*;

verus! {

/// Field number of the list-sessions request and response.
pub const LIST_SESSIONS_FIELD: u64 = 106;

/// Field number of the send-text request and response.
pub const SEND_TEXT_FIELD: u64 = 107;

/// Field number of the create-tab request and response.
pub const CREATE_TAB_FIELD: u64 = 108;

/// Field number of the request identifier of a server message.
pub const ID_FIELD: u64 = 1;

/// Field number of the error text of a server message.
pub const ERROR_FIELD: u64 = 2;

/// The first field number of the submessages of a server message.
pub const FIRST_SUBMESSAGE_FIELD: u64 = 100;

/// The status code that means success, in every status enumeration.
pub const STATUS_OK: u64 = 0;

/// A request to the application.
#[derive(Debug)]
pub enum Command {
    /// Create a tab; without a window identifier, in a new window.
    CreateTab { profile_name: Option<String>, window_id: Option<String> },
    /// Send text to a session, as if typed.
    SendText { session_id: String, text: String },
    /// List the windows and the buried sessions.
    ListSessions,
}

pub enum CommandView {
    CreateTab { profile_name: Option<Seq<char>>, window_id: Option<Seq<char>> },
    SendText { session_id: Seq<char>, text: Seq<char> },
    ListSessions,
}

pub open spec fn opt_view(o: Option<String>) -> Option<Seq<char>> {
    match o {
        Some(s) => Some(s@),
        None => None,
    }
}

impl View for Command {
    type V = CommandView;

    open spec fn view(&self) -> CommandView {
        match self {
            Command::CreateTab { profile_name, window_id } => CommandView::CreateTab {
                profile_name: opt_view(*profile_name),
                window_id: opt_view(*window_id),
            },
            Command::SendText { session_id, text } => CommandView::SendText {
                session_id: session_id@,
                text: text@,
            },
            Command::ListSessions => CommandView::ListSessions,
        }
    }
}

/// An opaque handle on a session; two are the same when their identifiers are.
#[derive(Debug)]
pub struct SessionSummary {
    pub unique_identifier: String,
}

impl View for SessionSummary {
    type V = Seq<char>;

    open spec fn view(&self) -> Seq<char> {
        self.unique_identifier@
    }
}

impl SessionSummary {
    pub fn unique_identifier(&self) -> (r: &str)
        ensures
            r@ == self@,
    {
        self.unique_identifier.as_str()
    }
}

/// A tab of a window: its identifier and the sessions of its split panes,
/// in the order of the split tree.
#[derive(Debug)]
pub struct Tab {
    pub tab_id: String,
    pub sessions: Vec<SessionSummary>,
}

pub struct TabView {
    pub tab_id: Seq<char>,
    pub sessions: Seq<Seq<char>>,
}

impl View for Tab {
    type V = TabView;

    open spec fn view(&self) -> TabView {
        TabView {
            tab_id: self.tab_id@,
            sessions: self.sessions@.map_values(|s: SessionSummary| s@),
        }
    }
}

impl Tab {
    pub fn tab_id(&self) -> (r: &str)
        ensures
            r@ == self@.tab_id,
    {
        self.tab_id.as_str()
    }
}

/// A window and its tabs, in order.
#[derive(Debug)]
pub struct Window {
    pub window_id: String,
    pub tabs: Vec<Tab>,
}

pub struct WindowView {
    pub window_id: Seq<char>,
    pub tabs: Seq<TabView>,
}

impl View for Window {
    type V = WindowView;

    open spec fn view(&self) -> WindowView {
        WindowView { window_id: self.window_id@, tabs: self.tabs@.map_values(|t: Tab| t@) }
    }
}

impl Window {
    pub fn window_id(&self) -> (r: &str)
        ensures
            r@ == self@.window_id,
    {
        self.window_id.as_str()
    }
}

/// The reply to a create-tab request.
#[derive(Debug)]
pub struct CreateTabResponse {
    pub status: u64,
    pub window_id: String,
    pub session_id: String,
}

pub struct CreateTabView {
    pub status: u64,
    pub window_id: Seq<char>,
    pub session_id: Seq<char>,
}

impl View for CreateTabResponse {
    type V = CreateTabView;

    open spec fn view(&self) -> CreateTabView {
        CreateTabView {
            status: self.status,
            window_id: self.window_id@,
            session_id: self.session_id@,
        }
    }
}

/// The reply to a send-text request.
#[derive(Debug)]
pub struct SendTextResponse {
    pub status: u64,
}

/// The reply to a list-sessions request.
#[derive(Debug)]
pub struct ListSessionsResponse {
    pub windows: Vec<Window>,
    pub buried_sessions: Vec<SessionSummary>,
}

pub struct ListSessionsView {
    pub windows: Seq<WindowView>,
    pub buried_sessions: Seq<Seq<char>>,
}

impl View for ListSessionsResponse {
    type V = ListSessionsView;

    open spec fn view(&self) -> ListSessionsView {
        ListSessionsView {
            windows: self.windows@.map_values(|w: Window| w@),
            buried_sessions: self.buried_sessions@.map_values(|s: SessionSummary| s@),
        }
    }
}

/// A message from the application.
#[derive(Debug)]
pub enum Response {
    CreateTab(CreateTabResponse),
    SendText(SendTextResponse),
    ListSessions(ListSessionsResponse),
    /// The application's own error text.
    ServerError(String),
    /// A submessage of another kind, by its field number.
    Other(u64),
    /// A message without any submessage.
    Empty,
}

pub enum ResponseView {
    CreateTab(CreateTabView),
    SendText(u64),
    ListSessions(ListSessionsView),
    ServerError(Seq<char>),
    Other(u64),
    Empty,
}

impl View for Response {
    type V = ResponseView;

    open spec fn view(&self) -> ResponseView {
        match self {
            Response::CreateTab(r) => ResponseView::CreateTab(r@),
            Response::SendText(r) => ResponseView::SendText(r.status),
            Response::ListSessions(r) => ResponseView::ListSessions(r@),
            Response::ServerError(m) => ResponseView::ServerError(m@),
            Response::Other(n) => ResponseView::Other(*n),
            Response::Empty => ResponseView::Empty,
        }
    }
}

} // verus!
