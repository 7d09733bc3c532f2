use vstd::prelude::*;

verus! {

/// The failure kinds of the remote-control client.
///
/// Every failure is returned to the immediate caller; none is retried.
#[derive(Debug)]
pub enum Error {
    /// Missing endpoint, transport failure, handshake rejection or closed stream.
    Connection(String),
    /// A frame that does not conform to the message schema.
    Decode(String),
    /// A well-formed frame of an unexpected kind.
    Protocol(String),
    /// A well-formed reply of the expected kind whose status is not OK.
    Api(String),
    /// Credentials could not be obtained.
    Authentication(String),
    /// Text that should be UTF-8 is not.
    Utf8(String),
}

pub type Result<T> = core::result::Result<T, Error>;

/// The kind of an error, without its message.
pub enum ErrorKind {
    Connection,
    Decode,
    Protocol,
    Api,
    Authentication,
    Utf8,
}

impl Error {
    pub open spec fn kind(&self) -> ErrorKind {
        match self {
            Error::Connection(_) => ErrorKind::Connection,
            Error::Decode(_) => ErrorKind::Decode,
            Error::Protocol(_) => ErrorKind::Protocol,
            Error::Api(_) => ErrorKind::Api,
            Error::Authentication(_) => ErrorKind::Authentication,
            Error::Utf8(_) => ErrorKind::Utf8,
        }
    }

    /// The message carried by the error.
    pub open spec fn text(&self) -> Seq<char> {
        match self {
            Error::Connection(m) => m@,
            Error::Decode(m) => m@,
            Error::Protocol(m) => m@,
            Error::Api(m) => m@,
            Error::Authentication(m) => m@,
            Error::Utf8(m) => m@,
        }
    }

    /// The message carried by the error.
    pub fn message(&self) -> (r: &str)
        ensures
            r@ == self.text(),
    {
        match self {
            Error::Connection(m) => m.as_str(),
            Error::Decode(m) => m.as_str(),
            Error::Protocol(m) => m.as_str(),
            Error::Api(m) => m.as_str(),
            Error::Authentication(m) => m.as_str(),
            Error::Utf8(m) => m.as_str(),
        }
    }

    /// The error as a user-facing line: a prefix naming the kind, then the message.
    pub fn describe(&self) -> (r: String)
        ensures
            r@ == self.kind_prefix() + self.text(),
    {
        let mut r = match self {
            Error::Connection(_) => String::from_str("Connection failed: "),
            Error::Decode(_) => String::from_str("Decode error: "),
            Error::Protocol(_) => String::from_str("Protocol error: "),
            Error::Api(_) => String::from_str("API error: "),
            Error::Authentication(_) => String::from_str("Authentication error: "),
            Error::Utf8(_) => String::from_str("UTF-8 error: "),
        };
        r.append(self.message());
        r
    }

    pub open spec fn kind_prefix(&self) -> Seq<char> {
        match self {
            Error::Connection(_) => "Connection failed: "@,
            Error::Decode(_) => "Decode error: "@,
            Error::Protocol(_) => "Protocol error: "@,
            Error::Api(_) => "API error: "@,
            Error::Authentication(_) => "Authentication error: "@,
            Error::Utf8(_) => "UTF-8 error: "@,
        }
    }
}

/// True when `e` is a connection error with exactly the message `m`.
pub open spec fn is_connection_error(e: Error, m: Seq<char>) -> bool {
    e.kind() == ErrorKind::Connection && e.text() == m
}

} // verus!
