use vstd::prelude::*;
use vstd::utf8::{decode_utf8, valid_utf8};

use crate::error::Error;
use crate::schema::opt_view;
use crate::text::{trim_text, trimmed, utf8_text};

verus! {

/// The name of the header that carries a session cookie.
pub open spec fn cookie_header_name() -> Seq<char> {
    "x-iterm2-cookie"@
}

/// The name of the header that carries a shared key.
pub open spec fn key_header_name() -> Seq<char> {
    "x-iterm2-key"@
}

/// Ambient authorization material: an optional cookie and an optional key.
///
/// Read once when the value is made and never refreshed. When both are
/// present the cookie takes precedence.
pub struct Authenticator {
    cookie: Option<String>,
    key: Option<String>,
}

/// The credential that an authenticator presents.
pub enum Credential {
    Cookie(Seq<char>),
    Key(Seq<char>),
}

impl Authenticator {
    pub closed spec fn cookie_view(&self) -> Option<Seq<char>> {
        opt_view(self.cookie)
    }

    pub closed spec fn key_view(&self) -> Option<Seq<char>> {
        opt_view(self.key)
    }

    /// The credential presented: the cookie if there is one, else the key.
    pub open spec fn credential(&self) -> Option<Credential> {
        match self.cookie_view() {
            Some(c) => Some(Credential::Cookie(c)),
            None => match self.key_view() {
                Some(k) => Some(Credential::Key(k)),
                None => None,
            },
        }
    }

    /// An authenticator holding the given cookie and key, as read from the
    /// environment by the caller.
    pub fn new(cookie: Option<String>, key: Option<String>) -> (r: Self)
        ensures
            r.cookie_view() == opt_view(cookie),
            r.key_view() == opt_view(key),
    {
        Authenticator { cookie, key }
    }

    pub fn has_credentials(&self) -> (r: bool)
        ensures
            r == (self.cookie_view() is Some || self.key_view() is Some),
            r == (self.credential() is Some),
    {
        self.cookie.is_some() || self.key.is_some()
    }

    /// The credential as one header line, `iTerm2-Auth-Cookie: <cookie>` or
    /// `iTerm2-Auth-Key: <key>`.
    pub fn get_auth_header(&self) -> (r: Option<String>)
        ensures
            match self.credential() {
                Some(Credential::Cookie(c)) => r is Some && r->0@ == "iTerm2-Auth-Cookie: "@ + c,
                Some(Credential::Key(k)) => r is Some && r->0@ == "iTerm2-Auth-Key: "@ + k,
                None => r is None,
            },
    {
        if let Some(cookie) = &self.cookie {
            let mut h = String::from_str("iTerm2-Auth-Cookie: ");
            h.append(cookie.as_str());
            Some(h)
        } else if let Some(key) = &self.key {
            let mut h = String::from_str("iTerm2-Auth-Key: ");
            h.append(key.as_str());
            Some(h)
        } else {
            None
        }
    }

    /// The credential as a handshake header: its name and its value.
    pub fn auth_header_field(&self) -> (r: Option<(String, String)>)
        ensures
            match self.credential() {
                Some(Credential::Cookie(c)) => r matches Some((n, v)) && n@ == cookie_header_name()
                    && v@ == c,
                Some(Credential::Key(k)) => r matches Some((n, v)) && n@ == key_header_name() && v@
                    == k,
                None => r is None,
            },
    {
        if let Some(cookie) = &self.cookie {
            Some((String::from_str("x-iterm2-cookie"), cookie.clone()))
        } else if let Some(key) = &self.key {
            Some((String::from_str("x-iterm2-key"), key.clone()))
        } else {
            None
        }
    }
}

/// What an AppleScript query for the authentication string yields.
///
/// `succeeded` is whether the script exited successfully, `stdout` its raw
/// output and `stderr` its diagnostics as text.
pub fn auth_string_from_output(succeeded: bool, stdout: Vec<u8>, stderr: &str) -> (r: Result<
    String,
    Error,
>)
    ensures
        !succeeded ==> r is Err && r->Err_0 is Authentication && r->Err_0.text()
            == "AppleScript failed: "@ + stderr@,
        succeeded && !valid_utf8(stdout@) ==> r is Err && r->Err_0 is Utf8,
        succeeded && valid_utf8(stdout@) ==> r is Ok && r->Ok_0@ == trimmed(decode_utf8(stdout@)),
{
    if !succeeded {
        let mut m = String::from_str("AppleScript failed: ");
        m.append(stderr);
        return Err(Error::Authentication(m));
    }
    match utf8_text(stdout.as_slice()) {
        Some(s) => Ok(trim_text(s.as_str())),
        None => Err(Error::Utf8(String::from_str("AppleScript output is not valid UTF-8"))),
    }
}

} // verus!
