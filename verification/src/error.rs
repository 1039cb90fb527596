//! The failures that the application surfaces, and what an error page shows.

use crate::text::prefixed;
use vstd::prelude::*;

verus! {

/// What can go wrong while a request is served or the pipeline runs. Where a
/// variant holds a text, it is the text of the failure that a collaborator gave.
#[derive(Debug)]
pub enum Error {
    OAuthClientCreation(String),
    Authorize(String),
    Restore(String),
    Resolver(String),
    Template(String),
    Session(String),
    SessionAlreadyExists,
    MissingDid,
    RecordCreate(String),
    RecordGet(String),
    Storage(crate::store::Error),
    DidResolver(String),
    ProfileParse(String),
    JetstreamConnection(String),
}

/// The status code of every error response: service unavailable.
pub const SERVICE_UNAVAILABLE: u16 = 503;

impl Error {
    /// The text of the error.
    pub open spec fn text(&self) -> Seq<char> {
        match self {
            Error::OAuthClientCreation(e) => "oauth client creation: "@ + e@,
            Error::Authorize(e) => "oauth authorize: "@ + e@,
            Error::Restore(e) => "oauth restore: "@ + e@,
            Error::Resolver(e) => "DNS resolver: "@ + e@,
            Error::Template(e) => "template: "@ + e@,
            Error::Session(e) => "session: "@ + e@,
            Error::SessionAlreadyExists => "session already exists"@,
            Error::MissingDid => "missing did"@,
            Error::RecordCreate(e) => "atproto record create: "@ + e@,
            Error::RecordGet(e) => "atproto record get: "@ + e@,
            Error::Storage(e) => "storage: "@ + e.text(),
            Error::DidResolver(e) => "did resolution: "@ + e@,
            Error::ProfileParse(e) => "profile parsing: "@ + e@,
            Error::JetstreamConnection(e) => "jetstream connection: "@ + e@,
        }
    }

    /// The text of the error.
    pub fn message(&self) -> (text: String)
        ensures
            text@ == self.text(),
    {
        match self {
            Error::OAuthClientCreation(e) => prefixed("oauth client creation: ", e.as_str()),
            Error::Authorize(e) => prefixed("oauth authorize: ", e.as_str()),
            Error::Restore(e) => prefixed("oauth restore: ", e.as_str()),
            Error::Resolver(e) => prefixed("DNS resolver: ", e.as_str()),
            Error::Template(e) => prefixed("template: ", e.as_str()),
            Error::Session(e) => prefixed("session: ", e.as_str()),
            Error::SessionAlreadyExists => "session already exists".to_owned(),
            Error::MissingDid => "missing did".to_owned(),
            Error::RecordCreate(e) => prefixed("atproto record create: ", e.as_str()),
            Error::RecordGet(e) => prefixed("atproto record get: ", e.as_str()),
            Error::Storage(e) => {
                let inner = e.message();
                prefixed("storage: ", inner.as_str())
            },
            Error::DidResolver(e) => prefixed("did resolution: ", e.as_str()),
            Error::ProfileParse(e) => prefixed("profile parsing: ", e.as_str()),
            Error::JetstreamConnection(e) => prefixed("jetstream connection: ", e.as_str()),
        }
    }

    /// What is answered to a request that failed: the status code, which is
    /// the same for every error, and the error's text as the body.
    pub fn into_response(&self) -> (r: (u16, String))
        ensures
            r.0 == SERVICE_UNAVAILABLE,
            r.1@ == self.text(),
    {
        (SERVICE_UNAVAILABLE, self.message())
    }
}

/// What the error page says where the body of the failed response cannot be shown.
pub open spec fn unreadable_body() -> Seq<char> {
    "Unable to display error message, see server logs."@
}

/// What the error page does with a response.
#[derive(Debug)]
pub enum ErrorPage {
    /// The response is no error: it passes unchanged.
    Pass,
    /// The error page is rendered, with these details where there are any.
    Render(Option<String>),
}

/// Whether `status` is a client or server error code.
pub open spec fn is_error_status(status: u16) -> bool {
    400 <= status < 600
}

/// Whether `status` is a client or server error code: whether the error page
/// stands in for the response.
pub fn is_error(status: u16) -> (b: bool)
    ensures
        b == is_error_status(status),
{
    400 <= status && status < 600
}

/// The details that the error page shows for a failed response. `body` is
/// the response's body where it is text. Details are shown only where the
/// deployment asks for them.
pub fn error_details(show_error_messages: bool, body: Option<String>) -> (details: Option<String>)
    ensures
        details is Some <==> show_error_messages,
        details matches Some(text) ==> text@ == match body {
            Some(b) => b@,
            None => unreadable_body(),
        },
{
    if !show_error_messages {
        return None;
    }
    match body {
        Some(text) => Some(text),
        None => Some("Unable to display error message, see server logs.".to_owned()),
    }
}

/// Decides what the error page does with a response of the code `status`.
/// `body` is the response's body where it is text. Details are shown only
/// where the deployment asks for them.
pub fn error_middleware(status: u16, show_error_messages: bool, body: Option<String>) -> (page:
    ErrorPage)
    ensures
        match page {
            ErrorPage::Pass => !is_error_status(status),
            ErrorPage::Render(None) => is_error_status(status) && !show_error_messages,
            ErrorPage::Render(Some(details)) => {
                &&& is_error_status(status)
                &&& show_error_messages
                &&& details@ == match body {
                    Some(text) => text@,
                    None => unreadable_body(),
                }
            },
        },
{
    if !is_error(status) {
        return ErrorPage::Pass;
    }
    ErrorPage::Render(error_details(show_error_messages, body))
}

} // verus!
