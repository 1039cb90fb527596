//! Logging in: the handle that the form sends is checked before the provider
//! is asked, and the identity that comes back is bound to the local session.

use crate::error::Error;
use crate::oauth::{bind, ClientSession};
use crate::store::is_letter;
use crate::types::{is_alnum, Did};
use vstd::prelude::*;

verus! {

/// What the login form sends.
#[derive(Debug)]
pub struct LoginInput {
    pub handle: String,
}

/// What is done with a login form.
#[derive(Debug)]
pub enum LoginStep {
    /// The form is shown, with this error where there is one.
    ShowForm(Option<&'static str>),
    /// The provider is asked to authorize this handle.
    Authorize(String),
}

/// The characters of `s` from `from` up to `to` are a label: one to
/// sixty-three letters, digits and hyphens, the first and the last no hyphen.
pub open spec fn is_label(s: Seq<char>, from: int, to: int) -> bool {
    &&& 1 <= to - from <= 63
    &&& is_alnum(s[from])
    &&& is_alnum(s[to - 1])
    &&& forall|i: int| from <= i < to ==> is_alnum(#[trigger] s[i]) || s[i] == '-'
}

/// The characters of `s` from `from` up to `to` are what stands between two
/// dots, or between a dot and an end of `s`.
pub open spec fn is_segment(s: Seq<char>, from: int, to: int) -> bool {
    &&& 0 <= from <= to <= s.len()
    &&& from == 0 || s[from - 1] == '.'
    &&& to == s.len() || s[to] == '.'
    &&& forall|i: int| from <= i < to ==> #[trigger] s[i] != '.'
}

/// The syntax of a handle: at most 253 characters that are two or more labels
/// with dots between them, the last label beginning with a letter.
pub open spec fn is_handle(s: Seq<char>) -> bool {
    &&& s.len() <= 253
    &&& forall|from: int, to: int| #[trigger] is_segment(s, from, to) ==> is_label(s, from, to)
    &&& exists|from: int|
        0 < from && #[trigger] is_segment(s, from, s.len() as int) && is_letter(s[from])
}

/// Calls `atrium_api::types::string::Handle::new`. It accepts exactly the
/// strings of at most 253 bytes that match
/// `^([a-zA-Z0-9]([a-zA-Z0-9-]{0,61}[a-zA-Z0-9])?\.)+[a-zA-Z]([a-zA-Z0-9-]{0,61}[a-zA-Z0-9])?$`,
/// and hands an accepted string back unchanged; every accepted string is
/// ASCII, so bytes and characters count alike.
#[verifier::external_body]
fn parse_handle(handle: String) -> (r: Result<String, &'static str>)
    ensures
        r is Ok <==> is_handle(handle@),
        r matches Ok(accepted) ==> accepted@ == handle@,
{
    atrium_api::types::string::Handle::new(handle).map(String::from)
}

/// The login form as it is first shown: without an error.
pub fn login_form() -> (step: LoginStep)
    ensures
        step == LoginStep::ShowForm(None),
{
    LoginStep::ShowForm(None)
}

/// Decides what is done with a form whose handle was parsed with the result
/// `parsed`: a handle that was refused brings the form back with the reason,
/// an accepted one goes to the provider.
pub fn login_step(parsed: Result<String, &'static str>) -> (step: LoginStep)
    ensures
        match parsed {
            Ok(handle) => step == LoginStep::Authorize(handle),
            Err(reason) => step == LoginStep::ShowForm(Some(reason)),
        },
{
    match parsed {
        Ok(handle) => LoginStep::Authorize(handle),
        Err(reason) => LoginStep::ShowForm(Some(reason)),
    }
}

/// Takes a login form: the handle is parsed, and `login_step` decides.
pub fn accept_login_form(input: LoginInput) -> (step: LoginStep)
    ensures
        match step {
            LoginStep::Authorize(handle) => is_handle(input.handle@) && handle@ == input.handle@,
            LoginStep::ShowForm(Some(_)) => !is_handle(input.handle@),
            LoginStep::ShowForm(None) => false,
        },
{
    login_step(parse_handle(input.handle))
}

/// Where the visitor is sent after logging in, and after logging out.
pub open spec fn home_target() -> Seq<char> {
    "/"@
}

/// Takes the provider's answer to an authorization: the identity it named, if
/// any, is bound to the local session, whose binding so far is `existing`.
/// On success the visitor is sent home.
pub fn oauth_callback(identity: Option<Did>, existing: Option<ClientSession>) -> (r: Result<
    (ClientSession, String),
    Error,
>)
    ensures
        match r {
            Ok(bound) => {
                &&& existing is None
                &&& identity matches Some(did)
                &&& bound.0.did@ == did@
                &&& bound.1@ == home_target()
            },
            Err(Error::MissingDid) => identity is None,
            Err(Error::SessionAlreadyExists) => identity is Some && existing is Some,
            Err(_) => false,
        },
{
    match bind(existing, identity) {
        Ok(session) => Ok((session, "/".to_owned())),
        Err(e) => Err(e),
    }
}

} // verus!
