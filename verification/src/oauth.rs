//! The identity session bridge: from the binding of a local session to a
//! live session of the bound identity, or to none.

use crate::error::Error;
use crate::text::same_text;
use crate::types::Did;
use vstd::prelude::*;

verus! {

/// What a local session remembers: the identity that is bound to it.
#[derive(Debug)]
pub struct ClientSession {
    pub did: Did,
}

/// What is done to restore the session of a local session.
#[derive(Debug)]
pub enum RestorePlan {
    /// Nothing is bound: the visitor is anonymous, and the provider is not asked.
    Anonymous,
    /// The provider is asked for the session of this identity.
    AskProvider(Did),
}

/// What restoring found, `S` being a live session.
#[derive(Debug)]
pub enum Lookup<S> {
    /// The local session has no binding.
    Unbound,
    /// The provider gave the session of the bound identity.
    Restored(S),
    /// The provider remembers no session of the bound identity; the text is its own.
    NoSession(String),
    /// The provider failed otherwise; the text is its own.
    Failed(String),
}

/// Decides from the binding of a local session whom the provider is asked
/// about: nobody where nothing is bound.
pub fn plan_restore(binding: Option<ClientSession>) -> (plan: RestorePlan)
    ensures
        match binding {
            Some(session) => plan matches RestorePlan::AskProvider(did) && did@ == session.did@,
            None => plan is Anonymous,
        },
{
    match binding {
        Some(session) => RestorePlan::AskProvider(session.did),
        None => RestorePlan::Anonymous,
    }
}

/// Decides whom the provider is asked about from what reading the binding of
/// a local session gave. A binding that could not be read is an error, with
/// the reader's text; one that was read decides as `plan_restore` says.
pub fn plan_from_read(read: Result<Option<ClientSession>, String>) -> (r: Result<
    RestorePlan,
    Error,
>)
    ensures
        match read {
            Ok(Some(session)) => r matches Ok(RestorePlan::AskProvider(did)) && did@
                == session.did@,
            Ok(None) => r matches Ok(RestorePlan::Anonymous),
            Err(e) => r matches Err(Error::Session(text)) && text@ == e@,
        },
{
    match read {
        Ok(binding) => Ok(plan_restore(binding)),
        Err(e) => Err(Error::Session(e)),
    }
}

/// What the provider's session registry says of an identity whose session it
/// does not remember.
pub open spec fn no_session_text() -> Seq<char> {
    "session does not exist"@
}

/// Tells the two failures of the provider apart. `from_registry` says whether
/// the failure is one of the provider's session registry, and `text` is what
/// the failure says. Only the registry's own word that the session does not
/// exist means that no session is remembered; every other failure, of the
/// registry too, is a failure.
pub fn restore_failure<S>(from_registry: bool, text: String) -> (found: Lookup<S>)
    ensures
        match found {
            Lookup::NoSession(e) => from_registry && text@ == no_session_text() && e@ == text@,
            Lookup::Failed(e) => !(from_registry && text@ == no_session_text()) && e@ == text@,
            _ => false,
        },
{
    if from_registry && same_text(text.as_str(), "session does not exist") {
        Lookup::NoSession(text)
    } else {
        Lookup::Failed(text)
    }
}

/// Decides who the visitor is from what restoring found. A restored session
/// is the visitor's. No binding, and no session remembered for the bound
/// identity, both make the visitor anonymous and are no errors. Any other
/// failure of the provider is an error, with the provider's text.
pub fn session_agent<S>(found: Lookup<S>) -> (r: Result<Option<S>, Error>)
    ensures
        match found {
            Lookup::Unbound => r == Ok::<Option<S>, Error>(None),
            Lookup::Restored(session) => r == Ok::<Option<S>, Error>(Some(session)),
            Lookup::NoSession(_) => r == Ok::<Option<S>, Error>(None),
            Lookup::Failed(e) => r matches Err(Error::Restore(text)) && text@ == e@,
        },
{
    match found {
        Lookup::Unbound => Ok(None),
        Lookup::Restored(session) => Ok(Some(session)),
        Lookup::NoSession(_) => Ok(None),
        Lookup::Failed(e) => Err(Error::Restore(e)),
    }
}

/// Binds `identity` to a local session whose binding so far is `existing`.
/// An authorization that named no identity is refused first; then a local
/// session that is bound already is a conflict, whatever identity it holds,
/// and is not overwritten.
pub fn bind(existing: Option<ClientSession>, identity: Option<Did>) -> (r: Result<
    ClientSession,
    Error,
>)
    ensures
        match r {
            Ok(session) => {
                &&& existing is None
                &&& identity matches Some(did)
                &&& session.did@ == did@
            },
            Err(Error::MissingDid) => identity is None,
            Err(Error::SessionAlreadyExists) => identity is Some && existing is Some,
            Err(_) => false,
        },
{
    let did = match identity {
        Some(did) => did,
        None => {
            return Err(Error::MissingDid);
        },
    };
    if existing.is_some() {
        return Err(Error::SessionAlreadyExists);
    }
    Ok(ClientSession { did })
}

} // verus!
