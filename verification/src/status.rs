//! The dual-write publisher: the record is created in the author's own
//! repository first, and mirrored into the feed only when that succeeded.

use crate::error::Error;
use crate::feed::{upsert, StatusView};
use crate::ingester::{status_nsid, watched_collection};
use crate::store::{row_params, upsert_text, Statement, Status, StatusStore};
use crate::types::{fresh_record_key, is_tid, Datetime, Did};
use vstd::prelude::*;

verus! {

/// What the status form sends.
#[derive(Debug)]
pub struct LoginInput {
    pub status: String,
}

/// The record that is to be created in the author's repository.
#[derive(Debug)]
pub struct RecordDraft {
    pub collection: String,
    pub repo: Did,
    pub rkey: String,
    pub status: String,
    pub created_at: Datetime,
}

/// The first step of publishing.
#[derive(Debug)]
pub enum PostStep {
    /// Nobody is logged in: the request is refused, and the visitor is sent here.
    LoggedOut(String),
    /// This record is to be created in its author's repository.
    CreateRecord(RecordDraft),
}

/// What publishing ends with: where the visitor is sent, and the statement
/// that makes the mirrored row durable.
#[derive(Debug)]
pub struct Published {
    pub redirect: String,
    pub write: Statement,
}

/// Where a visitor who is not logged in is sent.
pub open spec fn logged_out_target() -> Seq<char> {
    "/?error=logged_out"@
}

/// The row that mirrors `draft`, created under the address `uri`, when it is
/// mirrored at `now`.
pub open spec fn mirror_row(draft: RecordDraft, uri: Seq<char>, now: Datetime) -> StatusView {
    StatusView {
        uri,
        author_did: draft.repo@,
        status: draft.status@,
        created_at: draft.created_at@,
        indexed_at: now@,
    }
}

/// The record of the status `input` by `repo`, written at `now` under the key `rkey`.
pub fn draft_record(repo: Did, input: LoginInput, rkey: String, now: Datetime) -> (draft:
    RecordDraft)
    ensures
        draft.collection@ == status_nsid(),
        draft.repo@ == repo@,
        draft.rkey@ == rkey@,
        draft.status@ == input.status@,
        draft.created_at@ == now@,
{
    RecordDraft {
        collection: watched_collection().to_owned(),
        repo,
        rkey,
        status: input.status,
        created_at: now,
    }
}

/// Begins to publish the status `input` for the visitor whose session is
/// `session`. Without a session nothing is created. With one, the record is
/// drafted for the visitor's own repository, under a fresh key and with the
/// current time as its creation time.
pub fn post_status(session: Option<Did>, input: LoginInput) -> (step: PostStep)
    ensures
        match session {
            None => step matches PostStep::LoggedOut(target) && target@ == logged_out_target(),
            Some(did) => {
                &&& step matches PostStep::CreateRecord(draft)
                &&& draft.collection@ == status_nsid()
                &&& draft.repo@ == did@
                &&& is_tid(draft.rkey@)
                &&& draft.status@ == input.status@
                &&& draft.created_at@.wf()
            },
        },
{
    match session {
        None => PostStep::LoggedOut("/?error=logged_out".to_owned()),
        Some(did) => PostStep::CreateRecord(
            draft_record(did, input, fresh_record_key(), Datetime::now()),
        ),
    }
}

/// The status that mirrors `draft` at the time `now`, from what creating the
/// record gave: its address, or the failure. A failure fails the whole
/// operation; on success the status has the record's address and content and
/// is indexed at `now`. No store is touched, so that the row can be made
/// durable before it is written to the feed.
pub fn mirrored(draft: RecordDraft, created: Result<String, String>, now: Datetime) -> (r: Result<
    Status,
    Error,
>)
    ensures
        match created {
            Ok(uri) => r matches Ok(status) && status@ == mirror_row(draft, uri@, now),
            Err(e) => r matches Err(Error::RecordCreate(text)) && text@ == e@,
        },
{
    match created {
        Ok(uri) => Ok(
            Status {
                uri,
                author_did: draft.repo,
                status: draft.status,
                created_at: draft.created_at,
                indexed_at: now,
            },
        ),
        Err(e) => Err(Error::RecordCreate(e)),
    }
}

/// Ends publishing once the statement of the mirrored row `status` was run on
/// the database, `run` being what running it gave. Where the database took
/// the row, the feed takes it and the visitor is sent home. Where it did not,
/// the operation fails with the failure of the write, though the record was
/// created, and the feed stays as it is.
pub fn finish_mirror(store: &mut StatusStore, status: Status, run: Result<(), String>) -> (r: Result<
    String,
    Error,
>)
    ensures
        final(store).table_name() == old(store).table_name(),
        match run {
            Ok(_) => {
                &&& r matches Ok(target)
                &&& target@ == "/"@
                &&& final(store).rows() == upsert(old(store).rows(), status@)
            },
            Err(e) => {
                &&& r matches Err(Error::Storage(crate::store::Error::InsertFailed(text)))
                &&& text@ == e@
                &&& final(store).rows() == old(store).rows()
            },
        },
{
    match store.finish_insert(status, run) {
        Ok(_) => Ok("/".to_owned()),
        Err(e) => Err(Error::Storage(e)),
    }
}

/// Ends publishing at the time `now`, with what creating the record gave: its
/// address, or the failure. A failure fails the whole operation and leaves
/// the feed as it is. On success the record is mirrored into the feed under
/// its address, indexed at `now`, and the visitor is sent home.
pub fn mirror_status(
    store: &mut StatusStore,
    draft: RecordDraft,
    created: Result<String, String>,
    now: Datetime,
) -> (r: Result<Published, Error>)
    ensures
        final(store).table_name() == old(store).table_name(),
        match created {
            Ok(uri) => {
                &&& final(store).rows() == upsert(old(store).rows(), mirror_row(draft, uri@, now))
                &&& r matches Ok(published)
                &&& published.redirect@ == "/"@
                &&& published.write.text@ == upsert_text(old(store).table_name())
                &&& published.write.params() == row_params(mirror_row(draft, uri@, now))
            },
            Err(e) => {
                &&& final(store).rows() == old(store).rows()
                &&& r matches Err(Error::RecordCreate(text))
                &&& text@ == e@
            },
        },
{
    match mirrored(draft, created, now) {
        Ok(status) => {
            let write = store.insert(status);
            Ok(Published { redirect: "/".to_owned(), write })
        },
        Err(e) => Err(e),
    }
}

/// Ends publishing at the current time: as `mirror_status`, with the row
/// indexed when the call is made.
pub fn finish_post(store: &mut StatusStore, draft: RecordDraft, created: Result<String, String>) -> (r:
    Result<Published, Error>)
    ensures
        final(store).table_name() == old(store).table_name(),
        match created {
            Ok(uri) => {
                &&& r matches Ok(published)
                &&& published.redirect@ == "/"@
                &&& exists|now: Datetime|
                    now@.wf() && #[trigger] upsert(
                        old(store).rows(),
                        mirror_row(draft, uri@, now),
                    ) == final(store).rows() && published.write.params() == row_params(
                        mirror_row(draft, uri@, now),
                    )
                &&& published.write.text@ == upsert_text(old(store).table_name())
            },
            Err(e) => {
                &&& final(store).rows() == old(store).rows()
                &&& r matches Err(Error::RecordCreate(text))
                &&& text@ == e@
            },
        },
{
    let now = Datetime::now();
    mirror_status(store, draft, created, now)
}

} // verus!
