//! The ingestion pipeline: from a commit event to a row of the feed, and the
//! life of the stream from its start to its end.

use crate::feed::{upsert, StatusView};
use crate::store::{row_params, upsert_text, Error, Statement, Status, StatusStore};
use crate::text::{prefixed, same_text, splice};
use crate::types::{is_did, Datetime, Did};
use vstd::prelude::*;

verus! {

/// The collection whose commits the pipeline turns into rows.
pub open spec fn status_nsid() -> Seq<char> {
    "xyz.statusphere.status"@
}

/// The collection whose commits the pipeline turns into rows.
pub fn watched_collection() -> (nsid: &'static str)
    ensures
        nsid@ == status_nsid(),
{
    "xyz.statusphere.status"
}

/// How far back the stream is read at its start: thirty minutes, in microseconds.
pub const BACKFILL_MICROS: u64 = 1_800_000_000;

/// A commit of a status record as the stream delivers it: who wrote it, in
/// which collection and under which key, and the record's payload.
#[derive(Debug)]
pub struct CommitEvent {
    pub did: String,
    pub collection: String,
    pub rkey: String,
    pub status: String,
    pub created_at: Datetime,
}

/// The address of the record `rkey` in `collection` of the repository of `did`.
pub open spec fn record_uri(did: Seq<char>, collection: Seq<char>, rkey: Seq<char>) -> Seq<char> {
    "at://"@ + did + "/"@ + collection + "/"@ + rkey
}

/// The row that the commit `event` becomes when it is seen at `now`.
pub open spec fn commit_row(event: CommitEvent, now: Datetime) -> StatusView {
    StatusView {
        uri: record_uri(event.did@, event.collection@, event.rkey@),
        author_did: event.did@,
        status: event.status@,
        created_at: event.created_at@,
        indexed_at: now@,
    }
}

impl Status {
    /// Turns a commit seen at `now` into a status: the address is rebuilt from
    /// authority, collection and key, the creation time is the author's, and
    /// the indexing time is `now`. A malformed author is refused.
    pub fn from_commit(event: CommitEvent, now: Datetime) -> (r: Result<Status, Error>)
        ensures
            match r {
                Ok(s) => is_did(event.did@) && s@ == commit_row(event, now),
                Err(Error::InvalidDid(_)) => !is_did(event.did@),
                Err(_) => false,
            },
    {
        let mut uri = splice("at://", event.did.as_str(), "/");
        let tail = splice(event.collection.as_str(), "/", event.rkey.as_str());
        vstd::string::StringExecFns::append(&mut uri, tail.as_str());
        assert(uri@ =~= record_uri(event.did@, event.collection@, event.rkey@));
        match Did::new(event.did) {
            Ok(author_did) => Ok(
                Status {
                    uri,
                    author_did,
                    status: event.status,
                    created_at: event.created_at,
                    indexed_at: now,
                },
            ),
            Err(reason) => Err(Error::InvalidDid(reason)),
        }
    }

    /// Turns a commit into a status that is indexed at the current time.
    pub fn try_from(event: CommitEvent) -> (r: Result<Status, Error>)
        ensures
            match r {
                Ok(s) => {
                    &&& is_did(event.did@)
                    &&& s@.uri == record_uri(event.did@, event.collection@, event.rkey@)
                    &&& s@.author_did == event.did@
                    &&& s@.status == event.status@
                    &&& s@.created_at == event.created_at@
                    &&& s@.indexed_at.wf()
                },
                Err(Error::InvalidDid(_)) => !is_did(event.did@),
                Err(_) => false,
            },
    {
        Status::from_commit(event, Datetime::now())
    }
}

/// A message of the stream, by its kind.
#[derive(Debug)]
pub enum StreamMessage {
    /// A record was committed.
    Commit(CommitEvent),
    /// A notice on the life of an account.
    Account,
    /// A notice on an identity.
    Identity,
    /// The stream was closed, with the reason where one was given.
    Close(Option<String>),
    /// Anything else.
    Other,
}

/// What handling one message did.
#[derive(Debug)]
pub enum ProcessEffect {
    Ignored,
    ProcessedAccount,
    ProcessedIdentity,
    ProcessedCommit,
    Closed(Option<String>),
}

/// What handling one message did, and the statement that makes the row durable
/// where a row was written.
#[derive(Debug)]
pub struct Processed {
    pub effect: ProcessEffect,
    pub write: Option<Statement>,
}

/// Writes the commit `event`, seen at `now`, to the feed. A commit with a
/// malformed author changes nothing.
pub fn consume(store: &mut StatusStore, event: CommitEvent, now: Datetime) -> (r: Result<
    Statement,
    Error,
>)
    ensures
        final(store).table_name() == old(store).table_name(),
        match r {
            Ok(statement) => {
                &&& is_did(event.did@)
                &&& final(store).rows() == upsert(old(store).rows(), commit_row(event, now))
                &&& statement.text@ == upsert_text(old(store).table_name())
                &&& statement.params() == row_params(commit_row(event, now))
            },
            Err(Error::InvalidDid(_)) => !is_did(event.did@) && final(store).rows() == old(
                store,
            ).rows(),
            Err(_) => false,
        },
{
    match Status::from_commit(event, now) {
        Ok(status) => Ok(store.insert(status)),
        Err(e) => Err(e),
    }
}

/// What handling `message` at the time `now` does to the rows `before` of the
/// table `table`: the rows `after` it and the outcome `r`. A commit in the
/// watched collection is written to the feed; every other message leaves the
/// feed as it is, and so does a commit whose author is malformed, which is the
/// one message that fails.
pub open spec fn handled(
    before: Seq<StatusView>,
    table: Seq<char>,
    message: StreamMessage,
    now: Datetime,
    after: Seq<StatusView>,
    r: Result<Processed, Error>,
) -> bool {
    match message {
        StreamMessage::Commit(event) => if event.collection@ != status_nsid() {
            &&& after == before
            &&& r matches Ok(p)
            &&& p.effect is Ignored
            &&& p.write is None
        } else if is_did(event.did@) {
            &&& after == upsert(before, commit_row(event, now))
            &&& r matches Ok(p)
            &&& p.effect is ProcessedCommit
            &&& p.write matches Some(statement)
            &&& statement.text@ == upsert_text(table)
            &&& statement.params() == row_params(commit_row(event, now))
        } else {
            &&& after == before
            &&& r matches Err(Error::InvalidDid(_))
        },
        StreamMessage::Account => {
            &&& after == before
            &&& r matches Ok(p)
            &&& p.effect is ProcessedAccount
            &&& p.write is None
        },
        StreamMessage::Identity => {
            &&& after == before
            &&& r matches Ok(p)
            &&& p.effect is ProcessedIdentity
            &&& p.write is None
        },
        StreamMessage::Close(reason) => {
            &&& after == before
            &&& r matches Ok(p)
            &&& p.effect == ProcessEffect::Closed(reason)
            &&& p.write is None
        },
        StreamMessage::Other => {
            &&& after == before
            &&& r matches Ok(p)
            &&& p.effect is Ignored
            &&& p.write is None
        },
    }
}

/// Handles one message of the stream at the time `now`, as `handled` states
/// it. This is a model of the sorting that a stream client does: it takes the
/// messages by their kind as `StreamMessage` gives them. A client that sorts
/// its messages itself hands each commit to `consume` and each outcome to
/// `Pipeline::drain`.
pub fn process_message(store: &mut StatusStore, message: StreamMessage, now: Datetime) -> (r:
    Result<Processed, Error>)
    ensures
        final(store).table_name() == old(store).table_name(),
        handled(old(store).rows(), old(store).table_name(), message, now, final(store).rows(), r),
{
    match message {
        StreamMessage::Commit(event) => {
            if !same_text(event.collection.as_str(), watched_collection()) {
                return Ok(Processed { effect: ProcessEffect::Ignored, write: None });
            }
            match consume(store, event, now) {
                Ok(statement) => Ok(
                    Processed { effect: ProcessEffect::ProcessedCommit, write: Some(statement) },
                ),
                Err(e) => Err(e),
            }
        },
        StreamMessage::Account => Ok(
            Processed { effect: ProcessEffect::ProcessedAccount, write: None },
        ),
        StreamMessage::Identity => Ok(
            Processed { effect: ProcessEffect::ProcessedIdentity, write: None },
        ),
        StreamMessage::Close(reason) => Ok(
            Processed { effect: ProcessEffect::Closed(reason), write: None },
        ),
        StreamMessage::Other => Ok(Processed { effect: ProcessEffect::Ignored, write: None }),
    }
}

/// Where the stream is read from at its start: thirty minutes before `now_micros`,
/// both in microseconds since the epoch.
pub fn starting_cursor(now_micros: u64) -> (cursor: u64)
    requires
        now_micros >= BACKFILL_MICROS,
    ensures
        cursor == now_micros - BACKFILL_MICROS,
{
    now_micros - BACKFILL_MICROS
}

/// What the pipeline asks of the stream: the commits of one collection from a
/// cursor on, compressed.
#[derive(Debug)]
pub struct Subscription {
    pub collection: String,
    pub cursor: u64,
    pub compress: bool,
}

/// Where the pipeline stands.
#[derive(Clone, Copy, Debug, PartialEq, Eq, Structural)]
pub enum PipelineState {
    /// Not started yet.
    Disconnected,
    /// Subscribed and taking messages.
    Streaming,
    /// Ended. Nothing leaves this state: the pipeline does not reconnect.
    Closed,
}

/// The state machine of the pipeline.
#[derive(Debug)]
pub struct Pipeline {
    state: PipelineState,
}

/// The line that is logged after a message was handled with `outcome`, if any.
pub open spec fn drain_log(outcome: Result<ProcessEffect, Error>) -> Option<Seq<char>> {
    match outcome {
        Err(e) => Some("error during message processing: "@ + e.text()),
        Ok(ProcessEffect::Closed(Some(reason))) => Some(
            "Jetstream connection closed: "@ + reason@,
        ),
        Ok(ProcessEffect::Closed(None)) => Some("Jetstream connection closed"@),
        Ok(_) => None,
    }
}

/// What one step of the pipeline did: the outcome of the message, and the line
/// that is logged, if any.
#[derive(Debug)]
pub struct Step {
    pub outcome: Result<Processed, Error>,
    pub line: Option<String>,
}

/// The effect of an outcome, without the statement.
pub open spec fn effect_of(outcome: Result<Processed, Error>) -> Result<ProcessEffect, Error> {
    match outcome {
        Ok(p) => Ok(p.effect),
        Err(e) => Err(e),
    }
}

/// The content of a line that may be there.
pub open spec fn line_view(line: Option<String>) -> Option<Seq<char>> {
    match line {
        Some(text) => Some(text@),
        None => None,
    }
}

/// The line that is logged after a message was handled with `outcome`, if any.
fn line_for(outcome: &Result<Processed, Error>) -> (line: Option<String>)
    ensures
        line_view(line) == drain_log(effect_of(*outcome)),
{
    match outcome {
        Err(e) => {
            let text = e.message();
            Some(prefixed("error during message processing: ", text.as_str()))
        },
        Ok(p) => match &p.effect {
            ProcessEffect::Closed(Some(reason)) => Some(
                prefixed("Jetstream connection closed: ", reason.as_str()),
            ),
            ProcessEffect::Closed(None) => Some("Jetstream connection closed".to_owned()),
            _ => None,
        },
    }
}

impl Pipeline {
    /// Where the pipeline stands.
    pub closed spec fn state(&self) -> PipelineState {
        self.state
    }

    /// A pipeline that has not started.
    pub fn new() -> (pipeline: Pipeline)
        ensures
            pipeline.state() == PipelineState::Disconnected,
    {
        Pipeline { state: PipelineState::Disconnected }
    }

    /// Where the pipeline stands.
    pub fn current(&self) -> (state: PipelineState)
        ensures
            state == self.state(),
    {
        self.state
    }

    /// Starts the pipeline at the time `now_micros`: a pipeline that has not
    /// started begins to stream and asks for the watched collection from
    /// thirty minutes back. One that streams or has ended is left as it is
    /// and asks for nothing.
    pub fn connect(&mut self, now_micros: u64) -> (subscription: Option<Subscription>)
        requires
            now_micros >= BACKFILL_MICROS,
        ensures
            old(self).state() == PipelineState::Disconnected ==> {
                &&& final(self).state() == PipelineState::Streaming
                &&& subscription matches Some(s)
                &&& s.collection@ == status_nsid()
                &&& s.cursor == now_micros - BACKFILL_MICROS
                &&& s.compress
            },
            old(self).state() != PipelineState::Disconnected ==> {
                &&& final(self).state() == old(self).state()
                &&& subscription is None
            },
    {
        match self.state {
            PipelineState::Disconnected => {
                self.state = PipelineState::Streaming;
                Some(
                    Subscription {
                        collection: watched_collection().to_owned(),
                        cursor: starting_cursor(now_micros),
                        compress: true,
                    },
                )
            },
            _ => None,
        }
    }

    /// Takes the outcome of one handled message. While the pipeline streams, a
    /// failure is logged and the pipeline goes on, a closed stream is logged
    /// and ends the pipeline, and everything else passes in silence. A
    /// pipeline that does not stream takes no notice.
    pub fn drain(&mut self, outcome: Result<ProcessEffect, Error>) -> (line: Option<String>)
        ensures
            old(self).state() == PipelineState::Streaming ==> {
                &&& line_view(line) == drain_log(outcome)
                &&& final(self).state() == if outcome matches Ok(ProcessEffect::Closed(_)) {
                    PipelineState::Closed
                } else {
                    PipelineState::Streaming
                }
            },
            old(self).state() != PipelineState::Streaming ==> {
                &&& line is None
                &&& final(self).state() == old(self).state()
            },
    {
        match self.state {
            PipelineState::Streaming => {},
            _ => {
                return None;
            },
        }
        let outcome = match outcome {
            Ok(effect) => Ok(Processed { effect, write: None }),
            Err(e) => Err(e),
        };
        let line = line_for(&outcome);
        match outcome {
            Ok(Processed { effect: ProcessEffect::Closed(_), .. }) => {
                self.state = PipelineState::Closed;
            },
            _ => {},
        }
        line
    }

    /// One step of the pipeline: handles `message` at the time `now` and takes
    /// its outcome. While the pipeline streams, the message is handled as
    /// `handled` states it, its outcome is logged as `drain_log` states it,
    /// and a closed stream ends the pipeline. A pipeline that has not started
    /// or has ended refuses the message: nothing is written and nothing is
    /// logged.
    pub fn handle(&mut self, store: &mut StatusStore, message: StreamMessage, now: Datetime) -> (step:
        Option<Step>)
        ensures
            final(store).table_name() == old(store).table_name(),
            old(self).state() != PipelineState::Streaming ==> {
                &&& step is None
                &&& final(self).state() == old(self).state()
                &&& final(store).rows() == old(store).rows()
            },
            old(self).state() == PipelineState::Streaming ==> {
                &&& step matches Some(s)
                &&& handled(
                    old(store).rows(),
                    old(store).table_name(),
                    message,
                    now,
                    final(store).rows(),
                    s.outcome,
                )
                &&& line_view(s.line) == drain_log(effect_of(s.outcome))
                &&& final(self).state() == if message is Close {
                    PipelineState::Closed
                } else {
                    PipelineState::Streaming
                }
            },
    {
        match self.state {
            PipelineState::Streaming => {},
            _ => {
                return None;
            },
        }
        let outcome = process_message(store, message, now);
        let line = line_for(&outcome);
        match &outcome {
            Ok(Processed { effect: ProcessEffect::Closed(_), .. }) => {
                self.state = PipelineState::Closed;
            },
            _ => {},
        }
        Some(Step { outcome, line })
    }

    /// Takes the end of the connection, with the failure where it failed: a
    /// failure is logged. The pipeline stays where it is, so that the messages
    /// that are queued are still handled; it ends when the stream is closed or
    /// the queue has run out.
    pub fn connection_ended(&self, failure: Option<String>) -> (line: Option<String>)
        ensures
            match failure {
                Some(e) => line matches Some(text) && text@ == "Jetstream connection failed: "@
                    + e@,
                None => line is None,
            },
    {
        match failure {
            Some(e) => Some(prefixed("Jetstream connection failed: ", e.as_str())),
            None => None,
        }
    }

    /// Takes the end of the queue: no message is left and none will come. A
    /// pipeline that streams ends; one that has not started or has ended stays
    /// where it is.
    pub fn queue_ended(&mut self)
        ensures
            final(self).state() == if old(self).state() == PipelineState::Streaming {
                PipelineState::Closed
            } else {
                old(self).state()
            },
    {
        match self.state {
            PipelineState::Streaming => {
                self.state = PipelineState::Closed;
            },
            _ => {},
        }
    }
}

/// Starts a pipeline at the time `now_micros`: it streams, and asks for the
/// watched collection from thirty minutes back.
pub fn ingester(now_micros: u64) -> (started: (Pipeline, Subscription))
    requires
        now_micros >= BACKFILL_MICROS,
    ensures
        started.0.state() == PipelineState::Streaming,
        started.1.collection@ == status_nsid(),
        started.1.cursor == now_micros - BACKFILL_MICROS,
        started.1.compress,
{
    let mut pipeline = Pipeline::new();
    match pipeline.connect(now_micros) {
        Some(subscription) => (pipeline, subscription),
        None => vstd::pervasive::unreached(),
    }
}

} // verus!
