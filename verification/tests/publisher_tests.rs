use statusphere::error::Error;
use statusphere::ingester::{process_message, CommitEvent, ProcessEffect, StreamMessage};
use statusphere::status::{
    draft_record, finish_mirror, finish_post, mirror_status, mirrored, post_status, LoginInput,
    PostStep,
};
use statusphere::store::StatusStore;
use statusphere::types::{Datetime, Did};

fn at(text: &str) -> Datetime {
    Datetime::parse(text).expect("timestamp")
}

fn alice() -> Did {
    Did::new("did:example:alice".to_owned()).expect("did")
}

const URI: &str = "at://did:example:alice/xyz.statusphere.status/3kabc";

#[test]
fn posting_without_a_session_is_refused() {
    let step = post_status(None, LoginInput { status: "🚀".to_owned() });
    assert!(matches!(step, PostStep::LoggedOut(target) if target == "/?error=logged_out"));
}

#[test]
fn posting_drafts_a_record_for_the_own_repository() {
    let before = Datetime::now();
    let step = post_status(Some(alice()), LoginInput { status: "🚀".to_owned() });
    let PostStep::CreateRecord(draft) = step else {
        panic!("a session posts");
    };
    assert_eq!(draft.collection, "xyz.statusphere.status");
    assert_eq!(draft.repo.as_str(), "did:example:alice");
    assert_eq!(draft.status, "🚀");
    assert_eq!(draft.rkey.len(), 13);
    assert!(!draft.created_at.before(&before));
}

#[test]
fn draft_record_takes_what_it_is_given() {
    let draft = draft_record(
        alice(),
        LoginInput { status: "🦀".to_owned() },
        "3kabc".to_owned(),
        at("2024-01-05T00:00:00Z"),
    );
    assert_eq!(draft.collection, "xyz.statusphere.status");
    assert_eq!(draft.repo.as_str(), "did:example:alice");
    assert_eq!(draft.rkey, "3kabc");
    assert_eq!(draft.status, "🦀");
    assert_eq!(draft.created_at.as_str(), "2024-01-05T00:00:00Z");
}

#[test]
fn a_failed_remote_write_mirrors_nothing() {
    let mut store = StatusStore::new("status").unwrap();
    let draft = draft_record(alice(), LoginInput { status: "🚀".to_owned() }, "k".to_owned(), at("2024-01-05T00:00:00Z"));
    let r = mirror_status(&mut store, draft, Err("upstream said no".to_owned()), at("2024-01-05T00:00:01Z"));
    assert!(matches!(&r, Err(Error::RecordCreate(e)) if e == "upstream said no"));
    assert_eq!(r.unwrap_err().message(), "atproto record create: upstream said no");
    assert_eq!(store.len(), 0);
}

#[test]
fn a_successful_remote_write_is_mirrored() {
    let mut store = StatusStore::new("status").unwrap();
    let draft = draft_record(alice(), LoginInput { status: "🚀".to_owned() }, "3kabc".to_owned(), at("2024-01-05T00:00:00Z"));
    let published = mirror_status(&mut store, draft, Ok(URI.to_owned()), at("2024-01-05T00:00:01Z")).expect("mirrored");
    assert_eq!(published.redirect, "/");
    assert_eq!(
        published.write.params,
        vec![URI, "did:example:alice", "🚀", "2024-01-05T00:00:00Z", "2024-01-05T00:00:01Z"]
    );
    let rows = store.fetch_n(None, 10);
    assert_eq!(rows.len(), 1);
    assert_eq!(rows[0].uri, URI);
    assert_eq!(rows[0].author_did.as_str(), "did:example:alice");
    assert_eq!(rows[0].status, "🚀");
    assert_eq!(rows[0].created_at.as_str(), "2024-01-05T00:00:00Z");
    assert_eq!(rows[0].indexed_at.as_str(), "2024-01-05T00:00:01Z");
}

#[test]
fn finish_post_indexes_at_the_current_time() {
    let mut store = StatusStore::new("status").unwrap();
    let before = Datetime::now();
    let draft = draft_record(alice(), LoginInput { status: "🚀".to_owned() }, "k".to_owned(), at("2024-01-05T00:00:00Z"));
    let published = finish_post(&mut store, draft, Ok(URI.to_owned())).expect("mirrored");
    assert_eq!(published.redirect, "/");
    let row = store.fetch_one(None).expect("one row");
    assert!(!row.indexed_at.before(&before));
    let draft = draft_record(alice(), LoginInput { status: "x".to_owned() }, "k".to_owned(), at("2024-01-05T00:00:00Z"));
    assert!(finish_post(&mut store, draft, Err("no".to_owned())).is_err());
    assert_eq!(store.len(), 1);
}

#[test]
fn dual_write_converges() {
    let mut store = StatusStore::new("status").unwrap();
    let draft = draft_record(alice(), LoginInput { status: "A".to_owned() }, "3kabc".to_owned(), at("2024-01-05T00:00:00Z"));
    mirror_status(&mut store, draft, Ok(URI.to_owned()), at("2024-01-05T00:00:01Z")).expect("mirrored");
    let event = CommitEvent {
        did: "did:example:alice".to_owned(),
        collection: "xyz.statusphere.status".to_owned(),
        rkey: "3kabc".to_owned(),
        status: "A".to_owned(),
        created_at: at("2024-01-05T00:00:00Z"),
    };
    let done = process_message(&mut store, StreamMessage::Commit(event), at("2024-01-05T00:00:03Z")).expect("ingested");
    assert!(matches!(done.effect, ProcessEffect::ProcessedCommit));
    assert_eq!(store.len(), 1);
    let rows = store.fetch_n(None, 10);
    assert_eq!(rows.len(), 1);
    assert_eq!(rows[0].uri, URI);
    assert_eq!(rows[0].status, "A");
    assert_eq!(rows[0].indexed_at.as_str(), "2024-01-05T00:00:03Z");
}

#[test]
fn publish_then_read_then_network_event() {
    let mut store = StatusStore::new("status").unwrap();
    let step = post_status(Some(alice()), LoginInput { status: "🚀".to_owned() });
    let PostStep::CreateRecord(draft) = step else {
        panic!("a session posts");
    };
    let rkey = draft.rkey.clone();
    let created_at = draft.created_at.clone();
    let uri = format!("at://did:example:alice/xyz.statusphere.status/{rkey}");
    finish_post(&mut store, draft, Ok(uri.clone())).expect("mirrored");

    let feed = store.fetch_n(None, 10);
    assert_eq!(feed.len(), 1);
    assert_eq!(feed[0].author_did.as_str(), "did:example:alice");
    assert_eq!(feed[0].status, "🚀");

    let event = CommitEvent {
        did: "did:example:alice".to_owned(),
        collection: "xyz.statusphere.status".to_owned(),
        rkey,
        status: "🚀".to_owned(),
        created_at,
    };
    process_message(&mut store, StreamMessage::Commit(event), Datetime::now()).expect("ingested");
    let feed = store.fetch_n(None, 10);
    assert_eq!(feed.iter().filter(|s| s.uri == uri).count(), 1);
    assert_eq!(feed.len(), 1);
    assert_eq!(feed[0].status, "🚀");
}

#[test]
fn mirrored_builds_the_row_and_touches_no_store() {
    let draft = draft_record(alice(), LoginInput { status: "🚀".to_owned() }, "3kabc".to_owned(), at("2024-01-05T00:00:00Z"));
    let status = mirrored(draft, Ok(URI.to_owned()), at("2024-01-05T00:00:01Z")).expect("mirrored");
    assert_eq!(status.uri, URI);
    assert_eq!(status.author_did.as_str(), "did:example:alice");
    assert_eq!(status.status, "🚀");
    assert_eq!(status.created_at.as_str(), "2024-01-05T00:00:00Z");
    assert_eq!(status.indexed_at.as_str(), "2024-01-05T00:00:01Z");

    let draft = draft_record(alice(), LoginInput { status: "🚀".to_owned() }, "3kabc".to_owned(), at("2024-01-05T00:00:00Z"));
    let r = mirrored(draft, Err("upstream said no".to_owned()), at("2024-01-05T00:00:01Z"));
    assert!(matches!(r, Err(Error::RecordCreate(e)) if e == "upstream said no"));
}

#[test]
fn the_row_is_made_durable_before_it_is_written() {
    let mut store = StatusStore::new("status").unwrap();
    let draft = draft_record(alice(), LoginInput { status: "🚀".to_owned() }, "3kabc".to_owned(), at("2024-01-05T00:00:00Z"));
    let status = mirrored(draft, Ok(URI.to_owned()), at("2024-01-05T00:00:01Z")).expect("mirrored");
    let statement = store.upsert_statement(&status);
    assert_eq!(
        statement.params,
        vec![URI, "did:example:alice", "🚀", "2024-01-05T00:00:00Z", "2024-01-05T00:00:01Z"]
    );
    assert_eq!(store.len(), 0);
    store.insert(status);
    let rows = store.fetch_n(None, 10);
    assert_eq!(rows.len(), 1);
    assert_eq!(rows[0].uri, URI);
}

#[test]
fn a_failed_local_write_fails_the_operation() {
    let mut store = StatusStore::new("status").unwrap();
    let draft = draft_record(alice(), LoginInput { status: "🚀".to_owned() }, "3kabc".to_owned(), at("2024-01-05T00:00:00Z"));
    let status = mirrored(draft, Ok(URI.to_owned()), at("2024-01-05T00:00:01Z")).expect("mirrored");
    let r = finish_mirror(&mut store, status, Err("database is locked".to_owned()));
    assert!(matches!(
        &r,
        Err(Error::Storage(statusphere::store::Error::InsertFailed(e))) if e == "database is locked"
    ));
    assert_eq!(r.unwrap_err().message(), "storage: insert: database is locked");
    assert_eq!(store.len(), 0);

    let draft = draft_record(alice(), LoginInput { status: "🚀".to_owned() }, "3kabc".to_owned(), at("2024-01-05T00:00:00Z"));
    let status = mirrored(draft, Ok(URI.to_owned()), at("2024-01-05T00:00:01Z")).expect("mirrored");
    assert_eq!(finish_mirror(&mut store, status, Ok(())).expect("written"), "/");
    assert_eq!(store.len(), 1);
    assert_eq!(store.fetch_n(None, 10)[0].status, "🚀");
}
