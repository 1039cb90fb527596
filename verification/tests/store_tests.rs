use statusphere::store::{is_valid_table_name, Error, Status, StatusStore};
use statusphere::text::decimal;
use statusphere::types::{Datetime, Did};

fn status(uri: &str, author: &str, text: &str, created: &str, indexed: &str) -> Status {
    Status {
        uri: uri.to_owned(),
        author_did: Did::new(author.to_owned()).expect("author"),
        status: text.to_owned(),
        created_at: Datetime::parse(created).expect("created_at"),
        indexed_at: Datetime::parse(indexed).expect("indexed_at"),
    }
}

fn uris(rows: &[Status]) -> Vec<&str> {
    rows.iter().map(|s| s.uri.as_str()).collect()
}

const ALICE: &str = "did:example:alice";
const BOB: &str = "did:example:bob";

#[test]
fn table_names_are_validated() {
    assert!(is_valid_table_name("status"));
    assert!(is_valid_table_name("oauth_session"));
    assert!(is_valid_table_name("a1_b2"));
    assert!(is_valid_table_name("Z"));
    assert!(!is_valid_table_name(""));
    assert!(!is_valid_table_name("1status"));
    assert!(!is_valid_table_name("status table"));
    assert!(!is_valid_table_name("_status"));
    assert!(!is_valid_table_name("status;drop"));
    assert!(!is_valid_table_name("stätus"));
    assert!(!is_valid_table_name("status\""));
}

#[test]
fn store_refuses_invalid_table_names() {
    assert!(matches!(StatusStore::new(""), Err(Error::InvalidTableName(n)) if n.is_empty()));
    assert!(matches!(StatusStore::new("9lives"), Err(Error::InvalidTableName(n)) if n == "9lives"));
    assert!(matches!(StatusStore::new("a b"), Err(Error::InvalidTableName(n)) if n == "a b"));
    let store = StatusStore::new("status").expect("valid");
    assert_eq!(store.len(), 0);
}

#[test]
fn statements_splice_the_table_name() {
    let mut store = StatusStore::new("status").expect("valid");
    assert_eq!(
        store.migrate(),
        "create table if not exists status (uri text primary key, author_did text not null, status text not null, created_at text not null, indexed_at text not null)"
    );
    assert_eq!(
        store.select(),
        "select uri, author_did, status, created_at, indexed_at from status"
    );
    let statement = store.insert(status(
        "at://did:example:alice/xyz.statusphere.status/1",
        ALICE,
        "A",
        "2024-01-01T00:00:00Z",
        "2024-01-01T00:00:01Z",
    ));
    assert_eq!(
        statement.text,
        "insert into status (uri, author_did, status, created_at, indexed_at) values (?, ?, ?, ?, ?) on conflict(uri) do update set author_did = excluded.author_did, status = excluded.status, created_at = excluded.created_at, indexed_at = excluded.indexed_at"
    );
    assert_eq!(
        statement.params,
        vec![
            "at://did:example:alice/xyz.statusphere.status/1",
            ALICE,
            "A",
            "2024-01-01T00:00:00Z",
            "2024-01-01T00:00:01Z",
        ]
    );
}

#[test]
fn upsert_keeps_one_row_per_uri() {
    let mut store = StatusStore::new("status").expect("store");
    store.insert(status("at://a/1", ALICE, "A", "2024-01-01T00:00:00Z", "2024-01-01T00:00:01Z"));
    store.insert(status("at://a/1", BOB, "B", "2024-01-02T00:00:00Z", "2024-01-01T00:00:02Z"));
    assert_eq!(store.len(), 1);
    let rows = store.fetch_n(None, 10);
    assert_eq!(rows.len(), 1);
    assert_eq!(rows[0].status, "B");
    assert_eq!(rows[0].author_did.as_str(), BOB);
    assert_eq!(rows[0].created_at.as_str(), "2024-01-02T00:00:00Z");
    assert_eq!(rows[0].indexed_at.as_str(), "2024-01-01T00:00:02Z");
}

#[test]
fn upsert_with_an_earlier_time_still_wins() {
    let mut store = StatusStore::new("status").expect("store");
    store.insert(status("at://a/1", ALICE, "late", "2024-01-01T00:00:00Z", "2024-01-09T00:00:00Z"));
    store.insert(status("at://a/2", ALICE, "mid", "2024-01-01T00:00:00Z", "2024-01-05T00:00:00Z"));
    store.insert(status("at://a/1", ALICE, "early", "2024-01-01T00:00:00Z", "2024-01-02T00:00:00Z"));
    let rows = store.fetch_n(None, 10);
    assert_eq!(uris(&rows), vec!["at://a/2", "at://a/1"]);
    assert_eq!(rows[1].status, "early");
}

#[test]
fn fetch_orders_by_indexed_at_descending() {
    let mut store = StatusStore::new("status").expect("store");
    let times = [
        ("at://a/3", "2024-01-03T00:00:00Z"),
        ("at://a/1", "2024-01-01T00:00:00Z"),
        ("at://a/5", "2024-01-05T00:00:00Z"),
        ("at://a/2", "2024-01-02T00:00:00Z"),
        ("at://a/4", "2024-01-04T00:00:00Z"),
    ];
    for (uri, at) in times {
        store.insert(status(uri, ALICE, "x", "2030-01-01T00:00:00Z", at));
    }
    let all = store.fetch_n(None, 10);
    assert_eq!(uris(&all), vec!["at://a/5", "at://a/4", "at://a/3", "at://a/2", "at://a/1"]);
    for pair in all.windows(2) {
        assert!(pair[1].indexed_at.before(&pair[0].indexed_at));
    }
    let top = store.fetch_n(None, 2);
    assert_eq!(uris(&top), vec!["at://a/5", "at://a/4"]);
    assert!(store.fetch_n(None, 0).is_empty());
    assert_eq!(store.fetch_n(None, 5).len(), 5);
}

#[test]
fn fetch_ignores_created_at() {
    let mut store = StatusStore::new("status").expect("store");
    store.insert(status("at://a/old", ALICE, "x", "2099-01-01T00:00:00Z", "2024-01-01T00:00:00Z"));
    store.insert(status("at://a/new", ALICE, "y", "1999-01-01T00:00:00Z", "2024-01-02T00:00:00Z"));
    assert_eq!(uris(&store.fetch_n(None, 10)), vec!["at://a/new", "at://a/old"]);
}

#[test]
fn fetch_orders_by_instant_not_by_text() {
    let mut store = StatusStore::new("status").expect("store");
    store.insert(status("at://a/utc", ALICE, "x", "2024-01-01T00:00:00Z", "2024-01-01T10:00:00Z"));
    store.insert(status("at://a/east", ALICE, "y", "2024-01-01T00:00:00Z", "2024-01-01T11:00:00+02:00"));
    assert_eq!(uris(&store.fetch_n(None, 10)), vec!["at://a/utc", "at://a/east"]);
}

#[test]
fn ties_put_the_later_write_first() {
    let mut store = StatusStore::new("status").expect("store");
    store.insert(status("at://a/1", ALICE, "x", "2024-01-01T00:00:00Z", "2024-01-01T00:00:00Z"));
    store.insert(status("at://a/2", ALICE, "y", "2024-01-01T00:00:00Z", "2024-01-01T00:00:00Z"));
    let first = store.fetch_n(None, 10);
    assert_eq!(uris(&first), vec!["at://a/2", "at://a/1"]);
    assert_eq!(uris(&store.fetch_n(None, 10)), uris(&first));
}

#[test]
fn fetch_restricts_to_one_author() {
    let mut store = StatusStore::new("status").expect("store");
    store.insert(status("at://a/1", ALICE, "a1", "2024-01-01T00:00:00Z", "2024-01-01T00:00:00Z"));
    store.insert(status("at://b/1", BOB, "b1", "2024-01-01T00:00:00Z", "2024-01-02T00:00:00Z"));
    store.insert(status("at://a/2", ALICE, "a2", "2024-01-01T00:00:00Z", "2024-01-03T00:00:00Z"));
    store.insert(status("at://b/2", BOB, "b2", "2024-01-01T00:00:00Z", "2024-01-04T00:00:00Z"));
    let alice = Did::new(ALICE.to_owned()).unwrap();
    let rows = store.fetch_n(Some(alice.clone()), 10);
    assert_eq!(uris(&rows), vec!["at://a/2", "at://a/1"]);
    assert_eq!(uris(&store.fetch_n(Some(alice.clone()), 1)), vec!["at://a/2"]);
    let carol = Did::new("did:example:carol".to_owned()).unwrap();
    assert!(store.fetch_n(Some(carol.clone()), 10).is_empty());
    assert_eq!(store.fetch_one(Some(alice)).map(|s| s.status), Some("a2".to_owned()));
    assert_eq!(store.fetch_one(None).map(|s| s.status), Some("b2".to_owned()));
    assert!(store.fetch_one(Some(carol)).is_none());
}

#[test]
fn fetch_one_of_an_empty_store_is_absent() {
    let store = StatusStore::new("status").expect("store");
    assert!(store.fetch_one(None).is_none());
    assert!(store.fetch_n(None, 3).is_empty());
}

#[test]
fn from_row_builds_a_status() {
    let row = Status::from_row(
        "at://a/1".to_owned(),
        ALICE.to_owned(),
        "🚀".to_owned(),
        "2024-01-05T00:00:00Z",
        "2024-01-03T00:00:00.5Z",
    )
    .expect("valid row");
    assert_eq!(row.uri, "at://a/1");
    assert_eq!(row.author_did.as_str(), ALICE);
    assert_eq!(row.status, "🚀");
    assert_eq!(row.created_at.seconds(), 1_704_412_800);
    assert_eq!(row.indexed_at.seconds(), 1_704_240_000);
    assert_eq!(row.indexed_at.subsec_nanos(), 500_000_000);
    assert_eq!(
        row.to_row(),
        vec!["at://a/1", ALICE, "🚀", "2024-01-05T00:00:00Z", "2024-01-03T00:00:00.5Z"]
    );
}

#[test]
fn from_row_refuses_a_bad_column() {
    let bad_did = Status::from_row(
        "u".to_owned(),
        "alice".to_owned(),
        "s".to_owned(),
        "nope",
        "nope",
    );
    assert!(matches!(bad_did, Err(Error::InvalidDid("Invalid DID"))));
    let bad_created = Status::from_row(
        "u".to_owned(),
        ALICE.to_owned(),
        "s".to_owned(),
        "yesterday",
        "also bad",
    );
    assert!(matches!(bad_created, Err(Error::InvalidDatetime(t)) if t == "yesterday"));
    let bad_indexed = Status::from_row(
        "u".to_owned(),
        ALICE.to_owned(),
        "s".to_owned(),
        "2024-01-05T00:00:00Z",
        "tomorrow",
    );
    assert!(matches!(bad_indexed, Err(Error::InvalidDatetime(t)) if t == "tomorrow"));
}

#[test]
fn a_row_read_back_is_the_row_written() {
    let written = status("at://a/1", ALICE, "A", "2024-01-01T00:00:00Z", "2024-01-01T00:00:01.25Z");
    let mut columns = written.to_row().into_iter();
    let read = Status::from_row(
        columns.next().unwrap(),
        columns.next().unwrap(),
        columns.next().unwrap(),
        &columns.next().unwrap(),
        &columns.next().unwrap(),
    )
    .expect("a written row reads back");
    assert_eq!(read.to_row(), written.to_row());
    assert_eq!(read.indexed_at.seconds(), written.indexed_at.seconds());
    assert_eq!(read.indexed_at.subsec_nanos(), written.indexed_at.subsec_nanos());
}

#[test]
fn store_error_messages() {
    assert_eq!(
        Error::InvalidTableName("a b".to_owned()).message(),
        "invalid table name 'a b': table names should start with an alphabetic character, followed by alphanumeric and underscore characters"
    );
    assert_eq!(Error::MigrationFailed("x".to_owned()).message(), "migration: x");
    assert_eq!(Error::InsertFailed("x".to_owned()).message(), "insert: x");
    assert_eq!(Error::SelectFailed("x".to_owned()).message(), "select: x");
    assert_eq!(Error::DeleteFailed("x".to_owned()).message(), "delete: x");
    assert_eq!(Error::DeleteAllFailed("x".to_owned()).message(), "delete all: x");
    assert_eq!(Error::InvalidDid("Invalid DID").message(), "invalid did: Invalid DID");
    assert_eq!(Error::InvalidDatetime("x".to_owned()).message(), "invalid datetime: x");
    assert_eq!(Error::Deserialization("x".to_owned()).message(), "deserialization: x");
    assert_eq!(Error::Serialization("x".to_owned()).message(), "serialization: x");
}

#[test]
fn the_statement_of_a_write_leaves_the_store_as_it_is() {
    let mut store = StatusStore::new("status").expect("valid");
    let row = status(
        "at://did:example:alice/xyz.statusphere.status/1",
        ALICE,
        "A",
        "2024-01-01T00:00:00Z",
        "2024-01-01T00:00:01Z",
    );
    let statement = store.upsert_statement(&row);
    assert_eq!(
        statement.text,
        "insert into status (uri, author_did, status, created_at, indexed_at) values (?, ?, ?, ?, ?) on conflict(uri) do update set author_did = excluded.author_did, status = excluded.status, created_at = excluded.created_at, indexed_at = excluded.indexed_at"
    );
    assert_eq!(
        statement.params,
        vec![
            "at://did:example:alice/xyz.statusphere.status/1",
            ALICE,
            "A",
            "2024-01-01T00:00:00Z",
            "2024-01-01T00:00:01Z",
        ]
    );
    assert_eq!(store.len(), 0);
    assert!(store.fetch_one(None).is_none());
    let written = store.insert(row);
    assert_eq!(written.text, statement.text);
    assert_eq!(written.params, statement.params);
    assert_eq!(store.len(), 1);
}

#[test]
fn numbers_are_written_in_decimal() {
    assert_eq!(decimal(0), "0");
    assert_eq!(decimal(7), "7");
    assert_eq!(decimal(9), "9");
    assert_eq!(decimal(10), "10");
    assert_eq!(decimal(11), "11");
    assert_eq!(decimal(109), "109");
    assert_eq!(decimal(1_234_567_890), "1234567890");
    assert_eq!(decimal(usize::MAX), usize::MAX.to_string());
}

#[test]
fn the_read_statement_binds_the_author_and_states_the_limit() {
    let store = StatusStore::new("status").expect("valid");
    let all = store.fetch_statement(None, 10);
    assert_eq!(
        all.text,
        "select uri, author_did, status, created_at, indexed_at from status order by indexed_at desc limit 10"
    );
    assert!(all.params.is_empty());

    let author = Did::new(ALICE.to_owned()).expect("did");
    let own = store.fetch_statement(Some(author), 1);
    assert_eq!(
        own.text,
        "select uri, author_did, status, created_at, indexed_at from status where author_did = ? order by indexed_at desc limit 1"
    );
    assert_eq!(own.params, vec![ALICE]);
    assert!(!own.text.contains(ALICE));

    let other = StatusStore::new("feed_2").expect("valid");
    assert_eq!(
        other.fetch_statement(None, 0).text,
        "select uri, author_did, status, created_at, indexed_at from feed_2 order by indexed_at desc limit 0"
    );
}

#[test]
fn a_failed_write_leaves_the_table_as_it_is() {
    let mut store = StatusStore::new("status").expect("valid");
    let row = || {
        status(
            "at://did:example:alice/xyz.statusphere.status/1",
            ALICE,
            "A",
            "2024-01-01T00:00:00Z",
            "2024-01-01T00:00:01Z",
        )
    };
    let r = store.finish_insert(row(), Err("database is locked".to_owned()));
    assert!(matches!(&r, Err(Error::InsertFailed(e)) if e == "database is locked"));
    assert_eq!(r.unwrap_err().message(), "insert: database is locked");
    assert_eq!(store.len(), 0);
    assert!(store.finish_insert(row(), Ok(())).is_ok());
    assert_eq!(store.len(), 1);
    assert_eq!(store.fetch_one(None).expect("written").status, "A");
}

#[test]
fn the_newest_write_is_read_first() {
    let mut store = StatusStore::new("status").expect("valid");
    for (i, at) in ["2024-01-01T00:00:01Z", "2024-01-01T00:00:03Z", "2024-01-01T00:00:02Z"]
        .iter()
        .enumerate()
    {
        store.insert(status(&format!("at://did:example:bob/xyz.statusphere.status/{i}"), BOB, "B", at, at));
    }
    store.insert(status(
        "at://did:example:alice/xyz.statusphere.status/1",
        ALICE,
        "A",
        "2024-01-01T00:00:00Z",
        "2024-01-01T00:00:04Z",
    ));
    assert_eq!(store.fetch_n(None, 1)[0].status, "A");
    assert_eq!(store.fetch_n(None, 10)[0].status, "A");
    let author = Did::new(ALICE.to_owned()).expect("did");
    assert_eq!(store.fetch_one(Some(author)).expect("written").status, "A");

    store.insert(status(
        "at://did:example:alice/xyz.statusphere.status/2",
        ALICE,
        "late",
        "2024-01-01T00:00:00Z",
        "2024-01-01T00:00:02.5Z",
    ));
    let rows = store.fetch_n(None, 10);
    assert_eq!(uris(&rows)[2], "at://did:example:alice/xyz.statusphere.status/2");
    assert_eq!(store.fetch_n(None, 3).len(), 3);
    assert_eq!(store.fetch_n(None, 3)[2].status, "late");
    assert!(store.fetch_n(None, 2).iter().all(|row| row.status != "late"));
}
