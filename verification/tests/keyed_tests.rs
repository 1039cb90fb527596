use atrium_oauth::store::session::Session;
use atrium_oauth::store::state::InternalStateData;
use statusphere::keyed::{
    decoded, encoded, encoded_statement, KeyedStore, OAuthSessionStore, OAuthStateStore,
};
use statusphere::store::Error;
use statusphere::types::Did;

#[test]
fn keyed_store_validates_both_identities() {
    assert!(KeyedStore::new("oauth_session", "session").is_ok());
    assert!(matches!(KeyedStore::new("", "session"), Err(Error::InvalidTableName(n)) if n.is_empty()));
    assert!(matches!(KeyedStore::new("1x", "session"), Err(Error::InvalidTableName(n)) if n == "1x"));
    assert!(matches!(KeyedStore::new("a b", "session"), Err(Error::InvalidTableName(n)) if n == "a b"));
    assert!(matches!(KeyedStore::new("oauth_state", "st ate"), Err(Error::InvalidTableName(n)) if n == "st ate"));
    assert!(matches!(KeyedStore::new("bad name", "bad col"), Err(Error::InvalidTableName(n)) if n == "bad name"));
}

#[test]
fn keyed_statements() {
    let mut store = KeyedStore::new("oauth_session", "session").unwrap();
    assert_eq!(
        store.migrate(),
        "create table if not exists oauth_session (key text primary key, session text not null)"
    );
    assert_eq!(store.select(), "select key, session from oauth_session");
    let set = store.set("k".to_owned(), "v".to_owned());
    assert_eq!(
        set.text,
        "insert into oauth_session (key, session) values (?, ?) on conflict(key) do update set session = excluded.session"
    );
    assert_eq!(set.params, vec!["k", "v"]);
    let del = store.del("k");
    assert_eq!(del.text, "delete from oauth_session where key = ?");
    assert_eq!(del.params, vec!["k"]);
    assert_eq!(store.clear(), "delete from oauth_session");
}

#[test]
fn set_is_an_upsert() {
    let mut store = KeyedStore::new("oauth_state", "state").unwrap();
    assert_eq!(store.get("a"), None);
    store.set("a".to_owned(), "1".to_owned());
    store.set("b".to_owned(), "2".to_owned());
    assert_eq!(store.get("a").as_deref(), Some("1"));
    assert_eq!(store.get("b").as_deref(), Some("2"));
    store.set("a".to_owned(), "3".to_owned());
    assert_eq!(store.get("a").as_deref(), Some("3"));
    assert_eq!(store.get("b").as_deref(), Some("2"));
    assert_eq!(store.get("A"), None);
}

#[test]
fn del_removes_one_key() {
    let mut store = KeyedStore::new("oauth_state", "state").unwrap();
    store.set("a".to_owned(), "1".to_owned());
    store.set("b".to_owned(), "2".to_owned());
    store.set("c".to_owned(), "3".to_owned());
    store.del("b");
    assert_eq!(store.get("a").as_deref(), Some("1"));
    assert_eq!(store.get("b"), None);
    assert_eq!(store.get("c").as_deref(), Some("3"));
    store.del("missing");
    assert_eq!(store.get("a").as_deref(), Some("1"));
    assert_eq!(store.get("c").as_deref(), Some("3"));
}

#[test]
fn clear_removes_everything() {
    let mut store = KeyedStore::new("oauth_state", "state").unwrap();
    store.set("a".to_owned(), "1".to_owned());
    store.set("b".to_owned(), "2".to_owned());
    store.clear();
    assert_eq!(store.get("a"), None);
    assert_eq!(store.get("b"), None);
    store.set("a".to_owned(), "4".to_owned());
    assert_eq!(store.get("a").as_deref(), Some("4"));
}

const KEY: &str = r#"{"kty":"EC","crv":"P-256","x":"AAAAAAAAAAAAAAAAAAAAAAAAAAAAAAAAAAAAAAAAAAA","y":"AQEBAQEBAQEBAQEBAQEBAQEBAQEBAQEBAQEBAQEBAQE","d":"AgICAgICAgICAgICAgICAgICAgICAgICAgICAgICAgI"}"#;

fn session(access_token: &str) -> Session {
    let text = format!(
        r#"{{"dpop_key":{KEY},"token_set":{{"iss":"https://iss.example.com","sub":"did:example:alice","aud":"https://aud.example.com","scope":null,"refresh_token":"refreshtoken","access_token":"{access_token}","token_type":"DPoP","expires_at":null}}}}"#
    );
    serde_json::from_str(&text).expect("a session")
}

fn flow_state(verifier: &str) -> InternalStateData {
    let text = format!(
        r#"{{"iss":"https://iss.example.com","dpop_key":{KEY},"verifier":"{verifier}","app_state":null}}"#
    );
    serde_json::from_str(&text).expect("a flow state")
}

fn alice() -> Did {
    Did::new("did:example:alice".to_owned()).expect("did")
}

#[test]
fn sessions_are_stored_as_json_under_the_identity() {
    let mut store = OAuthSessionStore::new();
    assert!(matches!(store.get(&alice()), Ok(None)));
    let statement = store.set(alice(), &session("first")).expect("encodes");
    assert_eq!(
        statement.text,
        "insert into oauth_session (key, session) values (?, ?) on conflict(key) do update set session = excluded.session"
    );
    assert_eq!(statement.params.len(), 2);
    assert_eq!(statement.params[0], "did:example:alice");
    let stored = store.entries.get("did:example:alice").expect("stored");
    assert_eq!(stored, statement.params[1]);
    let json: serde_json::Value = serde_json::from_str(&stored).expect("json");
    assert_eq!(json["token_set"]["access_token"], "first");
    assert_eq!(store.get(&alice()).expect("decodes"), Some(session("first")));

    store.set(alice(), &session("second")).expect("encodes");
    assert_eq!(store.get(&alice()).expect("decodes"), Some(session("second")));

    let del = store.del(&alice());
    assert_eq!(del.text, "delete from oauth_session where key = ?");
    assert_eq!(del.params, vec!["did:example:alice"]);
    assert!(matches!(store.get(&alice()), Ok(None)));

    store.set(alice(), &session("third")).expect("encodes");
    assert_eq!(store.clear(), "delete from oauth_session");
    assert!(matches!(store.get(&alice()), Ok(None)));
    assert_eq!(
        store.entries.migrate(),
        "create table if not exists oauth_session (key text primary key, session text not null)"
    );
}

#[test]
fn flow_states_are_stored_as_json_under_the_flow_token() {
    let mut store = OAuthStateStore::new();
    assert!(matches!(store.get("token"), Ok(None)));
    let statement = store.set("token".to_owned(), &flow_state("v1")).expect("encodes");
    assert_eq!(
        statement.text,
        "insert into oauth_state (key, state) values (?, ?) on conflict(key) do update set state = excluded.state"
    );
    assert_eq!(statement.params[0], "token");
    let json: serde_json::Value = serde_json::from_str(&statement.params[1]).expect("json");
    assert_eq!(json["verifier"], "v1");
    assert_eq!(store.get("token").expect("decodes"), Some(flow_state("v1")));
    store.set("token".to_owned(), &flow_state("v2")).expect("encodes");
    assert_eq!(store.get("token").expect("decodes"), Some(flow_state("v2")));
    assert!(matches!(store.get("other"), Ok(None)));
    let del = store.del("token");
    assert_eq!(del.text, "delete from oauth_state where key = ?");
    assert!(matches!(store.get("token"), Ok(None)));
    store.set("a".to_owned(), &flow_state("v3")).expect("encodes");
    assert_eq!(store.clear(), "delete from oauth_state");
    assert!(matches!(store.get("a"), Ok(None)));
    assert_eq!(store.entries.select(), "select key, state from oauth_state");
}

#[test]
fn a_text_that_does_not_decode_is_an_error_of_its_own() {
    let mut sessions = OAuthSessionStore::new();
    sessions.entries.set("did:example:alice".to_owned(), "not json".to_owned());
    assert!(matches!(sessions.get(&alice()), Err(Error::Deserialization(_))));
    sessions.entries.set("did:example:alice".to_owned(), "{\"dpop_key\":1}".to_owned());
    assert!(matches!(sessions.get(&alice()), Err(Error::Deserialization(_))));
    let mut states = OAuthStateStore::new();
    states.entries.set("token".to_owned(), "[]".to_owned());
    assert!(matches!(states.get("token"), Err(Error::Deserialization(_))));
    assert!(matches!(states.get("absent"), Ok(None)));
}

#[test]
fn encoded_puts_the_text_or_changes_nothing() {
    let mut store = KeyedStore::new("oauth_state", "state").unwrap();
    let statement = encoded(&mut store, "k".to_owned(), Ok("1".to_owned())).expect("put");
    assert_eq!(statement.params, vec!["k", "1"]);
    assert_eq!(store.get("k").as_deref(), Some("1"));
    let r = encoded(&mut store, "k".to_owned(), Err("key must be a string".to_owned()));
    assert!(matches!(r, Err(Error::Serialization(e)) if e == "key must be a string"));
    assert_eq!(store.get("k").as_deref(), Some("1"));
}

#[test]
fn decoded_keeps_absent_and_failed_apart() {
    assert!(matches!(decoded::<u32>(None), Ok(None)));
    assert!(matches!(decoded(Some(Ok(7u32))), Ok(Some(7))));
    assert!(matches!(decoded::<u32>(Some(Err("bad".to_owned()))), Err(Error::Deserialization(e)) if e == "bad"));
}

#[test]
fn the_statements_of_changes_leave_the_store_as_it_is() {
    let mut store = KeyedStore::new("oauth_state", "state").unwrap();
    store.set("k".to_owned(), "1".to_owned());
    let set = store.set_statement("k", "2");
    assert_eq!(
        set.text,
        "insert into oauth_state (key, state) values (?, ?) on conflict(key) do update set state = excluded.state"
    );
    assert_eq!(set.params, vec!["k", "2"]);
    let del = store.del_statement("k");
    assert_eq!(del.text, "delete from oauth_state where key = ?");
    assert_eq!(del.params, vec!["k"]);
    assert_eq!(store.clear_statement(), "delete from oauth_state");
    assert_eq!(store.get("k").as_deref(), Some("1"));

    let written = store.set("k".to_owned(), "2".to_owned());
    assert_eq!(written.text, set.text);
    assert_eq!(written.params, set.params);
    assert_eq!(store.get("k").as_deref(), Some("2"));
}

#[test]
fn encoded_statement_gives_the_statement_or_the_error() {
    let store = KeyedStore::new("oauth_session", "session").unwrap();
    let statement = encoded_statement(&store, "k", Ok("1".to_owned())).expect("statement");
    assert_eq!(
        statement.text,
        "insert into oauth_session (key, session) values (?, ?) on conflict(key) do update set session = excluded.session"
    );
    assert_eq!(statement.params, vec!["k", "1"]);
    assert_eq!(store.get("k"), None);
    let r = encoded_statement(&store, "k", Err("key must be a string".to_owned()));
    assert!(matches!(r, Err(Error::Serialization(e)) if e == "key must be a string"));
}

#[test]
fn typed_statements_carry_the_encoded_value() {
    let mut sessions = OAuthSessionStore::new();
    let statement = sessions.set_statement(&alice(), &session("first")).expect("encodes");
    assert_eq!(statement.params.len(), 2);
    assert_eq!(statement.params[0], "did:example:alice");
    let json: serde_json::Value = serde_json::from_str(&statement.params[1]).expect("json");
    assert_eq!(json["token_set"]["access_token"], "first");
    assert!(matches!(sessions.get(&alice()), Ok(None)));
    let written = sessions.set(alice(), &session("first")).expect("encodes");
    assert_eq!(written.text, statement.text);
    assert_eq!(written.params, statement.params);

    let mut states = OAuthStateStore::new();
    let statement = states.set_statement("token", &flow_state("v1")).expect("encodes");
    assert_eq!(statement.params[0], "token");
    let json: serde_json::Value = serde_json::from_str(&statement.params[1]).expect("json");
    assert_eq!(json["verifier"], "v1");
    assert!(matches!(states.get("token"), Ok(None)));
    let written = states.set("token".to_owned(), &flow_state("v1")).expect("encodes");
    assert_eq!(written.params, statement.params);
}

#[test]
fn a_stored_text_is_read_exactly_when_it_decodes() {
    let mut sessions = OAuthSessionStore::new();
    let text = sessions
        .set_statement(&alice(), &session("first"))
        .expect("encodes")
        .params
        .remove(1);
    sessions.entries.set("did:example:alice".to_owned(), text.clone());
    assert_eq!(sessions.get(&alice()).expect("decodes"), Some(session("first")));
    let cut = text[..text.len() - 1].to_owned();
    sessions.entries.set("did:example:alice".to_owned(), cut);
    assert!(matches!(sessions.get(&alice()), Err(Error::Deserialization(_))));

    let mut states = OAuthStateStore::new();
    let text = states
        .set_statement("token", &flow_state("v1"))
        .expect("encodes")
        .params
        .remove(1);
    states.entries.set("token".to_owned(), text.clone());
    assert_eq!(states.get("token").expect("decodes"), Some(flow_state("v1")));
    states.entries.set("token".to_owned(), text.replace("verifier", "verifiers"));
    assert!(matches!(states.get("token"), Err(Error::Deserialization(_))));
}

#[test]
fn a_failed_change_leaves_the_entries_as_they_are() {
    let mut store = KeyedStore::new("oauth_state", "state").unwrap();
    assert!(store.finish_set("k".to_owned(), "1".to_owned(), Ok(())).is_ok());
    assert_eq!(store.get("k").as_deref(), Some("1"));

    let r = store.finish_set("k".to_owned(), "2".to_owned(), Err("disk full".to_owned()));
    assert!(matches!(&r, Err(Error::InsertFailed(e)) if e == "disk full"));
    assert_eq!(r.unwrap_err().message(), "insert: disk full");
    assert_eq!(store.get("k").as_deref(), Some("1"));

    let r = store.finish_del("k", Err("disk full".to_owned()));
    assert!(matches!(&r, Err(Error::DeleteFailed(e)) if e == "disk full"));
    assert_eq!(r.unwrap_err().message(), "delete: disk full");
    assert_eq!(store.get("k").as_deref(), Some("1"));

    let r = store.finish_clear(Err("disk full".to_owned()));
    assert!(matches!(&r, Err(Error::DeleteAllFailed(e)) if e == "disk full"));
    assert_eq!(r.unwrap_err().message(), "delete all: disk full");
    assert_eq!(store.get("k").as_deref(), Some("1"));

    assert!(store.finish_set("other".to_owned(), "3".to_owned(), Ok(())).is_ok());
    assert!(store.finish_del("k", Ok(())).is_ok());
    assert_eq!(store.get("k"), None);
    assert_eq!(store.get("other").as_deref(), Some("3"));
    assert!(store.finish_clear(Ok(())).is_ok());
    assert_eq!(store.get("other"), None);
}

#[test]
fn the_stored_text_is_the_encoders() {
    let mut sessions = OAuthSessionStore::new();
    let value = session("first");
    let expected = serde_json::to_string(&value).expect("encodes");
    let statement = sessions.set_statement(&alice(), &value).expect("encodes");
    assert_eq!(statement.params, vec!["did:example:alice".to_owned(), expected.clone()]);
    let statement = sessions.set(alice(), &value).expect("encodes");
    assert_eq!(statement.params, vec!["did:example:alice".to_owned(), expected.clone()]);
    assert_eq!(sessions.entries.get("did:example:alice"), Some(expected));

    let mut states = OAuthStateStore::new();
    let value = flow_state("v1");
    let expected = serde_json::to_string(&value).expect("encodes");
    let statement = states.set_statement("token", &value).expect("encodes");
    assert_eq!(statement.params, vec!["token".to_owned(), expected.clone()]);
    let statement = states.set("token".to_owned(), &value).expect("encodes");
    assert_eq!(statement.params, vec!["token".to_owned(), expected.clone()]);
    assert_eq!(states.entries.get("token"), Some(expected));
}
