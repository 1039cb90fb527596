//! The keyed store: text values under text keys in a table of a validated
//! identity, with the statements that make each change durable.

use crate::store::{is_valid_table_name, valid_table_name, Error, Statement};
use crate::text::{prefixed, same_text, splice};
use crate::types::Did;
use vstd::prelude::*;

verus! {

/// One entry of a keyed store: a key and the text stored under it.
#[derive(Debug)]
pub struct Entry {
    pub key: String,
    pub value: String,
}

/// The keys and texts of `entries`, in their order.
spec fn pairs(entries: Seq<Entry>) -> Seq<(Seq<char>, Seq<char>)> {
    Seq::new(entries.len(), |i: int| (entries[i].key@, entries[i].value@))
}

/// No two pairs share a key.
spec fn unique_keys(pairs: Seq<(Seq<char>, Seq<char>)>) -> bool {
    forall|i: int, j: int| 0 <= i < j < pairs.len() ==> pairs[i].0 != pairs[j].0
}

/// The map that the pairs spell out, a later pair overriding an earlier one.
spec fn as_map(pairs: Seq<(Seq<char>, Seq<char>)>) -> Map<Seq<char>, Seq<char>>
    decreases pairs.len(),
{
    if pairs.len() == 0 {
        Map::empty()
    } else {
        as_map(pairs.drop_last()).insert(pairs.last().0, pairs.last().1)
    }
}

/// Some pair has the key `key`.
spec fn has_key(pairs: Seq<(Seq<char>, Seq<char>)>, key: Seq<char>) -> bool {
    exists|i: int| 0 <= i < pairs.len() && (#[trigger] pairs[i]).0 == key
}

/// The map holds the keys of the pairs and, where the keys are unique, each
/// pair's text under its key.
proof fn lemma_as_map(pairs: Seq<(Seq<char>, Seq<char>)>)
    ensures
        forall|k: Seq<char>| #[trigger] as_map(pairs).contains_key(k) <==> has_key(pairs, k),
        unique_keys(pairs) ==> forall|i: int|
            0 <= i < pairs.len() ==> as_map(pairs)[(#[trigger] pairs[i]).0] == pairs[i].1,
    decreases pairs.len(),
{
    if pairs.len() > 0 {
        let init = pairs.drop_last();
        let last = pairs.len() - 1;
        lemma_as_map(init);
        assert forall|k: Seq<char>| #[trigger] as_map(pairs).contains_key(k) <==> has_key(
            pairs,
            k,
        ) by {
            if as_map(pairs).contains_key(k) {
                if k == pairs[last].0 {
                } else {
                    assert(as_map(init).contains_key(k));
                    assert(has_key(init, k));
                    let i = choose|i: int| 0 <= i < init.len() && (#[trigger] init[i]).0 == k;
                    assert(pairs[i].0 == k);
                }
            }
            if has_key(pairs, k) {
                let i = choose|i: int| 0 <= i < pairs.len() && (#[trigger] pairs[i]).0 == k;
                if i < last {
                    assert(init[i].0 == k);
                    assert(has_key(init, k));
                    assert(as_map(init).contains_key(k));
                }
            }
        }
        if unique_keys(pairs) {
            assert forall|i: int| 0 <= i < pairs.len() implies as_map(pairs)[(#[trigger] pairs[i]).0]
                == pairs[i].1 by {
                if i < last {
                    assert(init[i] == pairs[i]);
                    assert(pairs[i].0 != pairs[last].0);
                    assert(as_map(init)[init[i].0] == init[i].1);
                }
            }
        }
    }
}

/// `pairs` without the pair at position `at`, if there is one.
spec fn taken_out(pairs: Seq<(Seq<char>, Seq<char>)>, at: int) -> Seq<
    (Seq<char>, Seq<char>),
> {
    if 0 <= at < pairs.len() {
        pairs.remove(at)
    } else {
        pairs
    }
}

/// Taking out the one pair that has a key takes the key out of the map and
/// leaves the rest of it.
proof fn lemma_key_taken_out(before: Seq<(Seq<char>, Seq<char>)>, key: Seq<char>, at: int)
    requires
        unique_keys(before),
        0 <= at <= before.len(),
        at < before.len() ==> before[at].0 == key,
        forall|j: int| 0 <= j < at ==> (#[trigger] before[j]).0 != key,
    ensures
        unique_keys(taken_out(before, at)),
        !has_key(taken_out(before, at), key),
        as_map(taken_out(before, at)) == as_map(before).remove(key),
{
    let rest = taken_out(before, at);
    lemma_as_map(before);
    lemma_as_map(rest);
    assert forall|a: int| 0 <= a < rest.len() implies (#[trigger] rest[a]).0 != key
        && before.contains(rest[a]) by {
        let b = if a < at { a } else { a + 1 };
        if at < before.len() {
            assert(rest[a] == before[b]);
        } else {
            assert(rest[a] == before[a]);
        }
    }
    assert forall|a: int, b: int| 0 <= a < b < rest.len() implies rest[a].0 != rest[b].0 by {
        if at < before.len() {
            let a2 = if a < at { a } else { a + 1 };
            let b2 = if b < at { b } else { b + 1 };
            assert(rest[a] == before[a2] && rest[b] == before[b2]);
        }
    }
    assert forall|k: Seq<char>| #[trigger]
        as_map(rest).contains_key(k) <==> (k != key && as_map(before).contains_key(k)) by {
        if as_map(rest).contains_key(k) {
            assert(has_key(rest, k));
            let a = choose|a: int| 0 <= a < rest.len() && (#[trigger] rest[a]).0 == k;
            let b = choose|b: int| 0 <= b < before.len() && before[b] == rest[a];
            assert(before[b].0 == k);
        }
        if k != key && as_map(before).contains_key(k) {
            assert(has_key(before, k));
            let b = choose|b: int| 0 <= b < before.len() && (#[trigger] before[b]).0 == k;
            let a = if b < at { b } else { b - 1 };
            assert(rest[a] == before[b]);
            assert(has_key(rest, k));
        }
    }
    assert forall|k: Seq<char>| #[trigger]
        as_map(rest).contains_key(k) implies as_map(rest)[k] == as_map(before)[k] by {
        assert(has_key(rest, k));
        let a = choose|a: int| 0 <= a < rest.len() && (#[trigger] rest[a]).0 == k;
        let b = choose|b: int| 0 <= b < before.len() && before[b] == rest[a];
        assert(as_map(rest)[rest[a].0] == rest[a].1);
        assert(as_map(before)[before[b].0] == before[b].1);
    }
    assert(as_map(rest) =~= as_map(before).remove(key));
}

/// The text that creates the table `table` with the value column `column`.
pub open spec fn keyed_create_text(table: Seq<char>, column: Seq<char>) -> Seq<char> {
    "create table if not exists "@ + table + " (key text primary key, "@ + column
        + " text not null)"@
}

/// The text that reads every entry.
pub open spec fn keyed_select_text(table: Seq<char>, column: Seq<char>) -> Seq<char> {
    "select key, "@ + column + " from "@ + table
}

/// The text that writes one entry, replacing the entry of the same key.
pub open spec fn keyed_set_text(table: Seq<char>, column: Seq<char>) -> Seq<char> {
    "insert into "@ + table + " (key, "@ + column + ") values (?, ?) on conflict(key) do update set "@
        + column + " = excluded."@ + column
}

/// The text that removes the entry of one key.
pub open spec fn keyed_delete_text(table: Seq<char>) -> Seq<char> {
    "delete from "@ + table + " where key = ?"@
}

/// The text that removes every entry.
pub open spec fn keyed_clear_text(table: Seq<char>) -> Seq<char> {
    "delete from "@ + table
}

/// A keyed store.
#[derive(Debug)]
pub struct KeyedStore {
    table_name: String,
    value_name: String,
    entries: Vec<Entry>,
}

/// The position in `entries` of the entry with the key `key`, or their number
/// where none has it.
fn position(entries: &Vec<Entry>, key: &str) -> (i: usize)
    ensures
        i <= entries@.len(),
        i < entries@.len() ==> pairs(entries@)[i as int].0 == key@,
        forall|j: int| 0 <= j < i ==> (#[trigger] pairs(entries@)[j]).0 != key@,
{
    let mut i: usize = 0;
    while i < entries.len()
        invariant
            i <= entries.len(),
            forall|j: int| 0 <= j < i ==> (#[trigger] pairs(entries@)[j]).0 != key@,
        decreases entries.len() - i,
    {
        if same_text(entries[i].key.as_str(), key) {
            return i;
        }
        i += 1;
    }
    i
}

impl KeyedStore {
    /// The table identity that the store was made with.
    pub closed spec fn table_name(&self) -> Seq<char> {
        self.table_name@
    }

    /// The identity of the value column that the store was made with.
    pub closed spec fn value_name(&self) -> Seq<char> {
        self.value_name@
    }

    /// What the store holds: the text under each key.
    pub closed spec fn view(&self) -> Map<Seq<char>, Seq<char>> {
        as_map(pairs(self.entries@))
    }

    #[verifier::type_invariant]
    spec fn inv(self) -> bool {
        &&& valid_table_name(self.table_name@)
        &&& valid_table_name(self.value_name@)
        &&& unique_keys(pairs(self.entries@))
    }

    /// Makes an empty store for the table `table_name` with the value column
    /// `value_name`. Both are spliced into statements, so both must be valid
    /// identities; the table is looked at first.
    pub fn new(table_name: &str, value_name: &str) -> (r: Result<KeyedStore, Error>)
        ensures
            match r {
                Ok(store) => {
                    &&& valid_table_name(table_name@)
                    &&& valid_table_name(value_name@)
                    &&& store.table_name() == table_name@
                    &&& store.value_name() == value_name@
                    &&& store@ == Map::<Seq<char>, Seq<char>>::empty()
                },
                Err(Error::InvalidTableName(name)) => if !valid_table_name(table_name@) {
                    name@ == table_name@
                } else {
                    !valid_table_name(value_name@) && name@ == value_name@
                },
                Err(_) => false,
            },
    {
        if !is_valid_table_name(table_name) {
            return Err(Error::InvalidTableName(table_name.to_owned()));
        }
        if !is_valid_table_name(value_name) {
            return Err(Error::InvalidTableName(value_name.to_owned()));
        }
        let store = KeyedStore {
            table_name: table_name.to_owned(),
            value_name: value_name.to_owned(),
            entries: Vec::new(),
        };
        assert(pairs(store.entries@) =~= Seq::empty());
        Ok(store)
    }

    /// The statement that creates the table if it is not there.
    pub fn migrate(&self) -> (text: String)
        ensures
            text@ == keyed_create_text(self.table_name(), self.value_name()),
            valid_table_name(self.table_name()),
            valid_table_name(self.value_name()),
    {
        proof {
            use_type_invariant(self);
        }
        let head = splice(
            "create table if not exists ",
            self.table_name.as_str(),
            " (key text primary key, ",
        );
        let text = splice(head.as_str(), self.value_name.as_str(), " text not null)");
        assert(text@ =~= keyed_create_text(self.table_name(), self.value_name()));
        text
    }

    /// The statement that reads every stored entry.
    pub fn select(&self) -> (text: String)
        ensures
            text@ == keyed_select_text(self.table_name(), self.value_name()),
            valid_table_name(self.table_name()),
            valid_table_name(self.value_name()),
    {
        proof {
            use_type_invariant(self);
        }
        let head = splice("select key, ", self.value_name.as_str(), " from ");
        let text = prefixed(head.as_str(), self.table_name.as_str());
        assert(text@ =~= keyed_select_text(self.table_name(), self.value_name()));
        text
    }

    /// The text under `key`, if there is one.
    pub fn get(&self, key: &str) -> (r: Option<String>)
        ensures
            match r {
                Some(text) => self@.contains_key(key@) && self@[key@] == text@,
                None => !self@.contains_key(key@),
            },
    {
        proof {
            use_type_invariant(self);
            lemma_as_map(pairs(self.entries@));
        }
        let i = position(&self.entries, key);
        if i < self.entries.len() {
            Some(self.entries[i].value.clone())
        } else {
            None
        }
    }

    /// The statement that puts `value` under `key`. The store itself is left
    /// as it is, so that the statement can be run before the entry is written
    /// here.
    pub fn set_statement(&self, key: &str, value: &str) -> (statement: Statement)
        ensures
            statement.text@ == keyed_set_text(self.table_name(), self.value_name()),
            statement.params() == seq![key@, value@],
            valid_table_name(self.table_name()),
            valid_table_name(self.value_name()),
    {
        proof {
            use_type_invariant(self);
        }
        let text = self.set_text();
        let mut params: Vec<String> = Vec::new();
        params.push(key.to_owned());
        params.push(value.to_owned());
        let statement = Statement { text, params };
        assert(statement.params() =~= seq![key@, value@]);
        statement
    }

    /// The statement that removes what is under `key`. The store itself is
    /// left as it is.
    pub fn del_statement(&self, key: &str) -> (statement: Statement)
        ensures
            statement.text@ == keyed_delete_text(self.table_name()),
            statement.params() == seq![key@],
            valid_table_name(self.table_name()),
    {
        proof {
            use_type_invariant(self);
        }
        let text = splice("delete from ", self.table_name.as_str(), " where key = ?");
        let mut params: Vec<String> = Vec::new();
        params.push(key.to_owned());
        let statement = Statement { text, params };
        assert(statement.params() =~= seq![key@]);
        statement
    }

    /// The statement that removes every entry. The store itself is left as
    /// it is.
    pub fn clear_statement(&self) -> (text: String)
        ensures
            text@ == keyed_clear_text(self.table_name()),
            valid_table_name(self.table_name()),
    {
        proof {
            use_type_invariant(self);
        }
        prefixed("delete from ", self.table_name.as_str())
    }

    /// Puts `value` under `key`, in place of what was there.
    pub fn set(&mut self, key: String, value: String) -> (statement: Statement)
        ensures
            final(self)@ == old(self)@.insert(key@, value@),
            final(self).table_name() == old(self).table_name(),
            final(self).value_name() == old(self).value_name(),
            statement.text@ == keyed_set_text(old(self).table_name(), old(self).value_name()),
            statement.params() == seq![key@, value@],
            valid_table_name(old(self).table_name()),
            valid_table_name(old(self).value_name()),
    {
        proof {
            use_type_invariant(&*self);
        }
        let ghost before = pairs(self.entries@);
        let statement = self.set_statement(key.as_str(), value.as_str());
        let i = position(&self.entries, key.as_str());
        let mut entries: Vec<Entry> = Vec::new();
        core::mem::swap(&mut self.entries, &mut entries);
        if i < entries.len() {
            entries.remove(i);
        }
        entries.push(Entry { key, value });
        proof {
            lemma_key_taken_out(before, key@, i as int);
            let rest = taken_out(before, i as int);
            let after = pairs(entries@);
            assert(after =~= rest.push((key@, value@)));
            assert(after.drop_last() =~= rest);
            assert(unique_keys(after)) by {
                assert forall|a: int, b: int| 0 <= a < b < after.len() implies after[a].0
                    != after[b].0 by {
                    assert(after[a] == rest[a]);
                    if b < rest.len() {
                        assert(after[b] == rest[b]);
                    }
                }
            }
            assert(as_map(after) =~= as_map(before).insert(key@, value@));
        }
        self.entries = entries;
        statement
    }

    /// The text of the statement that writes one entry.
    fn set_text(&self) -> (text: String)
        ensures
            text@ == keyed_set_text(self.table_name(), self.value_name()),
    {
        let head = splice("insert into ", self.table_name.as_str(), " (key, ");
        let middle = splice(
            head.as_str(),
            self.value_name.as_str(),
            ") values (?, ?) on conflict(key) do update set ",
        );
        let tail = splice(self.value_name.as_str(), " = excluded.", self.value_name.as_str());
        let text = prefixed(middle.as_str(), tail.as_str());
        assert(text@ =~= keyed_set_text(self.table_name(), self.value_name()));
        text
    }

    /// Removes what is under `key`, if anything is.
    pub fn del(&mut self, key: &str) -> (statement: Statement)
        ensures
            final(self)@ == old(self)@.remove(key@),
            final(self).table_name() == old(self).table_name(),
            final(self).value_name() == old(self).value_name(),
            statement.text@ == keyed_delete_text(old(self).table_name()),
            statement.params() == seq![key@],
            valid_table_name(old(self).table_name()),
    {
        proof {
            use_type_invariant(&*self);
        }
        let ghost before = pairs(self.entries@);
        let statement = self.del_statement(key);
        let i = position(&self.entries, key);
        let mut entries: Vec<Entry> = Vec::new();
        core::mem::swap(&mut self.entries, &mut entries);
        if i < entries.len() {
            entries.remove(i);
        }
        proof {
            lemma_key_taken_out(before, key@, i as int);
            assert(pairs(entries@) =~= taken_out(before, i as int));
        }
        self.entries = entries;
        statement
    }

    /// Removes every entry.
    pub fn clear(&mut self) -> (text: String)
        ensures
            final(self)@ == Map::<Seq<char>, Seq<char>>::empty(),
            final(self).table_name() == old(self).table_name(),
            final(self).value_name() == old(self).value_name(),
            text@ == keyed_clear_text(old(self).table_name()),
            valid_table_name(old(self).table_name()),
    {
        proof {
            use_type_invariant(&*self);
        }
        let text = self.clear_statement();
        let entries: Vec<Entry> = Vec::new();
        assert(pairs(entries@) =~= Seq::empty());
        self.entries = entries;
        text
    }

    /// Ends a `set` whose statement was run on the database, `run` being what
    /// running it gave. The entry is written only where the database took
    /// it; a failure is the failure of the write and changes nothing.
    pub fn finish_set(&mut self, key: String, value: String, run: Result<(), String>) -> (r: Result<
        (),
        Error,
    >)
        ensures
            final(self).table_name() == old(self).table_name(),
            final(self).value_name() == old(self).value_name(),
            match run {
                Ok(_) => r is Ok && final(self)@ == old(self)@.insert(key@, value@),
                Err(e) => {
                    &&& r matches Err(Error::InsertFailed(text))
                    &&& text@ == e@
                    &&& final(self)@ == old(self)@
                },
            },
    {
        match run {
            Ok(_) => {
                self.set(key, value);
                Ok(())
            },
            Err(e) => Err(Error::InsertFailed(e)),
        }
    }

    /// Ends a `del` whose statement was run on the database, `run` being what
    /// running it gave. The entry is removed only where the database removed
    /// it; a failure is the failure of the removal and changes nothing.
    pub fn finish_del(&mut self, key: &str, run: Result<(), String>) -> (r: Result<(), Error>)
        ensures
            final(self).table_name() == old(self).table_name(),
            final(self).value_name() == old(self).value_name(),
            match run {
                Ok(_) => r is Ok && final(self)@ == old(self)@.remove(key@),
                Err(e) => {
                    &&& r matches Err(Error::DeleteFailed(text))
                    &&& text@ == e@
                    &&& final(self)@ == old(self)@
                },
            },
    {
        match run {
            Ok(_) => {
                self.del(key);
                Ok(())
            },
            Err(e) => Err(Error::DeleteFailed(e)),
        }
    }

    /// Ends a `clear` whose statement was run on the database, `run` being
    /// what running it gave. The entries are removed only where the database
    /// removed them; a failure is the failure of the removal and changes
    /// nothing.
    pub fn finish_clear(&mut self, run: Result<(), String>) -> (r: Result<(), Error>)
        ensures
            final(self).table_name() == old(self).table_name(),
            final(self).value_name() == old(self).value_name(),
            match run {
                Ok(_) => r is Ok && final(self)@ == Map::<Seq<char>, Seq<char>>::empty(),
                Err(e) => {
                    &&& r matches Err(Error::DeleteAllFailed(text))
                    &&& text@ == e@
                    &&& final(self)@ == old(self)@
                },
            },
    {
        match run {
            Ok(_) => {
                self.clear();
                Ok(())
            },
            Err(e) => Err(Error::DeleteAllFailed(e)),
        }
    }
}

/// The session that the provider keeps for an identity.
#[verifier::external_type_specification]
#[verifier::external_body]
pub struct ExProviderSession(atrium_oauth::store::session::Session);

/// The state of an authorization that is under way.
#[verifier::external_type_specification]
#[verifier::external_body]
pub struct ExFlowState(atrium_oauth::store::state::InternalStateData);

/// The provider session that `text` decodes to, or none where it decodes to
/// none.
pub uninterp spec fn session_of(text: Seq<char>) -> Option<atrium_oauth::store::session::Session>;

/// The flow state that `text` decodes to, or none where it decodes to none.
pub uninterp spec fn state_of(text: Seq<char>) -> Option<
    atrium_oauth::store::state::InternalStateData,
>;

/// The text that the provider session `value` encodes to, or none where it
/// does not encode.
pub uninterp spec fn session_json(value: atrium_oauth::store::session::Session) -> Option<
    Seq<char>,
>;

/// The text that the flow state `value` encodes to, or none where it does
/// not encode.
pub uninterp spec fn state_json(value: atrium_oauth::store::state::InternalStateData) -> Option<
    Seq<char>,
>;

/// Calls `serde_json::from_str` for a provider session and takes the text of
/// its error. Whether the text decodes, and to which session, depends on the
/// text alone.
#[verifier::external_body]
fn session_from_json(text: &str) -> (r: Result<atrium_oauth::store::session::Session, String>)
    ensures
        match r {
            Ok(value) => session_of(text@) == Some(value),
            Err(_) => session_of(text@) is None,
        },
{
    match serde_json::from_str(text) {
        Ok(value) => Ok(value),
        Err(e) => Err(e.to_string()),
    }
}

/// Calls `serde_json::to_string` for a provider session and takes the text of
/// its error. Whether the session encodes, and to which text, depends on the
/// session alone.
#[verifier::external_body]
fn session_to_json(value: &atrium_oauth::store::session::Session) -> (r: Result<String, String>)
    ensures
        match r {
            Ok(text) => session_json(*value) == Some(text@),
            Err(_) => session_json(*value) is None,
        },
{
    match serde_json::to_string(value) {
        Ok(text) => Ok(text),
        Err(e) => Err(e.to_string()),
    }
}

/// Calls `serde_json::from_str` for a flow state and takes the text of its
/// error. Whether the text decodes, and to which state, depends on the text
/// alone.
#[verifier::external_body]
fn state_from_json(text: &str) -> (r: Result<atrium_oauth::store::state::InternalStateData, String>)
    ensures
        match r {
            Ok(value) => state_of(text@) == Some(value),
            Err(_) => state_of(text@) is None,
        },
{
    match serde_json::from_str(text) {
        Ok(value) => Ok(value),
        Err(e) => Err(e.to_string()),
    }
}

/// Calls `serde_json::to_string` for a flow state and takes the text of its
/// error. Whether the state encodes, and to which text, depends on the state
/// alone.
#[verifier::external_body]
fn state_to_json(value: &atrium_oauth::store::state::InternalStateData) -> (r: Result<
    String,
    String,
>)
    ensures
        match r {
            Ok(text) => state_json(*value) == Some(text@),
            Err(_) => state_json(*value) is None,
        },
{
    match serde_json::to_string(value) {
        Ok(text) => Ok(text),
        Err(e) => Err(e.to_string()),
    }
}

/// What a typed read gives, from what was found under the key and decoded:
/// nothing found is no error, and a text that does not decode is an error of
/// its own kind.
pub fn decoded<V>(found: Option<Result<V, String>>) -> (r: Result<Option<V>, Error>)
    ensures
        match found {
            None => r == Ok::<Option<V>, Error>(None),
            Some(Ok(value)) => r == Ok::<Option<V>, Error>(Some(value)),
            Some(Err(e)) => r matches Err(Error::Deserialization(text)) && text@ == e@,
        },
{
    match found {
        None => Ok(None),
        Some(Ok(value)) => Ok(Some(value)),
        Some(Err(e)) => Err(Error::Deserialization(e)),
    }
}

/// What a typed write does with the encoded value: an encoded value is put
/// under the key, and a value that did not encode changes nothing.
pub fn encoded(store: &mut KeyedStore, key: String, text: Result<String, String>) -> (r: Result<
    Statement,
    Error,
>)
    ensures
        final(store).table_name() == old(store).table_name(),
        final(store).value_name() == old(store).value_name(),
        match text {
            Ok(value) => {
                &&& r matches Ok(statement)
                &&& final(store)@ == old(store)@.insert(key@, value@)
                &&& statement.text@ == keyed_set_text(old(store).table_name(), old(store).value_name())
                &&& statement.params() == seq![key@, value@]
            },
            Err(e) => {
                &&& r matches Err(Error::Serialization(reason))
                &&& reason@ == e@
                &&& final(store)@ == old(store)@
            },
        },
{
    match text {
        Ok(value) => Ok(store.set(key, value)),
        Err(e) => Err(Error::Serialization(e)),
    }
}

/// The statement of a typed write, from the encoded value: an encoded value
/// gives the statement that puts it under the key, and a value that did not
/// encode gives an error. The store is left as it is.
pub fn encoded_statement(store: &KeyedStore, key: &str, text: Result<String, String>) -> (r: Result<
    Statement,
    Error,
>)
    ensures
        match text {
            Ok(value) => {
                &&& r matches Ok(statement)
                &&& statement.text@ == keyed_set_text(store.table_name(), store.value_name())
                &&& statement.params() == seq![key@, value@]
            },
            Err(e) => {
                &&& r matches Err(Error::Serialization(reason))
                &&& reason@ == e@
            },
        },
{
    match text {
        Ok(value) => Ok(store.set_statement(key, value.as_str())),
        Err(e) => Err(Error::Serialization(e)),
    }
}

/// The table of the provider sessions.
pub open spec fn session_table() -> Seq<char> {
    "oauth_session"@
}

/// The value column of the provider sessions.
pub open spec fn session_column() -> Seq<char> {
    "session"@
}

/// The table of the flow states.
pub open spec fn state_table() -> Seq<char> {
    "oauth_state"@
}

/// The value column of the flow states.
pub open spec fn state_column() -> Seq<char> {
    "state"@
}

/// The provider sessions, one under each identity.
#[derive(Debug)]
pub struct OAuthSessionStore {
    pub entries: KeyedStore,
}

impl OAuthSessionStore {
    /// An empty store of provider sessions.
    pub fn new() -> (store: OAuthSessionStore)
        ensures
            store.entries@ == Map::<Seq<char>, Seq<char>>::empty(),
            store.entries.table_name() == session_table(),
            store.entries.value_name() == session_column(),
    {
        proof {
            reveal_strlit("oauth_session");
            reveal_strlit("session");
            assert(valid_table_name("oauth_session"@));
            assert(valid_table_name("session"@));
        }
        match KeyedStore::new("oauth_session", "session") {
            Ok(entries) => OAuthSessionStore { entries },
            Err(_) => vstd::pervasive::unreached(),
        }
    }

    /// The session under `key`: the one that the entry's text decodes to. No
    /// entry gives none, and is no error; an entry whose text does not decode
    /// gives an error.
    pub fn get(&self, key: &Did) -> (r: Result<Option<atrium_oauth::store::session::Session>, Error>)
        ensures
            match r {
                Ok(None) => !self.entries@.contains_key(key@),
                Ok(Some(value)) => {
                    &&& self.entries@.contains_key(key@)
                    &&& session_of(self.entries@[key@]) == Some(value)
                },
                Err(Error::Deserialization(_)) => {
                    &&& self.entries@.contains_key(key@)
                    &&& session_of(self.entries@[key@]) is None
                },
                Err(_) => false,
            },
    {
        match self.entries.get(key.as_str()) {
            Some(text) => decoded(Some(session_from_json(text.as_str()))),
            None => decoded(None),
        }
    }

    /// The statement that puts the text that `value` encodes to under `key`.
    /// The store itself is left as it is. A value that does not encode gives
    /// an error and no statement.
    pub fn set_statement(&self, key: &Did, value: &atrium_oauth::store::session::Session) -> (r:
        Result<Statement, Error>)
        ensures
            match session_json(*value) {
                Some(text) => {
                    &&& r matches Ok(statement)
                    &&& statement.params() == seq![key@, text]
                    &&& statement.text@ == keyed_set_text(
                        self.entries.table_name(),
                        self.entries.value_name(),
                    )
                },
                None => r matches Err(Error::Serialization(_)),
            },
    {
        let text = session_to_json(value);
        encoded_statement(&self.entries, key.as_str(), text)
    }

    /// Puts the text that `value` encodes to under `key`, in place of what was
    /// there. A value that does not encode changes nothing.
    pub fn set(&mut self, key: Did, value: &atrium_oauth::store::session::Session) -> (r: Result<
        Statement,
        Error,
    >)
        ensures
            final(self).entries.table_name() == old(self).entries.table_name(),
            final(self).entries.value_name() == old(self).entries.value_name(),
            match session_json(*value) {
                Some(text) => {
                    &&& r matches Ok(statement)
                    &&& statement.params() == seq![key@, text]
                    &&& final(self).entries@ == old(self).entries@.insert(key@, text)
                    &&& statement.text@ == keyed_set_text(
                        old(self).entries.table_name(),
                        old(self).entries.value_name(),
                    )
                },
                None => {
                    &&& r matches Err(Error::Serialization(_))
                    &&& final(self).entries@ == old(self).entries@
                },
            },
    {
        let text = session_to_json(value);
        encoded(&mut self.entries, key.as_str().to_owned(), text)
    }

    /// Removes what is under `key`, if anything is.
    pub fn del(&mut self, key: &Did) -> (statement: Statement)
        ensures
            final(self).entries@ == old(self).entries@.remove(key@),
            final(self).entries.table_name() == old(self).entries.table_name(),
            final(self).entries.value_name() == old(self).entries.value_name(),
            statement.text@ == keyed_delete_text(old(self).entries.table_name()),
            statement.params() == seq![key@],
    {
        self.entries.del(key.as_str())
    }

    /// Removes every entry.
    pub fn clear(&mut self) -> (text: String)
        ensures
            final(self).entries@ == Map::<Seq<char>, Seq<char>>::empty(),
            final(self).entries.table_name() == old(self).entries.table_name(),
            final(self).entries.value_name() == old(self).entries.value_name(),
            text@ == keyed_clear_text(old(self).entries.table_name()),
    {
        self.entries.clear()
    }
}

/// The authorization flows that are under way, one under each flow token.
#[derive(Debug)]
pub struct OAuthStateStore {
    pub entries: KeyedStore,
}

impl OAuthStateStore {
    /// An empty store of flow states.
    pub fn new() -> (store: OAuthStateStore)
        ensures
            store.entries@ == Map::<Seq<char>, Seq<char>>::empty(),
            store.entries.table_name() == state_table(),
            store.entries.value_name() == state_column(),
    {
        proof {
            reveal_strlit("oauth_state");
            reveal_strlit("state");
            assert(valid_table_name("oauth_state"@));
            assert(valid_table_name("state"@));
        }
        match KeyedStore::new("oauth_state", "state") {
            Ok(entries) => OAuthStateStore { entries },
            Err(_) => vstd::pervasive::unreached(),
        }
    }

    /// The state under `key`: the one that the entry's text decodes to. No
    /// entry gives none, and is no error; an entry whose text does not decode
    /// gives an error.
    pub fn get(&self, key: &str) -> (r: Result<
        Option<atrium_oauth::store::state::InternalStateData>,
        Error,
    >)
        ensures
            match r {
                Ok(None) => !self.entries@.contains_key(key@),
                Ok(Some(value)) => {
                    &&& self.entries@.contains_key(key@)
                    &&& state_of(self.entries@[key@]) == Some(value)
                },
                Err(Error::Deserialization(_)) => {
                    &&& self.entries@.contains_key(key@)
                    &&& state_of(self.entries@[key@]) is None
                },
                Err(_) => false,
            },
    {
        match self.entries.get(key) {
            Some(text) => decoded(Some(state_from_json(text.as_str()))),
            None => decoded(None),
        }
    }

    /// The statement that puts the text that `value` encodes to under `key`.
    /// The store itself is left as it is. A value that does not encode gives
    /// an error and no statement.
    pub fn set_statement(
        &self,
        key: &str,
        value: &atrium_oauth::store::state::InternalStateData,
    ) -> (r: Result<Statement, Error>)
        ensures
            match state_json(*value) {
                Some(text) => {
                    &&& r matches Ok(statement)
                    &&& statement.params() == seq![key@, text]
                    &&& statement.text@ == keyed_set_text(
                        self.entries.table_name(),
                        self.entries.value_name(),
                    )
                },
                None => r matches Err(Error::Serialization(_)),
            },
    {
        let text = state_to_json(value);
        encoded_statement(&self.entries, key, text)
    }

    /// Puts the text that `value` encodes to under `key`, in place of what was
    /// there. A value that does not encode changes nothing.
    pub fn set(
        &mut self,
        key: String,
        value: &atrium_oauth::store::state::InternalStateData,
    ) -> (r: Result<Statement, Error>)
        ensures
            final(self).entries.table_name() == old(self).entries.table_name(),
            final(self).entries.value_name() == old(self).entries.value_name(),
            match state_json(*value) {
                Some(text) => {
                    &&& r matches Ok(statement)
                    &&& statement.params() == seq![key@, text]
                    &&& final(self).entries@ == old(self).entries@.insert(key@, text)
                    &&& statement.text@ == keyed_set_text(
                        old(self).entries.table_name(),
                        old(self).entries.value_name(),
                    )
                },
                None => {
                    &&& r matches Err(Error::Serialization(_))
                    &&& final(self).entries@ == old(self).entries@
                },
            },
    {
        let text = state_to_json(value);
        encoded(&mut self.entries, key, text)
    }

    /// Removes what is under `key`, if anything is.
    pub fn del(&mut self, key: &str) -> (statement: Statement)
        ensures
            final(self).entries@ == old(self).entries@.remove(key@),
            final(self).entries.table_name() == old(self).entries.table_name(),
            final(self).entries.value_name() == old(self).entries.value_name(),
            statement.text@ == keyed_delete_text(old(self).entries.table_name()),
            statement.params() == seq![key@],
    {
        self.entries.del(key)
    }

    /// Removes every entry.
    pub fn clear(&mut self) -> (text: String)
        ensures
            final(self).entries@ == Map::<Seq<char>, Seq<char>>::empty(),
            final(self).entries.table_name() == old(self).entries.table_name(),
            final(self).entries.value_name() == old(self).entries.value_name(),
            text@ == keyed_clear_text(old(self).entries.table_name()),
    {
        self.entries.clear()
    }
}

} // verus!
