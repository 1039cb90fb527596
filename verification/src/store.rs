//! The status feed store: table-identity validation, the rows of the feed,
//! and the statements that make them durable.

use crate::feed::{by_author, feed, upsert, well_formed, StatusView};
use crate::text::{decimal, decimal_text, prefixed, splice};
use crate::types::{datetime_instant, is_did, Datetime, Did};
use vstd::prelude::*;

verus! {

/// An ASCII letter.
pub open spec fn is_letter(c: char) -> bool {
    ('a' <= c && c <= 'z') || ('A' <= c && c <= 'Z')
}

/// An ASCII digit.
pub open spec fn is_digit(c: char) -> bool {
    '0' <= c && c <= '9'
}

/// A character that may follow the first one in a table identity.
pub open spec fn is_name_char(c: char) -> bool {
    is_letter(c) || is_digit(c) || c == '_'
}

/// A table identity that may be spliced into a statement: not empty, a letter
/// first, then letters, digits and underscores only.
pub open spec fn valid_table_name(name: Seq<char>) -> bool {
    &&& name.len() > 0
    &&& is_letter(name[0])
    &&& forall|i: int| 1 <= i < name.len() ==> is_name_char(#[trigger] name[i])
}

/// An identity that is empty, begins with a digit or holds a space is not
/// valid, so no store is made with it and no statement holds it.
pub proof fn unsafe_names_are_invalid(name: Seq<char>)
    requires
        name.len() == 0 || is_digit(name[0]) || name.contains(' '),
    ensures
        !valid_table_name(name),
{
    if name.len() > 0 && !is_digit(name[0]) {
        let i = choose|i: int| 0 <= i < name.len() && name[i] == ' ';
        assert(!is_name_char(name[i]));
    }
}

fn letter(c: char) -> (b: bool)
    ensures
        b == is_letter(c),
{
    (c >= 'a' && c <= 'z') || (c >= 'A' && c <= 'Z')
}

fn name_char(c: char) -> (b: bool)
    ensures
        b == is_name_char(c),
{
    letter(c) || (c >= '0' && c <= '9') || c == '_'
}

/// Decides whether `name` is a valid table identity.
pub fn is_valid_table_name(name: &str) -> (ok: bool)
    ensures
        ok == valid_table_name(name@),
{
    let n: usize = name.unicode_len();
    if n == 0 {
        return false;
    }
    if !letter(name.get_char(0)) {
        return false;
    }
    let mut i: usize = 1;
    while i < n
        invariant
            1 <= i <= n,
            n == name@.len(),
            forall|j: int| 1 <= j < i ==> is_name_char(#[trigger] name@[j]),
        decreases n - i,
    {
        if !name_char(name.get_char(i)) {
            return false;
        }
        i += 1;
    }
    true
}

/// What can go wrong in a store.
#[derive(Debug)]
pub enum Error {
    /// The table identity is not a letter followed by letters, digits and
    /// underscores.
    InvalidTableName(String),
    /// The statement that creates the table failed.
    MigrationFailed(String),
    /// A write failed.
    InsertFailed(String),
    /// A read failed.
    SelectFailed(String),
    /// Removing one entry failed.
    DeleteFailed(String),
    /// Removing all entries failed.
    DeleteAllFailed(String),
    /// An author's identity is malformed; the reason is the parser's.
    InvalidDid(&'static str),
    /// A stored timestamp is malformed; the text is the one that was stored.
    InvalidDatetime(String),
    /// A stored value could not be read back; the text is the decoder's.
    Deserialization(String),
    /// A value could not be written as text; the text is the encoder's.
    Serialization(String),
}

impl Error {
    /// The text of the error.
    pub open spec fn text(&self) -> Seq<char> {
        match self {
            Error::InvalidTableName(name) => "invalid table name '"@ + name@
                + "': table names should start with an alphabetic character, followed by alphanumeric and underscore characters"@,
            Error::MigrationFailed(e) => "migration: "@ + e@,
            Error::InsertFailed(e) => "insert: "@ + e@,
            Error::SelectFailed(e) => "select: "@ + e@,
            Error::DeleteFailed(e) => "delete: "@ + e@,
            Error::DeleteAllFailed(e) => "delete all: "@ + e@,
            Error::InvalidDid(e) => "invalid did: "@ + e@,
            Error::InvalidDatetime(e) => "invalid datetime: "@ + e@,
            Error::Deserialization(e) => "deserialization: "@ + e@,
            Error::Serialization(e) => "serialization: "@ + e@,
        }
    }

    /// The text of the error.
    pub fn message(&self) -> (text: String)
        ensures
            text@ == self.text(),
    {
        match self {
            Error::InvalidTableName(name) => splice(
                "invalid table name '",
                name.as_str(),
                "': table names should start with an alphabetic character, followed by alphanumeric and underscore characters",
            ),
            Error::MigrationFailed(e) => prefixed("migration: ", e.as_str()),
            Error::InsertFailed(e) => prefixed("insert: ", e.as_str()),
            Error::SelectFailed(e) => prefixed("select: ", e.as_str()),
            Error::DeleteFailed(e) => prefixed("delete: ", e.as_str()),
            Error::DeleteAllFailed(e) => prefixed("delete all: ", e.as_str()),
            Error::InvalidDid(e) => prefixed("invalid did: ", e),
            Error::InvalidDatetime(e) => prefixed("invalid datetime: ", e.as_str()),
            Error::Deserialization(e) => prefixed("deserialization: ", e.as_str()),
            Error::Serialization(e) => prefixed("serialization: ", e.as_str()),
        }
    }
}

/// A statement for the persistence layer: its text, in which only a valid table
/// identity is spliced, and the values bound to its `?` marks, in their order.
#[derive(Debug)]
pub struct Statement {
    pub text: String,
    pub params: Vec<String>,
}

impl Statement {
    /// The bound values as mathematics.
    pub open spec fn params(&self) -> Seq<Seq<char>> {
        Seq::new(self.params@.len(), |i: int| self.params@[i]@)
    }
}

/// The text that creates the feed table `name` if it is not there.
pub open spec fn create_text(name: Seq<char>) -> Seq<char> {
    "create table if not exists "@ + name
        + " (uri text primary key, author_did text not null, status text not null, created_at text not null, indexed_at text not null)"@
}

/// The text that writes one row of the feed table `name`, replacing the row of
/// the same address.
pub open spec fn upsert_text(name: Seq<char>) -> Seq<char> {
    "insert into "@ + name
        + " (uri, author_did, status, created_at, indexed_at) values (?, ?, ?, ?, ?) on conflict(uri) do update set author_did = excluded.author_did, status = excluded.status, created_at = excluded.created_at, indexed_at = excluded.indexed_at"@
}

/// The text that reads every row of the feed table `name`.
pub open spec fn select_text(name: Seq<char>) -> Seq<char> {
    "select uri, author_did, status, created_at, indexed_at from "@ + name
}

/// The text that reads at most `count` rows of the feed table `name`, those
/// indexed latest first: of one author, who is bound as a value, where
/// `one_author` holds, and of all authors else.
pub open spec fn fetch_text(name: Seq<char>, one_author: bool, count: nat) -> Seq<char> {
    "select uri, author_did, status, created_at, indexed_at from "@ + name + (if one_author {
        " where author_did = ? order by indexed_at desc limit "@
    } else {
        " order by indexed_at desc limit "@
    }) + decimal_text(count)
}

/// The values that `fetch_text` binds for a read that asks for `author`.
pub open spec fn fetch_params(author: Option<Seq<char>>) -> Seq<Seq<char>> {
    match author {
        Some(did) => seq![did],
        None => Seq::empty(),
    }
}

/// The values that `upsert_text` binds for `row`.
pub open spec fn row_params(row: StatusView) -> Seq<Seq<char>> {
    seq![row.uri, row.author_did, row.status, row.created_at.text, row.indexed_at.text]
}

/// A published status record.
#[derive(Debug)]
pub struct Status {
    pub uri: String,
    pub author_did: Did,
    pub status: String,
    pub created_at: Datetime,
    pub indexed_at: Datetime,
}

impl View for Status {
    type V = StatusView;

    open spec fn view(&self) -> StatusView {
        StatusView {
            uri: self.uri@,
            author_did: self.author_did@,
            status: self.status@,
            created_at: self.created_at@,
            indexed_at: self.indexed_at@,
        }
    }
}

impl Status {
    /// Builds a status from the five columns of a stored row. The author must
    /// be a well-formed identity and both timestamps must parse; the first
    /// column that does not fails the whole row.
    pub fn from_row(
        uri: String,
        author_did: String,
        status: String,
        created_at: &str,
        indexed_at: &str,
    ) -> (r: Result<Status, Error>)
        ensures
            match r {
                Ok(s) => {
                    &&& is_did(author_did@)
                    &&& s@.uri == uri@
                    &&& s@.author_did == author_did@
                    &&& s@.status == status@
                    &&& s@.created_at.text == created_at@
                    &&& s@.indexed_at.text == indexed_at@
                    &&& s@.created_at.wf()
                    &&& s@.indexed_at.wf()
                },
                Err(Error::InvalidDid(_)) => !is_did(author_did@),
                Err(Error::InvalidDatetime(text)) => {
                    &&& is_did(author_did@)
                    &&& if datetime_instant(created_at@) is None {
                        text@ == created_at@
                    } else {
                        datetime_instant(indexed_at@) is None && text@ == indexed_at@
                    }
                },
                Err(_) => false,
            },
    {
        let author_did = match Did::new(author_did) {
            Ok(did) => did,
            Err(reason) => {
                return Err(Error::InvalidDid(reason));
            },
        };
        let created_at = match Datetime::parse(created_at) {
            Some(at) => at,
            None => {
                return Err(Error::InvalidDatetime(created_at.to_owned()));
            },
        };
        let indexed_at = match Datetime::parse(indexed_at) {
            Some(at) => at,
            None => {
                return Err(Error::InvalidDatetime(indexed_at.to_owned()));
            },
        };
        Ok(Status { uri, author_did, status, created_at, indexed_at })
    }

    /// The five columns of the row that stores `self`, in the table's order.
    pub fn to_row(&self) -> (params: Vec<String>)
        ensures
            Seq::new(params@.len(), |i: int| params@[i]@) == row_params(self@),
    {
        let mut params: Vec<String> = Vec::new();
        params.push(self.uri.clone());
        params.push(self.author_did.as_str().to_owned());
        params.push(self.status.clone());
        params.push(self.created_at.as_str().to_owned());
        params.push(self.indexed_at.as_str().to_owned());
        assert(Seq::new(params@.len(), |i: int| params@[i]@) =~= row_params(self@));
        params
    }
}

impl Clone for Status {
    fn clone(&self) -> (r: Self)
        ensures
            r@ == self@,
    {
        Status {
            uri: self.uri.clone(),
            author_did: self.author_did.clone(),
            status: self.status.clone(),
            created_at: self.created_at.clone(),
            indexed_at: self.indexed_at.clone(),
        }
    }
}

/// The content of `rows`, row by row.
pub open spec fn views(rows: Seq<Status>) -> Seq<StatusView> {
    Seq::new(rows.len(), |i: int| rows[i]@)
}

/// Taking a row out, seen through the content.
proof fn lemma_views_remove(rows: Seq<Status>, i: int)
    requires
        0 <= i < rows.len(),
    ensures
        views(rows.remove(i)) == views(rows).remove(i),
{
    assert(views(rows.remove(i)) =~= views(rows).remove(i));
}

/// Putting a row in, seen through the content.
proof fn lemma_views_insert(rows: Seq<Status>, i: int, row: Status)
    requires
        0 <= i <= rows.len(),
    ensures
        views(rows.insert(i, row)) == views(rows).insert(i, row@),
{
    assert(views(rows.insert(i, row)) =~= views(rows).insert(i, row@));
}

/// The first position in `rows` whose row is not indexed later than `at`.
fn slot_in(rows: &Vec<Status>, at: &Datetime) -> (k: usize)
    ensures
        k <= rows@.len(),
        forall|j: int| 0 <= j < k ==> at@.before((#[trigger] views(rows@)[j]).indexed_at),
        k < rows@.len() ==> !at@.before(views(rows@)[k as int].indexed_at),
{
    let mut k: usize = 0;
    while k < rows.len()
        invariant
            k <= rows.len(),
            forall|j: int| 0 <= j < k ==> at@.before((#[trigger] views(rows@)[j]).indexed_at),
        decreases rows.len() - k,
    {
        if !at.before(&rows[k].indexed_at) {
            return k;
        }
        k += 1;
    }
    k
}

/// The feed table: one row per address, newest first.
#[derive(Debug)]
pub struct StatusStore {
    table_name: String,
    rows: Vec<Status>,
}

impl StatusStore {
    /// The table identity that the store was made with.
    pub closed spec fn table_name(&self) -> Seq<char> {
        self.table_name@
    }

    /// The rows of the table, in the order in which a read gives them.
    pub closed spec fn rows(&self) -> Seq<StatusView> {
        views(self.rows@)
    }

    #[verifier::type_invariant]
    spec fn inv(self) -> bool {
        valid_table_name(self.table_name@) && well_formed(self.rows())
    }

    /// Makes an empty store for the table `table_name`. An identity that is
    /// not valid is refused here, before any statement can be built with it.
    pub fn new(table_name: &str) -> (r: Result<StatusStore, Error>)
        ensures
            match r {
                Ok(store) => {
                    &&& valid_table_name(table_name@)
                    &&& store.table_name() == table_name@
                    &&& store.rows() == Seq::<StatusView>::empty()
                },
                Err(Error::InvalidTableName(name)) => {
                    &&& !valid_table_name(table_name@)
                    &&& name@ == table_name@
                },
                Err(_) => false,
            },
    {
        if !is_valid_table_name(table_name) {
            return Err(Error::InvalidTableName(table_name.to_owned()));
        }
        let store = StatusStore { table_name: table_name.to_owned(), rows: Vec::new() };
        assert(store.rows() =~= Seq::<StatusView>::empty());
        Ok(store)
    }

    /// The statement that creates the table if it is not there.
    pub fn migrate(&self) -> (text: String)
        ensures
            text@ == create_text(self.table_name()),
            valid_table_name(self.table_name()),
    {
        proof {
            use_type_invariant(self);
        }
        splice(
            "create table if not exists ",
            self.table_name.as_str(),
            " (uri text primary key, author_did text not null, status text not null, created_at text not null, indexed_at text not null)",
        )
    }

    /// The statement that reads every stored row, in no stated order.
    pub fn select(&self) -> (text: String)
        ensures
            text@ == select_text(self.table_name()),
            valid_table_name(self.table_name()),
    {
        proof {
            use_type_invariant(self);
        }
        let text = splice(
            "select uri, author_did, status, created_at, indexed_at from ",
            self.table_name.as_str(),
            "",
        );
        proof {
            reveal_strlit("");
            assert(text@ =~= select_text(self.table_name()));
        }
        text
    }

    /// The statement that reads from a database what `fetch_n` reads from
    /// the table: at most `count` rows, of `author` where one is asked for,
    /// those indexed latest first. The author is bound as a value and never
    /// spliced into the text.
    pub fn fetch_statement(&self, author: Option<Did>, count: usize) -> (statement: Statement)
        ensures
            statement.text@ == fetch_text(self.table_name(), author is Some, count as nat),
            statement.params() == fetch_params(author_view(author)),
            valid_table_name(self.table_name()),
    {
        proof {
            use_type_invariant(self);
        }
        let limit = decimal(count);
        let mut params: Vec<String> = Vec::new();
        let text = match author {
            Some(did) => {
                params.push(did.as_str().to_owned());
                let head = splice(
                    "select uri, author_did, status, created_at, indexed_at from ",
                    self.table_name.as_str(),
                    " where author_did = ? order by indexed_at desc limit ",
                );
                prefixed(head.as_str(), limit.as_str())
            },
            None => {
                let head = splice(
                    "select uri, author_did, status, created_at, indexed_at from ",
                    self.table_name.as_str(),
                    " order by indexed_at desc limit ",
                );
                prefixed(head.as_str(), limit.as_str())
            },
        };
        let statement = Statement { text, params };
        assert(statement.params() =~= fetch_params(author_view(author)));
        statement
    }

    /// How many rows the table holds.
    pub fn len(&self) -> (n: usize)
        ensures
            n == self.rows().len(),
            well_formed(self.rows()),
    {
        proof {
            use_type_invariant(self);
        }
        self.rows.len()
    }

    /// The position of the row with the address `uri`, or the number of rows
    /// where none has it.
    fn position(&self, uri: &String) -> (i: usize)
        ensures
            i <= self.rows().len(),
            i == self.rows@.len() || self.rows()[i as int].uri == uri@,
            forall|j: int| 0 <= j < i ==> (#[trigger] self.rows()[j]).uri != uri@,
    {
        let mut i: usize = 0;
        while i < self.rows.len()
            invariant
                i <= self.rows.len(),
                forall|j: int| 0 <= j < i ==> (#[trigger] self.rows()[j]).uri != uri@,
            decreases self.rows.len() - i,
        {
            if self.rows[i].uri == *uri {
                return i;
            }
            i += 1;
        }
        i
    }

    /// The statement that writes `status` to the table. The store itself is
    /// left as it is, so that the statement can be run before the row is
    /// written here.
    pub fn upsert_statement(&self, status: &Status) -> (statement: Statement)
        ensures
            statement.text@ == upsert_text(self.table_name()),
            statement.params() == row_params(status@),
            valid_table_name(self.table_name()),
    {
        proof {
            use_type_invariant(self);
        }
        Statement {
            text: splice(
                "insert into ",
                self.table_name.as_str(),
                " (uri, author_did, status, created_at, indexed_at) values (?, ?, ?, ?, ?) on conflict(uri) do update set author_did = excluded.author_did, status = excluded.status, created_at = excluded.created_at, indexed_at = excluded.indexed_at",
            ),
            params: status.to_row(),
        }
    }

    /// Writes `status`: the row that had its address is replaced, and the
    /// new row stands behind the rows that are indexed later.
    pub fn insert(&mut self, status: Status) -> (statement: Statement)
        ensures
            final(self).rows() == upsert(old(self).rows(), status@),
            final(self).table_name() == old(self).table_name(),
            well_formed(final(self).rows()),
            statement.text@ == upsert_text(old(self).table_name()),
            statement.params() == row_params(status@),
            valid_table_name(old(self).table_name()),
    {
        proof {
            use_type_invariant(&*self);
        }
        let ghost before = self.rows();
        let statement = self.upsert_statement(&status);
        let i = self.position(&status.uri);
        let mut rows: Vec<Status> = Vec::new();
        core::mem::swap(&mut self.rows, &mut rows);
        if i < rows.len() {
            let ghost whole = rows@;
            rows.remove(i);
            proof {
                lemma_views_remove(whole, i as int);
            }
        }
        assert(views(rows@) == crate::feed::taken_out(before, i as int));
        let k = slot_in(&rows, &status.indexed_at);
        proof {
            crate::feed::upsert_in_steps(before, status@, i as int, k as int);
        }
        let ghost rest = rows@;
        rows.insert(k, status);
        proof {
            lemma_views_insert(rest, k as int, rows@[k as int]);
        }
        self.rows = rows;
        statement
    }

    /// Ends a write whose statement was run on the database, `run` being
    /// what running it gave. The table takes the row only where the database
    /// took it; a failure is the failure of the write and leaves the table
    /// as it is.
    pub fn finish_insert(&mut self, status: Status, run: Result<(), String>) -> (r: Result<
        (),
        Error,
    >)
        ensures
            final(self).table_name() == old(self).table_name(),
            well_formed(final(self).rows()),
            match run {
                Ok(_) => r is Ok && final(self).rows() == upsert(old(self).rows(), status@),
                Err(e) => {
                    &&& r matches Err(Error::InsertFailed(text))
                    &&& text@ == e@
                    &&& final(self).rows() == old(self).rows()
                },
            },
    {
        proof {
            use_type_invariant(&*self);
        }
        match run {
            Ok(_) => {
                self.insert(status);
                Ok(())
            },
            Err(e) => Err(Error::InsertFailed(e)),
        }
    }

    /// Of the rows by `author` (of all rows where none is given), the first
    /// `count`, newest first.
    fn fetch(&self, author: Option<Did>, count: usize) -> (out: Vec<Status>)
        ensures
            views(out@) == feed(self.rows(), author_view(author), count as nat),
    {
        let ghost rows = self.rows();
        let ghost pred = by_author(author_view(author));
        let mut out: Vec<Status> = Vec::new();
        let mut i: usize = 0;
        proof {
            reveal(Seq::filter);
            assert(rows.take(0) =~= Seq::<StatusView>::empty());
        }
        while i < self.rows.len() && out.len() < count
            invariant
                i <= self.rows.len(),
                out.len() <= count,
                rows == self.rows(),
                pred == by_author(author_view(author)),
                views(out@) == rows.take(i as int).filter(pred),
            decreases self.rows.len() - i,
        {
            let row = &self.rows[i];
            let keep = match &author {
                Some(did) => row.author_did.same(did),
                None => true,
            };
            proof {
                assert(keep == pred(rows[i as int]));
                assert(rows.take(i as int + 1) =~= rows.take(i as int).push(rows[i as int]));
                rows.take(i as int).lemma_filter_push(rows[i as int], pred);
            }
            if keep {
                let ghost before = views(out@);
                out.push(row.clone());
                assert(views(out@) =~= before.push(rows[i as int]));
            }
            i += 1;
        }
        proof {
            let kept = rows.filter(pred);
            assert(rows =~= rows.take(i as int) + rows.skip(i as int));
            Seq::filter_distributes_over_add(rows.take(i as int), rows.skip(i as int), pred);
            if i == self.rows.len() {
                assert(rows.take(i as int) =~= rows);
            } else {
                assert(views(out@) =~= kept.take(count as int));
            }
        }
        out
    }

    /// Of the rows by `author` (of all rows where none is given), the first
    /// `count`, newest first.
    pub fn fetch_n(&self, author: Option<Did>, count: usize) -> (out: Vec<Status>)
        ensures
            views(out@) == feed(self.rows(), author_view(author), count as nat),
            well_formed(self.rows()),
    {
        proof {
            use_type_invariant(self);
        }
        self.fetch(author, count)
    }

    /// The newest row by `author` (of all rows where none is given), if there is one.
    pub fn fetch_one(&self, author: Option<Did>) -> (r: Option<Status>)
        ensures
            match r {
                Some(s) => feed(self.rows(), author_view(author), 1) == seq![s@],
                None => feed(self.rows(), author_view(author), 1) == Seq::<StatusView>::empty(),
            },
            well_formed(self.rows()),
    {
        proof {
            use_type_invariant(self);
        }
        let ghost newest = feed(self.rows(), author_view(author), 1);
        let mut results = self.fetch(author, 1);
        proof {
            self.rows().filter(by_author(author_view(author))).lemma_filter_len(
                by_author(author_view(author)),
            );
            assert(newest.len() <= 1);
        }
        let r = results.pop();
        proof {
            if r is Some {
                assert(newest =~= seq![r->0@]);
            } else {
                assert(newest =~= Seq::<StatusView>::empty());
            }
        }
        r
    }
}

/// The author that a read asks for, as mathematics.
pub open spec fn author_view(author: Option<Did>) -> Option<Seq<char>> {
    match author {
        Some(did) => Some(did@),
        None => None,
    }
}

} // verus!
