//! The home page's data: the newest statuses, the visitor's own, the name
//! under which an author is shown, and the date that is shown for a status.

use crate::text::{prefixed, same_text};
use crate::feed::{feed, StatusView};
use crate::store::{author_view, views, Status, StatusStore};
use crate::types::{Datetime, Did, Moment};
use vstd::prelude::*;

verus! {

/// What the home page can be asked to say.
#[derive(Clone, Copy, Debug, PartialEq, Eq, Structural)]
pub enum HomeError {
    /// The visitor tried something that needs a login.
    LoggedOut,
}

/// The query of the home page.
#[derive(Debug)]
pub struct HomeQuery {
    pub error: Option<HomeError>,
}

/// How many statuses the home page shows.
pub const FEED_LENGTH: usize = 10;

impl HomeError {
    /// The name of the error in a query.
    pub open spec fn name(self) -> Seq<char> {
        "logged_out"@
    }

    /// The name of the error in a query.
    pub fn as_str(self) -> (name: &'static str)
        ensures
            name@ == self.name(),
    {
        "logged_out"
    }
}

impl HomeQuery {
    /// Reads the `error` of a query: the one name that is known gives its
    /// error, no name gives none, and any other name is refused.
    pub fn parse(error: Option<&str>) -> (r: Option<HomeQuery>)
        ensures
            match error {
                None => r matches Some(q) && q.error is None,
                Some(name) => if name@ == HomeError::LoggedOut.name() {
                    r matches Some(q) && q.error == Some(HomeError::LoggedOut)
                } else {
                    r is None
                },
            },
    {
        match error {
            None => Some(HomeQuery { error: None }),
            Some(name) => {
                if same_text(name, HomeError::LoggedOut.as_str()) {
                    Some(HomeQuery { error: Some(HomeError::LoggedOut) })
                } else {
                    None
                }
            },
        }
    }
}

/// The earlier of the two instants, and `indexed_at` where they are the same:
/// the date that is shown is never later than the time of indexing.
pub open spec fn shown_moment(created_at: Moment, indexed_at: Moment) -> Moment {
    if created_at.before(indexed_at) {
        created_at
    } else {
        indexed_at
    }
}

/// Chooses the date that is shown for a status: the time its author claims
/// where that is earlier than the time it was indexed, else the time it was
/// indexed.
pub fn choose_date<'a>(created_at: &'a Datetime, indexed_at: &'a Datetime) -> (shown: &'a Datetime)
    ensures
        shown@ == shown_moment(created_at@, indexed_at@),
        !indexed_at@.before(shown@),
        !created_at@.before(shown@),
{
    if created_at.before(indexed_at) {
        created_at
    } else {
        indexed_at
    }
}

/// `text` with every occurrence of `from` taken out, scanning from the left
/// and going on behind each occurrence.
pub open spec fn removed(text: Seq<char>, from: Seq<char>) -> Seq<char>
    decreases text.len(),
{
    if from.len() == 0 || text.len() < from.len() {
        text
    } else if text.subrange(0, from.len() as int) == from {
        removed(text.subrange(from.len() as int, text.len() as int), from)
    } else {
        seq![text[0]] + removed(text.subrange(1, text.len() as int), from)
    }
}

/// Calls `str::replace` with an empty replacement. It takes out all matches
/// of the pattern, which do not overlap and are found from the left.
#[verifier::external_body]
fn remove_all(text: &str, from: &str) -> (r: String)
    requires
        from@.len() > 0,
    ensures
        r@ == removed(text@, from@),
{
    text.replace(from, "")
}

/// The name under which `author` is shown, given the other names that the
/// author's identity document lists.
pub open spec fn handle_of(author: Seq<char>, also_known_as: Option<Seq<Seq<char>>>) -> Seq<char> {
    match also_known_as {
        Some(names) => if names.len() == 0 {
            author
        } else {
            "@"@ + removed(names[0], "at://"@)
        },
        None => author,
    }
}

/// The other names as mathematics.
pub open spec fn names_view(also_known_as: Option<Vec<String>>) -> Option<Seq<Seq<char>>> {
    match also_known_as {
        Some(names) => Some(Seq::new(names@.len(), |i: int| names@[i]@)),
        None => None,
    }
}

/// The name under which `author` is shown: the first of the other names that
/// the identity document lists, without its scheme and behind an `@`, and the
/// identity itself where the document lists none.
pub fn resolve_into_handle(author: &Did, also_known_as: Option<Vec<String>>) -> (handle: String)
    ensures
        handle@ == handle_of(author@, names_view(also_known_as)),
{
    match also_known_as {
        None => author.as_str().to_owned(),
        Some(names) => {
            if names.len() == 0 {
                author.as_str().to_owned()
            } else {
                proof {
                    reveal_strlit("at://");
                }
                let bare = remove_all(names[0].as_str(), "at://");
                prefixed("@", bare.as_str())
            }
        },
    }
}

/// One status as the home page shows it.
#[derive(Debug)]
pub struct StatusCard {
    pub status: String,
    pub handle: String,
    pub date: Datetime,
}

/// The content of a card.
pub struct CardView {
    pub status: Seq<char>,
    pub handle: Seq<char>,
    pub date: Moment,
}

impl View for StatusCard {
    type V = CardView;

    open spec fn view(&self) -> CardView {
        CardView { status: self.status@, handle: self.handle@, date: self.date@ }
    }
}

/// The card of the status `row` under the name `handle`.
pub open spec fn card_of(row: StatusView, handle: Seq<char>) -> CardView {
    CardView {
        status: row.status,
        handle,
        date: shown_moment(row.created_at, row.indexed_at),
    }
}

/// The cards of `rows` under the names `handles`, pair by pair, as far as both reach.
pub open spec fn cards_of(rows: Seq<StatusView>, handles: Seq<Seq<char>>) -> Seq<CardView> {
    Seq::new(
        if rows.len() <= handles.len() {
            rows.len()
        } else {
            handles.len()
        },
        |i: int| card_of(rows[i], handles[i]),
    )
}

/// Pairs each status with the name of its author and chooses its date.
pub fn status_views(statuses: Vec<Status>, handles: Vec<String>) -> (cards: Vec<StatusCard>)
    ensures
        Seq::new(cards@.len(), |i: int| cards@[i]@) == cards_of(
            views(statuses@),
            Seq::new(handles@.len(), |i: int| handles@[i]@),
        ),
{
    let ghost rows = views(statuses@);
    let ghost names = Seq::new(handles@.len(), |i: int| handles@[i]@);
    let n: usize = if statuses.len() <= handles.len() {
        statuses.len()
    } else {
        handles.len()
    };
    let mut cards: Vec<StatusCard> = Vec::new();
    let mut i: usize = 0;
    while i < n
        invariant
            i <= n,
            n <= statuses.len(),
            n <= handles.len(),
            cards@.len() == i,
            rows == views(statuses@),
            names == Seq::new(handles@.len(), |i: int| handles@[i]@),
            forall|j: int| 0 <= j < i ==> (#[trigger] cards@[j])@ == card_of(rows[j], names[j]),
        decreases n - i,
    {
        let status = &statuses[i];
        let date = choose_date(&status.created_at, &status.indexed_at).clone();
        cards.push(
            StatusCard { status: status.status.clone(), handle: handles[i].clone(), date },
        );
        i += 1;
    }
    assert(Seq::new(cards@.len(), |i: int| cards@[i]@) =~= cards_of(rows, names));
    cards
}

/// What the home page reads from the feed.
#[derive(Debug)]
pub struct HomeFeed {
    /// The newest statuses of all authors.
    pub statuses: Vec<Status>,
    /// The text of the visitor's newest status, where the visitor is logged in
    /// and has one.
    pub user_status: Option<String>,
}

/// The text of the newest row by `viewer`, if there is a viewer with a row.
pub open spec fn newest_status_of(rows: Seq<StatusView>, viewer: Option<Seq<char>>) -> Option<
    Seq<char>,
> {
    match viewer {
        Some(did) => if feed(rows, Some(did), 1).len() > 0 {
            Some(feed(rows, Some(did), 1)[0].status)
        } else {
            None
        },
        None => None,
    }
}

/// Reads the home page's data for the visitor `viewer`: the newest ten
/// statuses of all authors, newest first, and the visitor's own newest status.
pub fn home(store: &StatusStore, viewer: Option<Did>) -> (page: HomeFeed)
    ensures
        views(page.statuses@) == feed(store.rows(), None, FEED_LENGTH as nat),
        crate::ingester::line_view(page.user_status) == newest_status_of(
            store.rows(),
            author_view(viewer),
        ),
{
    let statuses = store.fetch_n(None, FEED_LENGTH);
    let user_status = match viewer {
        Some(did) => match store.fetch_one(Some(did)) {
            Some(status) => Some(status.status),
            None => None,
        },
        None => None,
    };
    HomeFeed { statuses, user_status }
}

/// The first second whose date can be shown: a day after the earliest instant
/// that the calendar holds, midnight before the first of January of the year
/// -262143, so that no time zone takes the local time out of the calendar.
pub const FIRST_SHOWN_SECOND: i64 = -8_334_601_142_400;

/// The last second whose date can be shown: a day before the latest instant
/// that the calendar holds, the last second of the year 262142.
pub const LAST_SHOWN_SECOND: i64 = 8_210_266_790_399;

/// The instant has a date that can be shown in every time zone: it lies in
/// the calendar with a day to spare at both ends, and its nanoseconds are
/// under a second, or under two in the last second of a minute (a leap
/// second).
pub open spec fn can_be_shown(at: Moment) -> bool {
    shown_instant(at.seconds, at.nanos)
}

/// `can_be_shown`, of the seconds and nanoseconds of an instant.
pub open spec fn shown_instant(seconds: int, nanos: int) -> bool {
    &&& FIRST_SHOWN_SECOND <= seconds <= LAST_SHOWN_SECOND
    &&& 0 <= nanos
    &&& nanos < 1_000_000_000 || (nanos < 2_000_000_000 && seconds % 60 == 59)
}

/// The date of every instant that a timestamp names can be shown: the years
/// of four digits lie well within the calendar.
pub proof fn written_timestamps_can_be_shown(at: Moment)
    requires
        at.wf(),
    ensures
        can_be_shown(at),
{
}

/// The calendar date, as text, of the instant `seconds` after the epoch where
/// the local time is `offset` seconds ahead of UTC.
pub uninterp spec fn date_text(seconds: int, offset: int) -> Seq<char>;

/// Calls chrono's `DateTime::from_timestamp`, `with_timezone` for the local
/// time zone, and reads the zone's `offset` with `local_minus_utc`: how many
/// seconds the machine's local time is ahead of UTC at that instant. Which
/// offset it is depends on the machine; a `FixedOffset` is always less than a
/// day either way. `from_timestamp` gives an instant for every second from
/// the year -262143 to the year 262142 with nanoseconds as `shown_instant`
/// asks.
#[verifier::external_body]
fn local_offset(seconds: i64, nanos: u32) -> (offset: Option<i32>)
    requires
        shown_instant(seconds as int, nanos as int),
    ensures
        offset is Some,
        offset matches Some(ahead) ==> -86_400 < ahead,
        offset matches Some(ahead) ==> ahead < 86_400,
{
    match chrono::DateTime::from_timestamp(seconds, nanos) {
        Some(at) => Some(at.with_timezone(&chrono::Local).offset().local_minus_utc()),
        None => None,
    }
}

/// Calls chrono's `DateTime::from_timestamp` and `FixedOffset::east_opt`,
/// then `with_timezone`, `date_naive` and the date's `to_string`. The date
/// depends on the second and the offset alone. `east_opt` takes every offset
/// of less than a day, and `date_naive` stays in the calendar where the
/// instant is a day away from both ends.
#[verifier::external_body]
fn date_at(seconds: i64, nanos: u32, offset: i32) -> (date: Option<String>)
    requires
        shown_instant(seconds as int, nanos as int),
        -86_400 < offset,
        offset < 86_400,
    ensures
        date is Some,
        date matches Some(text) ==> text@ == date_text(seconds as int, offset as int),
{
    match (chrono::DateTime::from_timestamp(seconds, nanos), chrono::FixedOffset::east_opt(offset)) {
        (Some(at), Some(zone)) => Some(at.with_timezone(&zone).date_naive().to_string()),
        _ => None,
    }
}

/// Whether the date of `at` can be shown in every time zone.
fn shown(at: &Datetime) -> (b: bool)
    ensures
        b == can_be_shown(at@),
{
    let seconds = at.seconds();
    let nanos = at.subsec_nanos();
    if seconds < FIRST_SHOWN_SECOND || seconds > LAST_SHOWN_SECOND {
        return false;
    }
    let minute_ends: bool = seconds % 60 == 59 || seconds % 60 == -1;
    nanos < 1_000_000_000 || (nanos < 2_000_000_000 && minute_ends)
}

/// The calendar date of `at` in the time zone that is `offset` seconds ahead
/// of UTC. There is one exactly for the instants that can be shown in every
/// time zone.
pub fn date_in_zone(at: &Datetime, offset: i32) -> (date: Option<String>)
    requires
        -86_400 < offset < 86_400,
    ensures
        date is Some <==> can_be_shown(at@),
        date matches Some(text) ==> text@ == date_text(at@.seconds, offset as int),
{
    if !shown(at) {
        return None;
    }
    date_at(at.seconds(), at.subsec_nanos(), offset)
}

/// The calendar date of `at` where the machine is: what the page shows as a
/// date. There is one exactly for the instants that can be shown in every
/// time zone, and it is the date of `at` in the machine's time zone, whose
/// offset is less than a day either way.
pub fn display_date(at: &Datetime) -> (date: Option<String>)
    ensures
        date is Some <==> can_be_shown(at@),
        date matches Some(text) ==> exists|offset: int|
            -86_400 < offset < 86_400 && text@ == #[trigger] date_text(at@.seconds, offset),
{
    if !shown(at) {
        return None;
    }
    match local_offset(at.seconds(), at.subsec_nanos()) {
        Some(offset) => date_in_zone(at, offset),
        None => None,
    }
}

} // verus!
