//! Validated strings of the network: an author's identity and a timestamp.

use std::str::FromStr;
use vstd::prelude::*;

verus! {

/// A lower-case ASCII letter.
pub open spec fn is_lower(c: char) -> bool {
    'a' <= c && c <= 'z'
}

/// An ASCII letter or digit.
pub open spec fn is_alnum(c: char) -> bool {
    is_lower(c) || ('A' <= c && c <= 'Z') || ('0' <= c && c <= '9')
}

/// A character that may stand inside the method-specific part of an identity.
pub open spec fn is_did_body_char(c: char) -> bool {
    is_alnum(c) || c == '.' || c == '_' || c == ':' || c == '%' || c == '-'
}

/// A character that may end an identity.
pub open spec fn is_did_last_char(c: char) -> bool {
    is_alnum(c) || c == '.' || c == '_' || c == '-'
}

/// `s` is `did:`, a method of one or more lower-case letters that ends at
/// index `colon`, a colon, and a method-specific part whose last character is
/// none of `:` and `%`.
pub open spec fn did_shape(s: Seq<char>, colon: int) -> bool {
    &&& 5 <= colon < s.len() - 1
    &&& s[0] == 'd' && s[1] == 'i' && s[2] == 'd' && s[3] == ':'
    &&& forall|i: int| 4 <= i < colon ==> is_lower(#[trigger] s[i])
    &&& s[colon] == ':'
    &&& forall|i: int| colon < i < s.len() - 1 ==> is_did_body_char(#[trigger] s[i])
    &&& is_did_last_char(s[s.len() - 1])
}

/// The syntax of an identity: at most 2048 characters in the shape above.
pub open spec fn is_did(s: Seq<char>) -> bool {
    s.len() <= 2048 && exists|colon: int| did_shape(s, colon)
}

/// What parsing a timestamp text gives: the seconds since the epoch and the
/// nanoseconds within that second of the instant it names, or `None` where
/// the text is no timestamp.
pub uninterp spec fn datetime_instant(text: Seq<char>) -> Option<(i64, u32)>;

/// Calls `atrium_api::types::string::Did::new`. It accepts exactly the
/// strings of at most 2048 bytes that match
/// `^did:[a-z]+:[a-zA-Z0-9._:%-]*[a-zA-Z0-9._-]$`, and hands an accepted
/// string back unchanged; every accepted string is ASCII, so bytes and
/// characters count alike.
#[verifier::external_body]
fn parse_did(did: String) -> (r: Result<String, &'static str>)
    ensures
        r is Ok <==> is_did(did@),
        r matches Ok(s) ==> s@ == did@,
{
    atrium_api::types::string::Did::new(did).map(String::from)
}

/// The first second that a timestamp can name: a day before the first second
/// of the year 0.
pub const FIRST_WRITTEN_SECOND: i64 = -62_167_305_600;

/// The last second that a timestamp can name: a day after the last second of
/// the year 9999.
pub const LAST_WRITTEN_SECOND: i64 = 253_402_387_199;

/// An instant that a timestamp can name. A timestamp writes its year in four
/// digits and its offset from UTC in hours and minutes of less than a day, so
/// the instant lies in the years 0 to 9999 with a day to spare at both ends.
/// Its nanoseconds are under a second, or under two in the last second of a
/// minute (a leap second).
pub open spec fn written_instant(seconds: int, nanos: int) -> bool {
    &&& FIRST_WRITTEN_SECOND <= seconds <= LAST_WRITTEN_SECOND
    &&& 0 <= nanos
    &&& nanos < 1_000_000_000 || (nanos < 2_000_000_000 && seconds % 60 == 59)
}

/// Calls `atrium_api::types::string::Datetime::from_str` and reads the
/// instant of the value it gives with chrono's `timestamp` and
/// `timestamp_subsec_nanos`. The result depends on the text alone. The
/// parser takes a year of four digits and an offset of whole minutes that is
/// less than a day, and writes a second numbered 60 as a second more within
/// the second numbered 59: hence `written_instant`.
#[verifier::external_body]
fn parse_instant(text: &str) -> (r: Option<(i64, u32)>)
    ensures
        r == datetime_instant(text@),
        r matches Some(p) ==> written_instant(p.0 as int, p.1 as int),
{
    match atrium_api::types::string::Datetime::from_str(text) {
        Ok(d) => Some((d.as_ref().timestamp(), d.as_ref().timestamp_subsec_nanos())),
        Err(_) => None,
    }
}

/// Calls `atrium_api::types::string::Datetime::now` and takes its text. The
/// text is the current time in UTC with six fractional digits and a final
/// `Z`, which `Datetime::from_str` accepts.
#[verifier::external_body]
fn clock_text() -> (text: String)
    ensures
        datetime_instant(text@) is Some,
{
    atrium_api::types::string::Datetime::now().as_str().to_owned()
}

/// A character of the sortable base-32 alphabet.
pub open spec fn is_tid_char(c: char) -> bool {
    ('2' <= c && c <= '7') || ('a' <= c && c <= 'z')
}

/// The syntax of a timestamp identifier: thirteen characters of the sortable
/// base-32 alphabet, the first of them one of its first sixteen.
pub open spec fn is_tid(s: Seq<char>) -> bool {
    &&& s.len() == 13
    &&& ('2' <= s[0] && s[0] <= '7') || ('a' <= s[0] && s[0] <= 'j')
    &&& forall|i: int| 1 <= i < 13 ==> is_tid_char(#[trigger] s[i])
}

/// Calls `atrium_api::types::string::Tid::now` with the clock identifier
/// `clock_id`, which must fit in ten bits, and takes its text. Whatever the
/// time, the text is thirteen characters that encode a 64-bit number five bits
/// at a time in the alphabet `234567abcdefghijklmnopqrstuvwxyz`, highest
/// first, so the first one encodes four bits.
#[verifier::external_body]
fn tid_now(clock_id: u32) -> (tid: String)
    requires
        clock_id <= 1023,
    ensures
        is_tid(tid@),
{
    atrium_api::types::string::Tid::now(clock_id.try_into().unwrap()).as_str().to_owned()
}

/// A fresh record key: the timestamp identifier of the current time.
pub fn fresh_record_key() -> (key: String)
    ensures
        is_tid(key@),
{
    tid_now(0)
}

/// The identity of an author.
#[derive(Debug)]
pub struct Did {
    text: String,
}

impl View for Did {
    type V = Seq<char>;

    closed spec fn view(&self) -> Seq<char> {
        self.text@
    }
}

impl Did {
    #[verifier::type_invariant]
    spec fn well_formed(self) -> bool {
        is_did(self.text@)
    }

    /// Parses an identity. The error is the reason the parser gave.
    pub fn new(did: String) -> (r: Result<Did, &'static str>)
        ensures
            r is Ok <==> is_did(did@),
            r matches Ok(d) ==> d@ == did@,
    {
        match parse_did(did) {
            Ok(text) => Ok(Did { text }),
            Err(reason) => Err(reason),
        }
    }

    /// Whether the two identities are the same text.
    pub fn same(&self, other: &Did) -> (b: bool)
        ensures
            b == (self@ == other@),
    {
        self.text == other.text
    }

    /// The identity as text.
    pub fn as_str(&self) -> (s: &str)
        ensures
            s@ == self@,
            is_did(s@),
    {
        proof {
            use_type_invariant(self);
        }
        self.text.as_str()
    }
}

impl Clone for Did {
    fn clone(&self) -> (r: Self)
        ensures
            r@ == self@,
    {
        proof {
            use_type_invariant(self);
        }
        Did { text: self.text.clone() }
    }
}

/// The mathematical content of a timestamp.
pub struct Moment {
    pub text: Seq<char>,
    pub seconds: int,
    pub nanos: int,
}

impl Moment {
    /// `self` names an earlier instant than `other`.
    pub open spec fn before(self, other: Moment) -> bool {
        self.seconds < other.seconds || (self.seconds == other.seconds && self.nanos
            < other.nanos)
    }

    /// The text parses to the instant, which is one that a timestamp can name.
    pub open spec fn wf(self) -> bool {
        &&& datetime_instant(self.text) matches Some(p) && p.0 == self.seconds && p.1
            == self.nanos
        &&& written_instant(self.seconds, self.nanos)
    }
}

/// A timestamp: its text as it is stored, and the instant that the text names.
#[derive(Debug)]
pub struct Datetime {
    text: String,
    seconds: i64,
    nanos: u32,
}

impl View for Datetime {
    type V = Moment;

    closed spec fn view(&self) -> Moment {
        Moment { text: self.text@, seconds: self.seconds as int, nanos: self.nanos as int }
    }
}

impl Datetime {
    /// Builds the timestamp of `text` from what parsing `text` gave: none
    /// where parsing gave none, else the text with the instant it gave.
    pub fn from_parsed(text: String, parsed: Option<(i64, u32)>) -> (r: Option<Datetime>)
        ensures
            match parsed {
                Some(p) => r matches Some(d) && d@ == (Moment {
                    text: text@,
                    seconds: p.0 as int,
                    nanos: p.1 as int,
                }),
                None => r is None,
            },
    {
        match parsed {
            Some((seconds, nanos)) => Some(Datetime { text, seconds, nanos }),
            None => None,
        }
    }

    /// Parses a timestamp.
    pub fn parse(text: &str) -> (r: Option<Datetime>)
        ensures
            r is Some <==> datetime_instant(text@) is Some,
            r matches Some(d) ==> d@.text == text@ && d@.wf(),
    {
        let parsed = parse_instant(text);
        Datetime::from_parsed(text.to_owned(), parsed)
    }

    /// The current time.
    pub fn now() -> (d: Datetime)
        ensures
            d@.wf(),
    {
        let text = clock_text();
        let parsed = parse_instant(text.as_str());
        match Datetime::from_parsed(text, parsed) {
            Some(d) => d,
            None => vstd::pervasive::unreached(),
        }
    }

    /// The seconds of the instant since the epoch.
    pub fn seconds(&self) -> (seconds: i64)
        ensures
            seconds == self@.seconds,
    {
        self.seconds
    }

    /// The nanoseconds of the instant within its second.
    pub fn subsec_nanos(&self) -> (nanos: u32)
        ensures
            nanos == self@.nanos,
    {
        self.nanos
    }

    /// The timestamp as text.
    pub fn as_str(&self) -> (s: &str)
        ensures
            s@ == self@.text,
    {
        self.text.as_str()
    }

    /// Whether `self` names an earlier instant than `other`.
    pub fn before(&self, other: &Datetime) -> (b: bool)
        ensures
            b == self@.before(other@),
    {
        self.seconds < other.seconds || (self.seconds == other.seconds && self.nanos
            < other.nanos)
    }
}

impl Clone for Datetime {
    fn clone(&self) -> (r: Self)
        ensures
            r@ == self@,
    {
        Datetime { text: self.text.clone(), seconds: self.seconds, nanos: self.nanos }
    }
}

} // verus!
