//! The data of the service: instants, stored rows, and the answers given to clients.

use vstd::prelude::*;
use vstd::string::*;
use vstd::utf8::{encode_utf8, is_char_boundary};

verus! {

/// An instant in UTC: whole seconds since the Unix epoch and the nanoseconds
/// past that second.
#[derive(Clone, Copy, Debug, PartialEq, Eq, Structural)]
pub struct Timestamp {
    pub secs: i64,
    pub nanos: u32,
}

impl Timestamp {
    /// `self` is not later than `other`.
    pub open spec fn at_or_before(self, other: Timestamp) -> bool {
        self.secs < other.secs || (self.secs == other.secs && self.nanos <= other.nanos)
    }

    /// Whether `self` is not later than `other`.
    pub fn le(&self, other: &Timestamp) -> (b: bool)
        ensures
            b == self.at_or_before(*other),
    {
        self.secs < other.secs || (self.secs == other.secs && self.nanos <= other.nanos)
    }
}

/// The order of a nullable creation date in an ascending read: dates by
/// time, and a missing date after every date.
pub open spec fn date_le(a: Option<Timestamp>, b: Option<Timestamp>) -> bool {
    match (a, b) {
        (_, None) => true,
        (None, Some(_)) => false,
        (Some(x), Some(y)) => x.at_or_before(y),
    }
}

/// Whether `a` stands before `b`, or level with it, in an ascending read.
pub fn date_not_after(a: &Option<Timestamp>, b: &Option<Timestamp>) -> (r: bool)
    ensures
        r == date_le(*a, *b),
{
    match (a, b) {
        (_, None) => true,
        (None, Some(_)) => false,
        (Some(x), Some(y)) => x.le(y),
    }
}

/// What a client submits.
#[derive(Clone, Debug, PartialEq, Eq)]
pub struct Paste {
    pub title: String,
    pub body: String,
}

/// One row of the paste table.
#[derive(Clone, Debug, PartialEq, Eq)]
pub struct PasteRecord {
    pub id: u64,
    pub hash: String,
    pub title: String,
    pub body: String,
    pub creation_date: Option<Timestamp>,
    pub click_count: i32,
}

/// The mathematical value of a row.
pub struct RecordView {
    pub id: int,
    pub hash: Seq<char>,
    pub title: Seq<char>,
    pub body: Seq<char>,
    pub creation_date: Option<Timestamp>,
    pub click_count: int,
}

/// What a client receives for one paste.
#[derive(Clone, Debug, PartialEq, Eq)]
pub struct PasteResponse {
    pub title: String,
    pub body: String,
    pub hash: String,
    pub creation_date: Option<Timestamp>,
    pub click_count: i32,
}

/// The mathematical value of an answer.
pub struct ResponseView {
    pub title: Seq<char>,
    pub body: Seq<char>,
    pub hash: Seq<char>,
    pub creation_date: Option<Timestamp>,
    pub click_count: int,
}

/// The answer to a listing: the summaries under one name.
#[derive(Clone, Debug, PartialEq, Eq)]
pub struct PasteResponses {
    pub pastes: Vec<PasteResponse>,
}

/// Why a request was not served.
#[derive(Clone, Copy, Debug, PartialEq, Eq, Structural)]
pub enum ServiceError {
    /// No row has the hash that was asked for.
    NotFound,
    /// The table refused or failed the statement.
    Storage,
}

impl ServiceError {
    /// The HTTP status that stands for the error.
    pub fn status(&self) -> (code: u16)
        ensures
            code == (match *self {
                ServiceError::NotFound => 404u16,
                ServiceError::Storage => 500u16,
            }),
    {
        match self {
            ServiceError::NotFound => 404,
            ServiceError::Storage => 500,
        }
    }
}

impl View for PasteRecord {
    type V = RecordView;

    open spec fn view(&self) -> RecordView {
        RecordView {
            id: self.id as int,
            hash: self.hash@,
            title: self.title@,
            body: self.body@,
            creation_date: self.creation_date,
            click_count: self.click_count as int,
        }
    }
}

impl View for PasteResponse {
    type V = ResponseView;

    open spec fn view(&self) -> ResponseView {
        ResponseView {
            title: self.title@,
            body: self.body@,
            hash: self.hash@,
            creation_date: self.creation_date,
            click_count: self.click_count as int,
        }
    }
}

impl View for PasteResponses {
    type V = Seq<ResponseView>;

    open spec fn view(&self) -> Seq<ResponseView> {
        Seq::new(self.pastes@.len(), |i: int| self.pastes@[i]@)
    }
}

impl RecordView {
    /// The row as a listing shows it: everything but the body, which is empty.
    pub open spec fn summary(self) -> ResponseView {
        ResponseView {
            title: self.title,
            body: Seq::empty(),
            hash: self.hash,
            creation_date: self.creation_date,
            click_count: self.click_count,
        }
    }

    /// The row as a read by hash shows it: with its body.
    pub open spec fn full(self) -> ResponseView {
        ResponseView {
            title: self.title,
            body: self.body,
            hash: self.hash,
            creation_date: self.creation_date,
            click_count: self.click_count,
        }
    }

    /// The row with one more click.
    pub open spec fn clicked(self) -> RecordView {
        RecordView { click_count: self.click_count + 1, ..self }
    }
}

/// The row that a create statement adds: the given values, and no click yet.
pub open spec fn fresh_row(
    id: int,
    hash: Seq<char>,
    title: Seq<char>,
    body: Seq<char>,
    now: Timestamp,
) -> RecordView {
    RecordView { id, hash, title, body, creation_date: Some(now), click_count: 0 }
}

/// The longest body, in characters, that a description shows whole.
pub const SHOWN_WHOLE: usize = 60;

/// What a description shows of a body: a body of up to 60 characters whole,
/// of a longer one what follows its first 60 bytes.
pub open spec fn shown_of(body: Seq<char>, shown: Seq<char>) -> bool {
    if body.len() > SHOWN_WHOLE {
        encode_utf8(shown) == encode_utf8(body).subrange(
            SHOWN_WHOLE as int,
            encode_utf8(body).len() as int,
        )
    } else {
        shown == body
    }
}

impl PasteResponse {
    /// One line that names the title, the hash and the shown part of the
    /// body. A longer body must have a character that starts at byte 60.
    pub fn describe(&self) -> (text: String)
        requires
            self.body@.len() > SHOWN_WHOLE ==> is_char_boundary(
                encode_utf8(self.body@),
                SHOWN_WHOLE as int,
            ),
        ensures
            exists|shown: Seq<char>|
                #![auto]
                shown_of(self.body@, shown) && text@ == "title: "@ + self.title@ + ", hash: "@
                    + self.hash@ + ", body: "@ + shown,
    {
        let body = self.body.as_str();
        let shown: &str = if body.unicode_len() > SHOWN_WHOLE {
            body.split_at(SHOWN_WHOLE).1
        } else {
            body
        };
        let mut text = String::from_str("title: ");
        text.append(self.title.as_str());
        text.append(", hash: ");
        text.append(self.hash.as_str());
        text.append(", body: ");
        text.append(shown);
        assert(shown_of(self.body@, shown@));
        text
    }
}

impl PasteRecord {
    /// A row from the columns of a read. A creation date that could not be
    /// read (the outer `None`) counts as missing, a click count that could
    /// not be read as 0.
    pub fn from_columns(
        id: u64,
        hash: String,
        title: String,
        body: String,
        creation_date: Option<Option<Timestamp>>,
        click_count: Option<i32>,
    ) -> (row: PasteRecord)
        ensures
            row@ == (RecordView {
                id: id as int,
                hash: hash@,
                title: title@,
                body: body@,
                creation_date: match creation_date {
                    Some(d) => d,
                    None => None,
                },
                click_count: match click_count {
                    Some(c) => c as int,
                    None => 0,
                },
            }),
    {
        let date = match creation_date {
            Some(d) => d,
            None => None,
        };
        let clicks: i32 = match click_count {
            Some(c) => c,
            None => 0,
        };
        PasteRecord { id, hash, title, body, creation_date: date, click_count: clicks }
    }

    /// The row as a listing shows it.
    pub fn summary(&self) -> (r: PasteResponse)
        ensures
            r@ == self@.summary(),
    {
        PasteResponse {
            title: self.title.clone(),
            body: String::new(),
            hash: self.hash.clone(),
            creation_date: self.creation_date,
            click_count: self.click_count,
        }
    }

    /// The row as a read by hash shows it.
    pub fn full(&self) -> (r: PasteResponse)
        ensures
            r@ == self@.full(),
    {
        PasteResponse {
            title: self.title.clone(),
            body: self.body.clone(),
            hash: self.hash.clone(),
            creation_date: self.creation_date,
            click_count: self.click_count,
        }
    }
}

} // verus!
