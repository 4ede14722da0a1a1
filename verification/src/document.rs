//! The document model: a note as the record that is indexed and found again.

use crate::field::XapianTag;
use vstd::prelude::*;
use vstd::string::*;

verus! {

/// A point in time with the offset of its time zone.
#[derive(Clone, Copy, Debug, PartialEq, Eq, Structural)]
pub struct Timestamp {
    /// Seconds since 1970-01-01T00:00:00Z, leap seconds not counted.
    pub seconds: i64,
    /// Nanoseconds after `seconds`.
    pub nanos: u32,
    /// Seconds by which local time is ahead of UTC.
    pub offset: i32,
}

/// What is wrong with a note.
#[derive(Clone, Copy, Debug, PartialEq, Eq, Structural)]
pub enum DocumentErrorKind {
    /// The file begins with no front matter.
    MissingFrontMatter,
    /// The front matter cannot be read.
    InvalidFrontMatter,
    /// The front matter lacks its tags.
    MissingTags,
    /// The date is in neither of the two shapes.
    BadTimestamp,
}

/// An error about one note. The other notes of a batch are not touched by it.
#[derive(Debug, PartialEq, Eq)]
pub struct DocumentError {
    pub kind: DocumentErrorKind,
    /// The file name of the note.
    pub filename: String,
}

/// The second shape of a date: as the first, with an offset without a colon.
pub open spec fn fallback_format() -> Seq<char> {
    "%Y-%m-%dT%T%z"@
}

/// What `chrono::DateTime::parse_from_rfc3339` makes of `text`.
pub uninterp spec fn rfc3339_instant(text: Seq<char>) -> Option<Timestamp>;

/// What `chrono::DateTime::parse_from_str` makes of `text` under `format`.
pub uninterp spec fn formatted_instant(text: Seq<char>, format: Seq<char>) -> Option<Timestamp>;

/// What `chrono::DateTime::to_rfc3339` writes for the date and time that
/// `chrono::DateTime::from_timestamp`, `chrono::FixedOffset::east_opt` and
/// `chrono::DateTime::with_timezone` make of `instant`; nothing where one of
/// the first two refuses it.
pub uninterp spec fn rfc3339_text(instant: Timestamp) -> Option<Seq<char>>;

/// Calls `chrono::DateTime::parse_from_rfc3339`, which reads a date and time
/// with an offset in the shape of RFC 3339. The result is a function of the
/// text alone and is known by name only; a text that is refused gives `None`.
#[verifier::external_body]
fn parse_rfc3339(text: &str) -> (instant: Option<Timestamp>)
    ensures
        instant == rfc3339_instant(text@),
{
    match chrono::DateTime::parse_from_rfc3339(text) {
        Ok(at) => Some(
            Timestamp {
                seconds: at.timestamp(),
                nanos: at.timestamp_subsec_nanos(),
                offset: at.offset().local_minus_utc(),
            },
        ),
        Err(_) => None,
    }
}

/// Calls `chrono::DateTime::parse_from_str`, which reads a date and time with
/// an offset as `format` lays it out. The result is a function of the two
/// texts alone and is known by name only; a text or a format that is refused
/// gives `None`.
#[verifier::external_body]
fn parse_formatted(text: &str, format: &str) -> (instant: Option<Timestamp>)
    ensures
        instant == formatted_instant(text@, format@),
{
    match chrono::DateTime::parse_from_str(text, format) {
        Ok(at) => Some(
            Timestamp {
                seconds: at.timestamp(),
                nanos: at.timestamp_subsec_nanos(),
                offset: at.offset().local_minus_utc(),
            },
        ),
        Err(_) => None,
    }
}

/// Calls `chrono::DateTime::to_rfc3339` on the date and time that `instant`
/// holds. The date and time are made of the seconds and nanoseconds by
/// `chrono::DateTime::from_timestamp` and moved to the offset, which
/// `chrono::FixedOffset::east_opt` makes, by `chrono::DateTime::with_timezone`.
/// The text is a function of `instant` alone and is known by name only; there
/// is none where `chrono` has no such date or offset.
#[verifier::external_body]
fn write_rfc3339(instant: Timestamp) -> (text: Option<String>)
    ensures
        match text {
            Some(text) => rfc3339_text(instant) == Some(text@),
            None => rfc3339_text(instant) is None,
        },
{
    let zone = chrono::FixedOffset::east_opt(instant.offset)?;
    let utc = chrono::DateTime::from_timestamp(instant.seconds, instant.nanos)?;
    Some(utc.with_timezone(&zone).to_rfc3339())
}

/// The instant of a date that was read in both shapes: the first shape
/// counts, and the second where the first was refused.
pub open spec fn first_of(first: Option<Timestamp>, second: Option<Timestamp>) -> Option<
    Timestamp,
> {
    match first {
        Some(instant) => Some(instant),
        None => second,
    }
}

/// The instant that the date `text` stands for.
pub open spec fn instant_of(text: Seq<char>) -> Option<Timestamp> {
    first_of(rfc3339_instant(text), formatted_instant(text, fallback_format()))
}

/// The text under which the date `text` is indexed: the instant that it
/// stands for, written in the shape of RFC 3339.
pub open spec fn date_text_of(text: Seq<char>) -> Option<Seq<char>> {
    match instant_of(text) {
        Some(instant) => rfc3339_text(instant),
        None => None,
    }
}

/// Picks the instant of a date that was read in both shapes.
pub fn pick_instant(first: Option<Timestamp>, second: Option<Timestamp>) -> (instant: Option<
    Timestamp,
>)
    ensures
        instant == first_of(first, second),
{
    match first {
        Some(instant) => Some(instant),
        None => second,
    }
}

/// Reads a date in one of its two shapes.
pub fn read_instant(text: &str) -> (instant: Option<Timestamp>)
    ensures
        instant == instant_of(text@),
{
    match parse_rfc3339(text) {
        Some(instant) => pick_instant(Some(instant), None),
        None => pick_instant(None, parse_formatted(text, "%Y-%m-%dT%T%z")),
    }
}

/// The tags of a note as the front matter gives them: one text, or a list.
#[derive(Debug, PartialEq, Eq)]
pub enum TagsValue {
    Scalar(String),
    List(Vec<String>),
}

impl TagsValue {
    /// The list of tags that the value stands for.
    pub open spec fn tags(self) -> Seq<String> {
        match self {
            TagsValue::Scalar(tag) => seq![tag],
            TagsValue::List(tags) => tags@,
        }
    }
}

/// Makes the list of tags: a single text is the list of that one tag, and a
/// list stays as it is.
pub fn string_or_list_string(value: TagsValue) -> (tags: Vec<String>)
    ensures
        tags@ == value.tags(),
{
    match value {
        TagsValue::Scalar(tag) => {
            let mut tags: Vec<String> = Vec::new();
            tags.push(tag);
            tags
        },
        TagsValue::List(tags) => tags,
    }
}

/// The metadata of a note as its front matter gives it. What the front
/// matter leaves out is `None`.
#[derive(Debug, PartialEq, Eq)]
pub struct FrontMatter {
    pub filename: Option<String>,
    pub author: Option<String>,
    pub date: Option<String>,
    pub tags: Option<TagsValue>,
    pub title: Option<String>,
    pub subtitle: Option<String>,
}

/// A note.
#[derive(Clone, Debug, PartialEq, Eq)]
pub struct TikaDocument {
    /// Name of the file; the identity of the note is made of it.
    pub filename: String,
    /// Where the file was found. Never read from the front matter.
    pub full_path: String,
    pub author: String,
    /// The date as the front matter gives it.
    pub date: String,
    pub tags: Vec<String>,
    pub title: String,
    pub subtitle: String,
    /// The Markdown text after the front matter.
    pub body: String,
}

/// A text to index, scoped to a field or, without one, to the body.
#[derive(Debug, PartialEq, Eq)]
pub struct IndexTerm {
    pub field: Option<XapianTag>,
    pub text: String,
}

/// The text of `value`, or the empty text.
pub open spec fn text_or_empty(value: Option<String>) -> Seq<char> {
    match value {
        Some(text) => text@,
        None => Seq::empty(),
    }
}

/// The file name of a note: the one that the front matter gives unless it
/// gives none or an empty one, and else the name of the file.
pub open spec fn file_name_of(given: Option<String>, file_name: Seq<char>) -> Seq<char> {
    match given {
        Some(name) => if name@.len() == 0 {
            file_name
        } else {
            name@
        },
        None => file_name,
    }
}

/// The identity term of the note of the given file name.
pub open spec fn identity(filename: Seq<char>) -> Seq<char> {
    "Q"@ + filename
}

fn or_empty(value: Option<String>) -> (text: String)
    ensures
        text@ == text_or_empty(value),
{
    match value {
        Some(text) => text,
        None => String::new(),
    }
}

impl IndexTerm {
    /// What the term stands for: its field and its text.
    pub open spec fn entry(self) -> (Option<XapianTag>, Seq<char>) {
        (self.field, self.text@)
    }
}

impl TikaDocument {
    /// Whether this is the note that `front` describes, found at `full_path`
    /// in a file named `file_name`, with `body` after the front matter.
    pub open spec fn made_of(
        self,
        front: FrontMatter,
        file_name: Seq<char>,
        full_path: Seq<char>,
        body: Seq<char>,
    ) -> bool {
        &&& self.filename@ == file_name_of(front.filename, file_name)
        &&& self.full_path@ == full_path
        &&& self.author@ == text_or_empty(front.author)
        &&& self.date@ == text_or_empty(front.date)
        &&& front.tags matches Some(tags) && self.tags@ == tags.tags()
        &&& self.title@ == text_or_empty(front.title)
        &&& self.subtitle@ == text_or_empty(front.subtitle)
        &&& self.body@ == body
    }

    /// The error that keeps `front` from being a note, if there is one:
    /// the tags are checked before the date.
    pub open spec fn refusal(front: FrontMatter) -> Option<DocumentErrorKind> {
        if front.tags is None {
            Some(DocumentErrorKind::MissingTags)
        } else if instant_of(text_or_empty(front.date)) is None {
            Some(DocumentErrorKind::BadTimestamp)
        } else {
            None
        }
    }

    /// Makes the note that `front` describes. A text that the front matter
    /// leaves out is empty. The note is refused where the front matter has no
    /// tags, or no date in one of the two shapes; the error names the file.
    pub fn from_front_matter(
        front: FrontMatter,
        file_name: &str,
        full_path: &str,
        body: &str,
    ) -> (r: Result<TikaDocument, DocumentError>)
        ensures
            match r {
                Ok(note) => Self::refusal(front) is None && note.made_of(
                    front,
                    file_name@,
                    full_path@,
                    body@,
                ),
                Err(error) => Self::refusal(front) == Some(error.kind) && error.filename@
                    == file_name_of(front.filename, file_name@),
            },
    {
        let filename = match front.filename {
            Some(name) => if name.as_str().is_empty() {
                file_name.to_owned()
            } else {
                name
            },
            None => file_name.to_owned(),
        };
        let tags = match front.tags {
            Some(tags) => string_or_list_string(tags),
            None => {
                return Err(DocumentError { kind: DocumentErrorKind::MissingTags, filename });
            },
        };
        let date = or_empty(front.date);
        if read_instant(date.as_str()).is_none() {
            return Err(DocumentError { kind: DocumentErrorKind::BadTimestamp, filename });
        }
        Ok(
            TikaDocument {
                filename,
                full_path: full_path.to_owned(),
                author: or_empty(front.author),
                date,
                tags,
                title: or_empty(front.title),
                subtitle: or_empty(front.subtitle),
                body: body.to_owned(),
            },
        )
    }

    /// The identity term of the note: `Q` and the file name. Two notes of
    /// one file name are one entry of the index.
    pub fn id(&self) -> (id: String)
        ensures
            id@ == identity(self.filename@),
    {
        String::from_str("Q").concat(self.filename.as_str())
    }

    /// The instant that the date of the note stands for.
    pub fn parse_date(&self) -> (r: Result<Timestamp, DocumentErrorKind>)
        ensures
            match r {
                Ok(instant) => instant_of(self.date@) == Some(instant),
                Err(kind) => kind == DocumentErrorKind::BadTimestamp && instant_of(self.date@)
                    is None,
            },
    {
        match read_instant(self.date.as_str()) {
            Some(instant) => Ok(instant),
            None => Err(DocumentErrorKind::BadTimestamp),
        }
    }

    /// The text under which the date of the note is indexed.
    pub fn date_str(&self) -> (r: Result<String, DocumentErrorKind>)
        ensures
            match r {
                Ok(text) => date_text_of(self.date@) == Some(text@),
                Err(kind) => kind == DocumentErrorKind::BadTimestamp && date_text_of(self.date@)
                    is None,
            },
    {
        match read_instant(self.date.as_str()) {
            Some(instant) => match write_rfc3339(instant) {
                Some(text) => Ok(text),
                None => Err(DocumentErrorKind::BadTimestamp),
            },
            None => Err(DocumentErrorKind::BadTimestamp),
        }
    }

    /// The texts that are indexed for a note whose date is indexed as `date`:
    /// the author, the date, the file name, the full path, the title, the
    /// subtitle and each tag under the prefix of its field, and last the body
    /// under none.
    pub open spec fn terms(self, date: Seq<char>) -> Seq<(Option<XapianTag>, Seq<char>)> {
        seq![
            (Some(XapianTag::Author), self.author@),
            (Some(XapianTag::Date), date),
            (Some(XapianTag::Filename), self.filename@),
            (Some(XapianTag::Fullpath), self.full_path@),
            (Some(XapianTag::Title), self.title@),
            (Some(XapianTag::Subtitle), self.subtitle@),
        ] + Seq::new(self.tags@.len(), |i: int| (Some(XapianTag::Tag), self.tags@[i]@)).push(
            (None, self.body@),
        )
    }

    /// Lists the texts to index for the note, in the order in which they are
    /// handed to the search engine. Fails where the date cannot be read.
    pub fn index_terms(&self) -> (r: Result<Vec<IndexTerm>, DocumentErrorKind>)
        ensures
            match r {
                Ok(terms) => date_text_of(self.date@) matches Some(date) && terms@.map_values(
                    |term: IndexTerm| term.entry(),
                ) == self.terms(date),
                Err(kind) => kind == DocumentErrorKind::BadTimestamp && date_text_of(self.date@)
                    is None,
            },
    {
        let date = match self.date_str() {
            Ok(date) => date,
            Err(kind) => {
                return Err(kind);
            },
        };
        let ghost date_text = date@;
        let mut terms: Vec<IndexTerm> = Vec::new();
        terms.push(IndexTerm { field: Some(XapianTag::Author), text: self.author.clone() });
        terms.push(IndexTerm { field: Some(XapianTag::Date), text: date });
        terms.push(IndexTerm { field: Some(XapianTag::Filename), text: self.filename.clone() });
        terms.push(IndexTerm { field: Some(XapianTag::Fullpath), text: self.full_path.clone() });
        terms.push(IndexTerm { field: Some(XapianTag::Title), text: self.title.clone() });
        terms.push(IndexTerm { field: Some(XapianTag::Subtitle), text: self.subtitle.clone() });
        let ghost fixed = terms@.map_values(|term: IndexTerm| term.entry());
        let mut i: usize = 0;
        while i < self.tags.len()
            invariant
                i <= self.tags@.len(),
                terms@.map_values(|term: IndexTerm| term.entry()) == fixed + Seq::new(
                    i as nat,
                    |k: int| (Some(XapianTag::Tag), self.tags@[k]@),
                ),
            decreases self.tags@.len() - i,
        {
            let ghost before = terms@.map_values(|term: IndexTerm| term.entry());
            let term = IndexTerm { field: Some(XapianTag::Tag), text: self.tags[i].clone() };
            terms.push(term);
            assert(terms@.map_values(|term: IndexTerm| term.entry()) =~= before.push(
                term.entry(),
            ));
            assert(fixed + Seq::new(
                (i + 1) as nat,
                |k: int| (Some(XapianTag::Tag), self.tags@[k]@),
            ) =~= (fixed + Seq::new(
                i as nat,
                |k: int| (Some(XapianTag::Tag), self.tags@[k]@),
            )).push(term.entry()));
            i = i + 1;
        }
        let ghost before = terms@.map_values(|term: IndexTerm| term.entry());
        let last = IndexTerm { field: None, text: self.body.clone() };
        terms.push(last);
        assert(fixed =~= seq![
            (Some(XapianTag::Author), self.author@),
            (Some(XapianTag::Date), date_text),
            (Some(XapianTag::Filename), self.filename@),
            (Some(XapianTag::Fullpath), self.full_path@),
            (Some(XapianTag::Title), self.title@),
            (Some(XapianTag::Subtitle), self.subtitle@),
        ]);
        assert(before.push(last.entry()) =~= self.terms(date_text));
        Ok(terms)
    }
}

} // verus!
