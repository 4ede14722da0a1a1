//! The fields of a note and the term prefixes that scope a term to a field.
//!
//! Indexing and query parsing both take the prefix of a field from
//! `XapianTag::to_xapian`, so a term typed as `author:jane` carries the prefix
//! under which the author of a note was indexed.

use crate::chars::{ascii, ascii_bytes, begins, begins_at, same_byte, COLON};
use crate::recognize::{value_at, value_end};
use crate::span::{IResult, Span, Stop};
use vstd::prelude::*;
use vstd::string::*;

verus! {

/// How many fields there are.
pub const FIELD_COUNT: usize = 7;

/// A field of a note that a query term can be scoped to.
#[derive(Clone, Copy, Debug, PartialEq, Eq, Structural)]
pub enum XapianTag {
    Author,
    Date,
    Filename,
    Fullpath,
    Title,
    Subtitle,
    Tag,
}

impl XapianTag {
    /// The term prefix of the field. The file name and the full path share
    /// one.
    pub open spec fn prefix(self) -> Seq<char> {
        match self {
            XapianTag::Author => "A"@,
            XapianTag::Date => "D"@,
            XapianTag::Filename => "F"@,
            XapianTag::Fullpath => "F"@,
            XapianTag::Title => "S"@,
            XapianTag::Subtitle => "XS"@,
            XapianTag::Tag => "K"@,
        }
    }

    /// The name that the field is typed as, in small letters.
    pub open spec fn name(self) -> Seq<u8> {
        match self {
            // filename
            XapianTag::Filename => seq![
                0x66u8, 0x69u8, 0x6cu8, 0x65u8, 0x6eu8, 0x61u8, 0x6du8, 0x65u8,
            ],
            // fullpath
            XapianTag::Fullpath => seq![
                0x66u8, 0x75u8, 0x6cu8, 0x6cu8, 0x70u8, 0x61u8, 0x74u8, 0x68u8,
            ],
            // subtitle
            XapianTag::Subtitle => seq![
                0x73u8, 0x75u8, 0x62u8, 0x74u8, 0x69u8, 0x74u8, 0x6cu8, 0x65u8,
            ],
            // author
            XapianTag::Author => seq![0x61u8, 0x75u8, 0x74u8, 0x68u8, 0x6fu8, 0x72u8],
            // title
            XapianTag::Title => seq![0x74u8, 0x69u8, 0x74u8, 0x6cu8, 0x65u8],
            // date
            XapianTag::Date => seq![0x64u8, 0x61u8, 0x74u8, 0x65u8],
            // tag
            XapianTag::Tag => seq![0x74u8, 0x61u8, 0x67u8],
        }
    }

    /// The field whose name is tried at place `rank`, from 0 on; for a place
    /// after the last, the last.
    pub open spec fn of_rank(rank: int) -> XapianTag {
        if rank == 0 {
            XapianTag::Filename
        } else if rank == 1 {
            XapianTag::Fullpath
        } else if rank == 2 {
            XapianTag::Subtitle
        } else if rank == 3 {
            XapianTag::Author
        } else if rank == 4 {
            XapianTag::Title
        } else if rank == 5 {
            XapianTag::Date
        } else {
            XapianTag::Tag
        }
    }

    /// The field that `name` names, whatever the case of its letters.
    pub open spec fn named(name: Seq<u8>, rank: int) -> Option<XapianTag>
        decreases FIELD_COUNT - rank,
    {
        if rank >= FIELD_COUNT {
            None
        } else if name.len() == Self::of_rank(rank).name().len() && begins(
            name,
            0,
            Self::of_rank(rank).name(),
            true,
        ) {
            Some(Self::of_rank(rank))
        } else {
            Self::named(name, rank + 1)
        }
    }

    /// The field whose name the text begins with, in any case of its
    /// letters: the first field from place `rank` on whose name stands there.
    pub open spec fn heading(s: Seq<u8>, rank: int) -> Option<XapianTag>
        decreases FIELD_COUNT - rank,
    {
        if rank >= FIELD_COUNT {
            None
        } else if begins(s, 0, Self::of_rank(rank).name(), true) {
            Some(Self::of_rank(rank))
        } else {
            Self::heading(s, rank + 1)
        }
    }

    /// The field term that the text begins with: the field, and the offsets
    /// at which its value begins and ends. The value may end with the text.
    pub open spec fn term_at(s: Seq<u8>) -> Result<(XapianTag, int, int), Stop> {
        match Self::heading(s, 0) {
            None => Err(Stop::Mismatch),
            Some(tag) => {
                let colon = tag.name().len() as int;
                if colon >= s.len() || s[colon] != COLON {
                    Err(Stop::Mismatch)
                } else {
                    match value_at(s, colon + 1) {
                        Err(stop) => Err(stop),
                        Ok(end) => Ok((tag, colon + 1, end)),
                    }
                }
            },
        }
    }

    /// What the field is shown as: its prefix between angle brackets.
    pub open spec fn label(self) -> Seq<char> {
        "<"@ + self.prefix() + ">"@
    }

    /// What the field is shown as: its prefix between angle brackets.
    pub fn to_string(&self) -> (text: String)
        ensures
            text@ == self.label(),
    {
        String::from_str("<").concat(self.to_xapian()).concat(">")
    }

    /// The term prefix of the field.
    pub fn to_xapian(self) -> (prefix: &'static str)
        ensures
            prefix@ == self.prefix(),
            is_ascii(prefix),
    {
        proof {
            reveal_strlit("A");
            reveal_strlit("D");
            reveal_strlit("F");
            reveal_strlit("S");
            reveal_strlit("XS");
            reveal_strlit("K");
        }
        match self {
            XapianTag::Author => "A",
            XapianTag::Date => "D",
            XapianTag::Filename => "F",
            XapianTag::Fullpath => "F",
            XapianTag::Title => "S",
            XapianTag::Subtitle => "XS",
            XapianTag::Tag => "K",
        }
    }

    fn name_text(self) -> (text: &'static str)
        ensures
            is_ascii(text),
            ascii(text@) == self.name(),
    {
        proof {
            reveal_strlit("filename");
            reveal_strlit("fullpath");
            reveal_strlit("subtitle");
            reveal_strlit("author");
            reveal_strlit("title");
            reveal_strlit("date");
            reveal_strlit("tag");
            assert(ascii("filename"@) =~= XapianTag::Filename.name());
            assert(ascii("fullpath"@) =~= XapianTag::Fullpath.name());
            assert(ascii("subtitle"@) =~= XapianTag::Subtitle.name());
            assert(ascii("author"@) =~= XapianTag::Author.name());
            assert(ascii("title"@) =~= XapianTag::Title.name());
            assert(ascii("date"@) =~= XapianTag::Date.name());
            assert(ascii("tag"@) =~= XapianTag::Tag.name());
        }
        match self {
            XapianTag::Filename => "filename",
            XapianTag::Fullpath => "fullpath",
            XapianTag::Subtitle => "subtitle",
            XapianTag::Author => "author",
            XapianTag::Title => "title",
            XapianTag::Date => "date",
            XapianTag::Tag => "tag",
        }
    }

    /// The bytes of the field's name.
    pub fn name_bytes(self) -> (bytes: &'static [u8])
        ensures
            bytes@ == self.name(),
    {
        ascii_bytes(self.name_text())
    }

    /// The field whose name is tried at place `rank`.
    pub fn ranked(rank: usize) -> (tag: XapianTag)
        ensures
            tag == Self::of_rank(rank as int),
    {
        if rank == 0 {
            XapianTag::Filename
        } else if rank == 1 {
            XapianTag::Fullpath
        } else if rank == 2 {
            XapianTag::Subtitle
        } else if rank == 3 {
            XapianTag::Author
        } else if rank == 4 {
            XapianTag::Title
        } else if rank == 5 {
            XapianTag::Date
        } else {
            XapianTag::Tag
        }
    }

    /// Resolves the name of a field, whatever the case of its letters. A name
    /// of no field resolves to nothing, which is no error.
    pub fn from_name(name: &[u8]) -> (tag: Option<XapianTag>)
        ensures
            tag == Self::named(name@, 0),
    {
        let mut rank: usize = 0;
        while rank < FIELD_COUNT
            invariant
                rank <= FIELD_COUNT,
                Self::named(name@, 0) == Self::named(name@, rank as int),
            decreases FIELD_COUNT - rank,
        {
            let tag = Self::ranked(rank);
            let known = tag.name_bytes();
            if name.len() == known.len() && begins_at(name, 0, known, true) {
                return Some(tag);
            }
            rank = rank + 1;
        }
        None
    }

    fn find_heading(text: &[u8]) -> (found: Option<XapianTag>)
        ensures
            found == Self::heading(text@, 0),
            found matches Some(tag) ==> tag.name().len() <= text@.len(),
    {
        let mut rank: usize = 0;
        while rank < FIELD_COUNT
            invariant
                rank <= FIELD_COUNT,
                Self::heading(text@, 0) == Self::heading(text@, rank as int),
            decreases FIELD_COUNT - rank,
        {
            let tag = Self::ranked(rank);
            if begins_at(text, 0, tag.name_bytes(), true) {
                return Some(tag);
            }
            rank = rank + 1;
        }
        None
    }

    /// Reads a field term at the head of the text: the name of a field, a
    /// colon, and a quoted phrase or a word. Returns the field and the span of
    /// the value; a quoted value keeps its quotes.
    pub fn parse<'a>(input: Span<'a>) -> (r: IResult<'a, (XapianTag, Span<'a>)>)
        requires
            input.wf(),
        ensures
            match r {
                Ok((rest, (tag, value))) => {
                    &&& Self::term_at(input.text()) matches Ok((t, from, to))
                    &&& tag == t
                    &&& value == input.cut(input.start + from, input.start + to)
                    &&& rest == input.tail(to)
                    &&& value.wf()
                    &&& rest.wf()
                },
                Err(stop) => Self::term_at(input.text()) == Err::<(XapianTag, int, int), Stop>(
                    stop,
                ),
            },
    {
        let text = input.fragment();
        let tag = match Self::find_heading(text) {
            None => {
                return Err(Stop::Mismatch);
            },
            Some(tag) => tag,
        };
        let colon: usize = tag.name_bytes().len();
        if colon >= text.len() || text[colon] != COLON {
            return Err(Stop::Mismatch);
        }
        let from: usize = colon + 1;
        match value_end(text, from) {
            Err(stop) => Err(stop),
            Ok(to) => {
                let (rest, head) = input.split(to);
                let (value, _) = head.split(from);
                Ok((rest, (tag, value)))
            },
        }
    }
}

/// A field of a note as `match_xtag` reads it: by its name with the colon.
#[derive(Clone, Copy, Debug, PartialEq, Eq, Structural)]
pub enum XTag {
    Author,
    Date,
    Filename,
    Fullpath,
    Title,
    Subtitle,
    Tag,
}

impl XTag {
    /// The same field as a `XapianTag`.
    pub open spec fn tag(self) -> XapianTag {
        match self {
            XTag::Author => XapianTag::Author,
            XTag::Date => XapianTag::Date,
            XTag::Filename => XapianTag::Filename,
            XTag::Fullpath => XapianTag::Fullpath,
            XTag::Title => XapianTag::Title,
            XTag::Subtitle => XapianTag::Subtitle,
            XTag::Tag => XapianTag::Tag,
        }
    }

    /// The name of the field with the colon that ends it.
    pub open spec fn marker(self) -> Seq<u8> {
        self.tag().name().push(COLON)
    }

    /// The field whose marker is tried at place `rank`, from 0 on; for a
    /// place after the last, the last.
    pub open spec fn of_rank(rank: int) -> XTag {
        if rank == 0 {
            XTag::Author
        } else if rank == 1 {
            XTag::Date
        } else if rank == 2 {
            XTag::Filename
        } else if rank == 3 {
            XTag::Fullpath
        } else if rank == 4 {
            XTag::Title
        } else if rank == 5 {
            XTag::Subtitle
        } else {
            XTag::Tag
        }
    }

    /// The field whose marker the text begins with, in any case of its
    /// letters.
    pub open spec fn marked(s: Seq<u8>, rank: int) -> Option<XTag>
        decreases FIELD_COUNT - rank,
    {
        if rank >= FIELD_COUNT {
            None
        } else if begins(s, 0, Self::of_rank(rank).marker(), true) {
            Some(Self::of_rank(rank))
        } else {
            Self::marked(s, rank + 1)
        }
    }

    /// The same field as a `XapianTag`.
    pub fn to_tag(self) -> (tag: XapianTag)
        ensures
            tag == self.tag(),
    {
        match self {
            XTag::Author => XapianTag::Author,
            XTag::Date => XapianTag::Date,
            XTag::Filename => XapianTag::Filename,
            XTag::Fullpath => XapianTag::Fullpath,
            XTag::Title => XapianTag::Title,
            XTag::Subtitle => XapianTag::Subtitle,
            XTag::Tag => XapianTag::Tag,
        }
    }

    /// The term prefix of the field, as bytes.
    pub fn to_xapian(self) -> (prefix: &'static [u8])
        ensures
            prefix@ == ascii(self.tag().prefix()),
    {
        ascii_bytes(self.to_tag().to_xapian())
    }

    /// The field whose marker is tried at place `rank`.
    pub fn ranked(rank: usize) -> (tag: XTag)
        ensures
            tag == Self::of_rank(rank as int),
    {
        if rank == 0 {
            XTag::Author
        } else if rank == 1 {
            XTag::Date
        } else if rank == 2 {
            XTag::Filename
        } else if rank == 3 {
            XTag::Fullpath
        } else if rank == 4 {
            XTag::Title
        } else if rank == 5 {
            XTag::Subtitle
        } else {
            XTag::Tag
        }
    }
}

/// Reads the name of a field, in any case of its letters, and its colon at
/// the head of the text.
pub fn match_xtag<'a>(input: &'a str) -> (r: IResult<'a, XTag>)
    ensures
        match r {
            Ok((rest, tag)) => {
                &&& XTag::marked(input.spec_bytes(), 0) == Some(tag)
                &&& rest.wf()
                &&& rest.source@ == input.spec_bytes()
                &&& rest.start == tag.marker().len()
                &&& rest.end == input.spec_bytes().len()
            },
            Err(stop) => stop == Stop::Mismatch && XTag::marked(input.spec_bytes(), 0) is None,
        },
{
    let span = Span::new(input);
    let text = span.source;
    let mut rank: usize = 0;
    while rank < FIELD_COUNT
        invariant
            rank <= FIELD_COUNT,
            span.wf(),
            span.source == text,
            span.start == 0,
            span.end == text@.len(),
            text@ == input.spec_bytes(),
            XTag::marked(text@, 0) == XTag::marked(text@, rank as int),
        decreases FIELD_COUNT - rank,
    {
        let tag = XTag::ranked(rank);
        let name = tag.to_tag().name_bytes();
        let colon: usize = name.len();
        proof {
            lemma_marker(text@, tag);
        }
        if begins_at(text, 0, name, true) && colon < text.len() && text[colon] == COLON {
            let (rest, _) = span.split(colon + 1);
            return Ok((rest, tag));
        }
        rank = rank + 1;
    }
    Err(Stop::Mismatch)
}

/// Text begins with the marker of a field where it begins with the name and
/// a colon follows.
proof fn lemma_marker(s: Seq<u8>, tag: XTag)
    ensures
        begins(s, 0, tag.marker(), true) <==> {
            &&& begins(s, 0, tag.tag().name(), true)
            &&& tag.tag().name().len() < s.len()
            &&& s[tag.tag().name().len() as int] == COLON
        },
{
    let name = tag.tag().name();
    let marker = tag.marker();
    let n = name.len() as int;
    if begins(s, 0, marker, true) {
        assert forall|i: int| 0 <= i < n implies same_byte(
            #[trigger] s[0 + i],
            name[i],
            true,
        ) by {}
        assert(same_byte(s[0 + n], marker[n], true));
    }
    if begins(s, 0, name, true) && n < s.len() && s[n] == COLON {
        assert forall|i: int| 0 <= i < n + 1 implies same_byte(
            #[trigger] s[0 + i],
            marker[i],
            true,
        ) by {}
    }
}

} // verus!
