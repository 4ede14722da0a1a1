//! The front matter of a note: the block of metadata between two marker lines
//! at the head of the file.
//!
//! The block is found and loaded by the `frontmatter` crate and written out
//! again as YAML text by `yaml_rust`. What this module adds is the decision
//! on what was made of it: a file without front matter, or with front matter
//! that cannot be read, is refused.

use crate::document::DocumentErrorKind;
use vstd::prelude::*;

verus! {

/// The line that begins and ends the front matter.
pub open spec fn marker() -> Seq<char> {
    "---\n"@
}

/// Whether a marker line stands at `at`.
pub open spec fn marker_at(text: Seq<char>, at: int) -> bool {
    0 <= at && at + marker().len() <= text.len() && text.subrange(at, at + marker().len())
        == marker()
}

/// Where the first marker line at or after `from` stands; the length of the
/// text where there is none.
pub open spec fn next_marker(text: Seq<char>, from: int) -> int
    decreases text.len() - from,
{
    if from < 0 || from >= text.len() {
        text.len() as int
    } else if marker_at(text, from) {
        from
    } else {
        next_marker(text, from + 1)
    }
}

/// Whether the text begins with a block of front matter: with a marker line
/// that another marker line follows.
pub open spec fn has_front_matter(text: Seq<char>) -> bool {
    marker_at(text, 0) && next_marker(text, marker().len() as int) < text.len()
}

/// What follows the front matter: all after the second marker line, and the
/// whole text where there is no front matter.
pub open spec fn body_of(text: Seq<char>) -> Seq<char> {
    if has_front_matter(text) {
        text.skip(next_marker(text, marker().len() as int) + marker().len())
    } else {
        text
    }
}

/// What the head of a file holds.
pub enum Matter {
    /// A block of front matter that is no YAML.
    Unreadable,
    /// No front matter, or an empty block.
    Absent,
    /// A block that was loaded and could not be written out again.
    Unwritable,
    /// The front matter, written out as YAML text.
    Present(Seq<char>),
}

/// What was made of the head of a file.
#[derive(Debug, PartialEq, Eq)]
pub enum Loaded {
    /// The block of front matter is no YAML.
    Unreadable,
    /// There is no front matter, or it is empty.
    Absent,
    /// The block was loaded and could not be written out again.
    Unwritable,
    /// The front matter as YAML text.
    Present(String),
}

impl View for Loaded {
    type V = Matter;

    open spec fn view(&self) -> Matter {
        match self {
            Loaded::Unreadable => Matter::Unreadable,
            Loaded::Absent => Matter::Absent,
            Loaded::Unwritable => Matter::Unwritable,
            Loaded::Present(text) => Matter::Present(text@),
        }
    }
}

/// What `frontmatter::parse_and_find_content` finds at the head of `text`,
/// with the document that it loads written out by
/// `yaml_rust::YamlEmitter::dump`.
pub uninterp spec fn matter_of(text: Seq<char>) -> Matter;

/// Calls `frontmatter::parse_and_find_content`, which looks for a block of
/// front matter at the head of the text, loads it as YAML and returns the
/// document with the text after the block. The document is handed on as the
/// text that `yaml_rust::YamlEmitter::dump` writes for it.
///
/// What is found is a function of the text alone and is known by name only.
/// The contract claims besides where the returned text begins, and that a
/// text without front matter has none found.
#[verifier::external_body]
fn load_matter(text: &str) -> (r: (Loaded, String))
    ensures
        r.0@ == matter_of(text@),
        r.0 is Unreadable || r.1@ == body_of(text@),
        r.0 is Absent || has_front_matter(text@),
{
    match frontmatter::parse_and_find_content(text) {
        Err(_) => (Loaded::Unreadable, String::new()),
        Ok((None, rest)) => (Loaded::Absent, rest.to_string()),
        Ok((Some(document), rest)) => {
            let mut out = String::new();
            match yaml_rust::YamlEmitter::new(&mut out).dump(&document) {
                Ok(()) => (Loaded::Present(out), rest.to_string()),
                Err(_) => (Loaded::Unwritable, rest.to_string()),
            }
        },
    }
}

/// A file in its two parts.
#[derive(Debug, PartialEq, Eq)]
pub struct Framed {
    /// The front matter as YAML text.
    pub matter: String,
    /// The text after the front matter.
    pub body: String,
}

/// The error that refuses a file of which `found` was made, if there is one:
/// a file without front matter is told apart from one whose front matter
/// cannot be read.
pub open spec fn refusal(found: Matter) -> Option<DocumentErrorKind> {
    match found {
        Matter::Unreadable => Some(DocumentErrorKind::InvalidFrontMatter),
        Matter::Absent => Some(DocumentErrorKind::MissingFrontMatter),
        Matter::Unwritable => Some(DocumentErrorKind::InvalidFrontMatter),
        Matter::Present(_) => None,
    }
}

/// Decides on what was made of the head of a file, of which `body` is the
/// rest: the two parts of the file, or the reason why the file is refused.
pub fn framed(found: Loaded, body: String) -> (r: Result<Framed, DocumentErrorKind>)
    ensures
        match r {
            Ok(parts) => found@ == Matter::Present(parts.matter@) && parts.body == body,
            Err(kind) => refusal(found@) == Some(kind),
        },
{
    match found {
        Loaded::Unreadable => Err(DocumentErrorKind::InvalidFrontMatter),
        Loaded::Absent => Err(DocumentErrorKind::MissingFrontMatter),
        Loaded::Unwritable => Err(DocumentErrorKind::InvalidFrontMatter),
        Loaded::Present(matter) => Ok(Framed { matter, body }),
    }
}

/// Splits the text of a file into its front matter and its body.
///
/// The file is split if and only if front matter is found at its head and
/// can be written as YAML text: the parts are that text and all after the
/// second marker line. A file without front matter, or with an empty block,
/// is refused as `MissingFrontMatter`; a block that is no YAML as
/// `InvalidFrontMatter`.
pub fn split_front_matter(text: &str) -> (r: Result<Framed, DocumentErrorKind>)
    ensures
        match r {
            Ok(parts) => matter_of(text@) == Matter::Present(parts.matter@) && parts.body@
                == body_of(text@),
            Err(kind) => refusal(matter_of(text@)) == Some(kind),
        },
        !has_front_matter(text@) ==> r == Err::<Framed, DocumentErrorKind>(
            DocumentErrorKind::MissingFrontMatter,
        ),
{
    let (found, body) = load_matter(text);
    framed(found, body)
}

} // verus!
