//! Recognisers for the pieces of a query.
//!
//! Each takes a span and returns, on a match, the rest of the span and the
//! matched piece. A piece may end with the span: the end of the span is the
//! end of the text.

use crate::chars::{is_quote, quote_byte, run_end, scan, ByteClass, COLON};
use crate::span::{IResult, Span, Stop};
use vstd::prelude::*;

verus! {

/// Where the word at `at` ends: the end of the longest run of letters,
/// digits and underscores. An empty run is no word.
pub open spec fn word_at(s: Seq<u8>, at: int) -> Result<int, Stop> {
    let end = run_end(s, at, ByteClass::Word);
    if end == at {
        Err(Stop::Mismatch)
    } else {
        Ok(end)
    }
}

/// Where the run of words and white space at `at` ends.
pub open spec fn words_at(s: Seq<u8>, at: int) -> Result<int, Stop> {
    let end = run_end(s, at, ByteClass::WordOrSpace);
    if end == at {
        Err(Stop::Mismatch)
    } else {
        Ok(end)
    }
}

/// Where the quoted phrase at `at` ends: just after the next quote of the
/// kind that opens it. All between the two quotes belongs to the phrase as
/// it stands. A phrase without its closing quote is unterminated.
pub open spec fn quoted_at(s: Seq<u8>, at: int) -> Result<int, Stop> {
    if at < 0 || at >= s.len() || !is_quote(s[at]) {
        Err(Stop::Mismatch)
    } else {
        let close = run_end(s, at + 1, ByteClass::Not(s[at]));
        if close >= s.len() {
            Err(Stop::Unterminated)
        } else {
            Ok(close + 1)
        }
    }
}

/// Where the value of a field at `at` ends: a quoted phrase, or else a word.
pub open spec fn value_at(s: Seq<u8>, at: int) -> Result<int, Stop> {
    match quoted_at(s, at) {
        Err(Stop::Mismatch) => word_at(s, at),
        other => other,
    }
}

/// Where the field term at `at` ends: a word, a colon, a value, and the
/// white space that follows the value, if any.
pub open spec fn tagged_at(s: Seq<u8>, at: int) -> Result<int, Stop> {
    match word_at(s, at) {
        Err(stop) => Err(stop),
        Ok(colon) => if colon >= s.len() || s[colon] != COLON {
            Err(Stop::Mismatch)
        } else {
            match value_at(s, colon + 1) {
                Err(stop) => Err(stop),
                Ok(value_end) => Ok(run_end(s, value_end, ByteClass::Space)),
            }
        },
    }
}

/// Where the white space at `at` ends.
pub open spec fn space_at(s: Seq<u8>, at: int) -> Result<int, Stop> {
    let end = run_end(s, at, ByteClass::Space);
    if end == at {
        Err(Stop::Mismatch)
    } else {
        Ok(end)
    }
}

/// Whether `r` is the split of `input` that `found` asks for: the first
/// `end` bytes as the match, what follows them as the rest.
pub open spec fn splits<'a>(
    input: Span<'a>,
    found: Result<int, Stop>,
    r: IResult<'a, Span<'a>>,
) -> bool {
    match found {
        Ok(end) => r == Ok::<(Span<'a>, Span<'a>), Stop>((input.tail(end), input.head(end))),
        Err(stop) => r == Err::<(Span<'a>, Span<'a>), Stop>(stop),
    }
}

/// Whether both spans of a match lie within their source.
pub open spec fn sound<'a>(r: IResult<'a, Span<'a>>) -> bool {
    r matches Ok((rest, matched)) ==> rest.wf() && matched.wf()
}

fn word_end(text: &[u8], at: usize) -> (r: Result<usize, Stop>)
    requires
        at <= text@.len(),
    ensures
        match r {
            Ok(end) => word_at(text@, at as int) == Ok::<int, Stop>(end as int) && at < end
                <= text@.len(),
            Err(stop) => word_at(text@, at as int) == Err::<int, Stop>(stop),
        },
{
    let end = scan(text, at, ByteClass::Word);
    if end == at {
        Err(Stop::Mismatch)
    } else {
        Ok(end)
    }
}

fn quoted_end(text: &[u8], at: usize) -> (r: Result<usize, Stop>)
    requires
        at <= text@.len(),
    ensures
        match r {
            Ok(end) => quoted_at(text@, at as int) == Ok::<int, Stop>(end as int) && at < end
                <= text@.len(),
            Err(stop) => quoted_at(text@, at as int) == Err::<int, Stop>(stop),
        },
{
    if at >= text.len() || !quote_byte(text[at]) {
        Err(Stop::Mismatch)
    } else {
        let close = scan(text, at + 1, ByteClass::Not(text[at]));
        if close >= text.len() {
            Err(Stop::Unterminated)
        } else {
            Ok(close + 1)
        }
    }
}

/// Finds where the value of a field at `at` ends.
pub fn value_end(text: &[u8], at: usize) -> (r: Result<usize, Stop>)
    requires
        at <= text@.len(),
    ensures
        match r {
            Ok(end) => value_at(text@, at as int) == Ok::<int, Stop>(end as int) && at < end
                <= text@.len(),
            Err(stop) => value_at(text@, at as int) == Err::<int, Stop>(stop),
        },
{
    match quoted_end(text, at) {
        Err(Stop::Mismatch) => word_end(text, at),
        other => other,
    }
}

fn finish<'a>(input: Span<'a>, found: Result<usize, Stop>) -> (r: IResult<'a, Span<'a>>)
    requires
        input.wf(),
        found matches Ok(end) ==> end <= input.text().len(),
    ensures
        splits(
            input,
            match found {
                Ok(end) => Ok(end as int),
                Err(stop) => Err(stop),
            },
            r,
        ),
        sound(r),
{
    match found {
        Ok(end) => Ok(input.split(end)),
        Err(stop) => Err(stop),
    }
}

/// Reads a word: a run of letters, digits and underscores.
pub fn word<'a>(input: Span<'a>) -> (r: IResult<'a, Span<'a>>)
    requires
        input.wf(),
    ensures
        splits(input, word_at(input.text(), 0), r),
        sound(r),
{
    let found = word_end(input.fragment(), 0);
    finish(input, found)
}

/// Reads a run of words and white space.
pub fn words<'a>(input: Span<'a>) -> (r: IResult<'a, Span<'a>>)
    requires
        input.wf(),
    ensures
        splits(input, words_at(input.text(), 0), r),
        sound(r),
{
    let text = input.fragment();
    let end = scan(text, 0, ByteClass::WordOrSpace);
    let found = if end == 0 {
        Err(Stop::Mismatch)
    } else {
        Ok(end)
    };
    finish(input, found)
}

/// Reads a phrase between two double or two single quotes.
pub fn quoted<'a>(input: Span<'a>) -> (r: IResult<'a, Span<'a>>)
    requires
        input.wf(),
    ensures
        splits(input, quoted_at(input.text(), 0), r),
        sound(r),
{
    let found = quoted_end(input.fragment(), 0);
    finish(input, found)
}

/// Reads a field term with the white space after it: `name:value` where the
/// value is a quoted phrase or a word.
pub fn tagged<'a>(input: Span<'a>) -> (r: IResult<'a, Span<'a>>)
    requires
        input.wf(),
    ensures
        splits(input, tagged_at(input.text(), 0), r),
        sound(r),
{
    let text = input.fragment();
    let found = match word_end(text, 0) {
        Err(stop) => Err(stop),
        Ok(colon) => {
            if colon >= text.len() || text[colon] != COLON {
                Err(Stop::Mismatch)
            } else {
                match value_end(text, colon + 1) {
                    Err(stop) => Err(stop),
                    Ok(after_value) => Ok(scan(text, after_value, ByteClass::Space)),
                }
            }
        },
    };
    finish(input, found)
}

/// Reads white space.
pub fn whitespace<'a>(input: Span<'a>) -> (r: IResult<'a, Span<'a>>)
    requires
        input.wf(),
    ensures
        splits(input, space_at(input.text(), 0), r),
        sound(r),
{
    let text = input.fragment();
    let end = scan(text, 0, ByteClass::Space);
    let found = if end == 0 {
        Err(Stop::Mismatch)
    } else {
        Ok(end)
    };
    finish(input, found)
}

} // verus!
