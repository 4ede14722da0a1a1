//! Byte spans that remember where they lie in the text they were cut from.
//!
//! A query is handled as the bytes of its UTF-8 form. Every token boundary of
//! the query grammar is an ASCII byte, so a span never cuts a character.

use vstd::prelude::*;
use vstd::slice::slice_subrange;
use vstd::string::StringSliceAdditionalSpecFns;

verus! {

/// The byte that ends a line.
pub const LINE_FEED: u8 = 0x0a;

/// Number of line feeds in `text`.
pub open spec fn line_feeds(text: Seq<u8>) -> nat
    decreases text.len(),
{
    if text.len() == 0 {
        0
    } else if text.last() == LINE_FEED {
        line_feeds(text.drop_last()) + 1
    } else {
        line_feeds(text.drop_last())
    }
}

/// One-based number of the line that holds the byte at `offset`.
pub open spec fn line_at(source: Seq<u8>, offset: int) -> int {
    1 + line_feeds(source.take(offset)) as int
}

/// Offset of the first byte of the line that holds the byte at `offset`.
pub open spec fn line_begin(source: Seq<u8>, offset: int) -> int
    decreases offset,
{
    if offset <= 0 {
        0
    } else if source[offset - 1] == LINE_FEED {
        offset
    } else {
        line_begin(source, offset - 1)
    }
}

/// One-based column of the byte at `offset`, one column for each byte.
pub open spec fn column_at(source: Seq<u8>, offset: int) -> int {
    offset - line_begin(source, offset) + 1
}

/// `n`, or `max` where `n` is larger.
pub open spec fn at_most(n: int, max: int) -> int {
    if n > max {
        max
    } else {
        n
    }
}

/// Why a recogniser gave no match.
#[derive(Clone, Copy, Debug, PartialEq, Eq, Structural)]
pub enum Stop {
    /// A quote is opened and never closed.
    Unterminated,
    /// The input does not begin with such a token.
    Mismatch,
}

/// What a recogniser returns: the rest of the input and what was matched.
pub type IResult<'a, O> = Result<(Span<'a>, O), Stop>;

/// The bytes `start..end` of `source`.
#[derive(Clone, Copy, Debug)]
pub struct Span<'a> {
    pub source: &'a [u8],
    pub start: usize,
    pub end: usize,
}

impl<'a> Span<'a> {
    /// The span lies within its source.
    pub open spec fn wf(self) -> bool {
        self.start <= self.end <= self.source@.len()
    }

    /// The bytes of the span.
    pub open spec fn text(self) -> Seq<u8> {
        self.source@.subrange(self.start as int, self.end as int)
    }

    /// The span of the same source from `start` to `end`.
    pub open spec fn cut(self, start: int, end: int) -> Span<'a> {
        Span { source: self.source, start: start as usize, end: end as usize }
    }

    /// The first `n` bytes of the span.
    pub open spec fn head(self, n: int) -> Span<'a> {
        self.cut(self.start as int, self.start + n)
    }

    /// The span without its first `n` bytes.
    pub open spec fn tail(self, n: int) -> Span<'a> {
        self.cut(self.start + n, self.end as int)
    }

    /// The whole of `text`.
    pub fn new(text: &'a str) -> (span: Span<'a>)
        ensures
            span.wf(),
            span.source@ == text.spec_bytes(),
            span.start == 0,
            span.end == text.spec_bytes().len(),
    {
        let source = text.as_bytes();
        Span { source, start: 0, end: source.len() }
    }

    /// The whole of `source`.
    pub fn of_bytes(source: &'a [u8]) -> (span: Span<'a>)
        ensures
            span.wf(),
            span.source == source,
            span.start == 0,
            span.end == source@.len(),
    {
        Span { source, start: 0, end: source.len() }
    }

    /// Number of bytes in the span.
    pub fn len(&self) -> (n: usize)
        requires
            self.wf(),
        ensures
            n == self.text().len(),
    {
        self.end - self.start
    }

    /// The bytes of the span.
    pub fn fragment(&self) -> (bytes: &'a [u8])
        requires
            self.wf(),
        ensures
            bytes@ == self.text(),
    {
        slice_subrange(self.source, self.start, self.end)
    }

    /// Offset of the span's first byte in its source.
    pub fn location_offset(&self) -> (offset: usize)
        ensures
            offset == self.start,
    {
        self.start
    }

    /// One-based line of the span's first byte; `u32::MAX` for any later line.
    pub fn location_line(&self) -> (line: u32)
        requires
            self.wf(),
        ensures
            line == at_most(line_at(self.source@, self.start as int), u32::MAX as int),
    {
        let mut line: u32 = 1;
        let mut i: usize = 0;
        while i < self.start
            invariant
                i <= self.start <= self.source@.len(),
                line == at_most(line_at(self.source@, i as int), u32::MAX as int),
            decreases self.start - i,
        {
            assert(self.source@.take(i + 1).drop_last() =~= self.source@.take(i as int));
            if self.source[i] == LINE_FEED && line < u32::MAX {
                line = line + 1;
            }
            i = i + 1;
        }
        line
    }

    /// One-based column of the span's first byte, one column for each byte;
    /// `usize::MAX` for any later column.
    pub fn get_column(&self) -> (column: usize)
        requires
            self.wf(),
        ensures
            column == at_most(column_at(self.source@, self.start as int), usize::MAX as int),
    {
        let mut begin: usize = self.start;
        while begin > 0 && self.source[begin - 1] != LINE_FEED
            invariant
                begin <= self.start <= self.source@.len(),
                line_begin(self.source@, self.start as int) == line_begin(
                    self.source@,
                    begin as int,
                ),
            decreases begin,
        {
            begin = begin - 1;
        }
        let width: usize = self.start - begin;
        if width == usize::MAX {
            usize::MAX
        } else {
            width + 1
        }
    }

    /// Splits the span after its first `n` bytes: what follows them, and they.
    pub fn split(&self, n: usize) -> (parts: (Span<'a>, Span<'a>))
        requires
            self.wf(),
            n <= self.text().len(),
        ensures
            parts.0 == self.tail(n as int),
            parts.1 == self.head(n as int),
            parts.0.wf(),
            parts.1.wf(),
            parts.1.text() == self.text().take(n as int),
            parts.0.text() == self.text().skip(n as int),
    {
        let mid: usize = self.start + n;
        let rest = Span { source: self.source, start: mid, end: self.end };
        let matched = Span { source: self.source, start: self.start, end: mid };
        (rest, matched)
    }
}

/// Whether two byte strings are equal.
pub fn bytes_eq(a: &[u8], b: &[u8]) -> (same: bool)
    ensures
        same == (a@ == b@),
{
    if a.len() != b.len() {
        return false;
    }
    let mut i: usize = 0;
    while i < a.len()
        invariant
            i <= a@.len(),
            a@.len() == b@.len(),
            a@.take(i as int) == b@.take(i as int),
        decreases a@.len() - i,
    {
        if a[i] != b[i] {
            return false;
        }
        i = i + 1;
    }
    assert(a@ =~= a@.take(a@.len() as int));
    assert(b@ =~= b@.take(b@.len() as int));
    true
}

/// The match and the rest that a recogniser is expected to return.
#[derive(Clone, Copy, Debug)]
pub struct ExpectedParseResult<'a> {
    pub matched_fragment: &'a str,
    pub matched_offset: usize,
    pub matched_line: u32,
    pub matched_column: usize,
    pub rest_fragment: &'a str,
    pub rest_offset: usize,
    pub rest_line: u32,
    pub rest_column: usize,
}

impl<'a> ExpectedParseResult<'a> {
    /// Whether `span` has the given bytes, offset, line and column.
    pub open spec fn describes(
        span: Span,
        fragment: Seq<u8>,
        offset: usize,
        line: u32,
        column: usize,
    ) -> bool {
        &&& span.text() == fragment
        &&& span.start == offset
        &&& line == at_most(line_at(span.source@, span.start as int), u32::MAX as int)
        &&& column == at_most(column_at(span.source@, span.start as int), usize::MAX as int)
    }

    /// Whether `outcome` is the expected match with the expected rest.
    pub open spec fn agrees(self, outcome: IResult<Span>) -> bool {
        match outcome {
            Ok((rest, matched)) => {
                &&& Self::describes(
                    matched,
                    self.matched_fragment.spec_bytes(),
                    self.matched_offset,
                    self.matched_line,
                    self.matched_column,
                )
                &&& Self::describes(
                    rest,
                    self.rest_fragment.spec_bytes(),
                    self.rest_offset,
                    self.rest_line,
                    self.rest_column,
                )
            },
            Err(_) => false,
        }
    }

    pub fn new(
        mf: &'a str,
        mo: usize,
        ml: u32,
        mc: usize,
        rf: &'a str,
        ro: usize,
        rl: u32,
        rc: usize,
    ) -> (expected: ExpectedParseResult<'a>)
        ensures
            expected.matched_fragment == mf,
            expected.matched_offset == mo,
            expected.matched_line == ml,
            expected.matched_column == mc,
            expected.rest_fragment == rf,
            expected.rest_offset == ro,
            expected.rest_line == rl,
            expected.rest_column == rc,
    {
        ExpectedParseResult {
            matched_fragment: mf,
            matched_offset: mo,
            matched_line: ml,
            matched_column: mc,
            rest_fragment: rf,
            rest_offset: ro,
            rest_line: rl,
            rest_column: rc,
        }
    }

    /// Holds what a recogniser returned against the expectation.
    pub fn compare(&self, outcome: &IResult<'_, Span<'_>>) -> (same: bool)
        requires
            outcome matches Ok((rest, matched)) ==> rest.wf() && matched.wf(),
        ensures
            same == self.agrees(*outcome),
    {
        match outcome {
            Ok((rest, matched)) => {
                bytes_eq(self.matched_fragment.as_bytes(), matched.fragment())
                    && self.matched_offset == matched.location_offset()
                    && self.matched_line == matched.location_line()
                    && self.matched_column == matched.get_column()
                    && bytes_eq(self.rest_fragment.as_bytes(), rest.fragment())
                    && self.rest_offset == rest.location_offset()
                    && self.rest_line == rest.location_line()
                    && self.rest_column == rest.get_column()
            },
            Err(_) => false,
        }
    }
}

} // verus!
