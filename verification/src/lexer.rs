//! The lexer: a query as a sequence of tokens.
//!
//! At each offset the kinds of token are tried in a fixed order: a quoted
//! phrase, a field term, an operator, a word, white space. An operator keyword
//! made of letters is a word of its own here, so a word that only begins with
//! a keyword stays a word. Reading ends at the first byte that begins none of
//! them, such as a hyphen or a byte of a character outside ASCII: the tokens
//! before it are the tokens of the query, and what stands from it on is
//! dropped.

use crate::chars::{
    begins, begins_at, is_quote, is_space_byte, is_stray_byte, is_word_byte, lemma_run_end,
    quote_byte, run_end, same_byte, scan, stray_byte, word_byte, ByteClass, COLON, GREATER, LESS,
};
use crate::operator::{lemma_keyword_len, MatchOp, OPERATOR_COUNT};
use vstd::prelude::*;
use vstd::slice::slice_subrange;

verus! {

/// What a token is.
#[derive(Clone, Copy, Debug, PartialEq, Eq, Structural)]
pub enum TokenKind {
    /// A boolean operator.
    Operator(MatchOp),
    /// A term `name:value`; `colon` is the offset of its colon in the query.
    FieldTerm { colon: usize },
    /// A phrase between two quotes of one kind. The token holds the quotes.
    Phrase,
    /// A run of letters, digits and underscores.
    Word,
    /// A run of white space.
    Whitespace,
}

/// A token: the bytes `start..end` of the query and what they are.
#[derive(Clone, Copy, Debug, PartialEq, Eq, Structural)]
pub struct QueryToken {
    pub kind: TokenKind,
    pub start: usize,
    pub end: usize,
}

impl QueryToken {
    /// The token is not empty and lies within a query of `len` bytes; the
    /// colon of a field term has a name before it and a value after it.
    pub open spec fn fits(self, len: int) -> bool {
        &&& self.start < self.end <= len
        &&& self.kind matches TokenKind::FieldTerm { colon } ==> self.start < colon && colon + 1
            < self.end
    }

    /// Where the name of a field term ends and where its value begins; for
    /// any other token, where the token begins.
    pub open spec fn parts(self) -> (int, int) {
        match self.kind {
            TokenKind::FieldTerm { colon } => (colon as int, colon + 1),
            _ => (self.start as int, self.start as int),
        }
    }

    /// The bytes of the token in the query `input`.
    pub fn text<'a>(&self, input: &'a [u8]) -> (bytes: &'a [u8])
        requires
            self.fits(input@.len() as int),
        ensures
            bytes@ == input@.subrange(self.start as int, self.end as int),
    {
        slice_subrange(input, self.start, self.end)
    }

    /// The name of the field of a field term; of any other token, nothing.
    pub fn field<'a>(&self, input: &'a [u8]) -> (bytes: &'a [u8])
        requires
            self.fits(input@.len() as int),
        ensures
            bytes@ == input@.subrange(self.start as int, self.parts().0),
    {
        match self.kind {
            TokenKind::FieldTerm { colon } => slice_subrange(input, self.start, colon),
            _ => slice_subrange(input, self.start, self.start),
        }
    }

    /// The value of a field term, with its quotes if it has any; of any other
    /// token, the whole of it.
    pub fn value<'a>(&self, input: &'a [u8]) -> (bytes: &'a [u8])
        requires
            self.fits(input@.len() as int),
        ensures
            bytes@ == input@.subrange(self.parts().1, self.end as int),
    {
        match self.kind {
            TokenKind::FieldTerm { colon } => slice_subrange(input, colon + 1, self.end),
            _ => slice_subrange(input, self.start, self.end),
        }
    }
}

/// Why a query cannot be read.
#[derive(Clone, Copy, Debug, PartialEq, Eq, Structural)]
pub enum ParseErrorKind {
    /// A quote is opened and never closed.
    UnterminatedQuote,
    /// A colon that no field name stands before, or that no value follows.
    MalformedField,
    /// An operator stands before the first term.
    LeadingOperator,
    /// The query joins more terms than `MAX_DEPTH` allows.
    DepthExceeded,
}

/// A fault in a query: its kind, and the bytes `start..end` that show it.
#[derive(Clone, Copy, Debug, PartialEq, Eq, Structural)]
pub struct Fault {
    pub kind: ParseErrorKind,
    pub start: usize,
    pub end: usize,
}

/// The token of kind `kind` that covers `start..end`.
pub open spec fn token(kind: TokenKind, start: int, end: int) -> Result<QueryToken, Fault> {
    Ok(QueryToken { kind, start: start as usize, end: end as usize })
}

/// The fault of kind `kind` that `start..end` shows.
pub open spec fn fault(kind: ParseErrorKind, start: int, end: int) -> Result<QueryToken, Fault> {
    Err(Fault { kind, start: start as usize, end: end as usize })
}

/// Whether the keyword of `op` stands at `at` as a token: the text goes on
/// with the keyword, in any case of its letters, and after a keyword made of
/// letters no letter, digit or underscore follows.
pub open spec fn stands(s: Seq<u8>, at: int, op: MatchOp) -> bool {
    &&& begins(s, at, op.keyword(), true)
    &&& op.is_word() && at + op.keyword().len() < s.len() ==> !is_word_byte(
        s[at + op.keyword().len()],
    )
}

/// The operator that stands at `at`: the first operator from place `rank` on
/// whose keyword stands there.
pub open spec fn operator_at(s: Seq<u8>, at: int, rank: int) -> Option<MatchOp>
    decreases OPERATOR_COUNT - rank,
{
    if rank >= OPERATOR_COUNT {
        None
    } else if stands(s, at, MatchOp::of_rank(rank)) {
        Some(MatchOp::of_rank(rank))
    } else {
        operator_at(s, at, rank + 1)
    }
}

/// An operator found at `at` stands there and lies within the text.
pub proof fn lemma_operator_at(s: Seq<u8>, at: int, rank: int)
    requires
        0 <= at <= s.len(),
        0 <= rank,
    ensures
        operator_at(s, at, rank) matches Some(op) ==> stands(s, at, op) && at
            + op.keyword().len() <= s.len(),
    decreases OPERATOR_COUNT - rank,
{
    if rank < OPERATOR_COUNT {
        lemma_operator_at(s, at, rank + 1);
    }
}

/// The operator that is read at `at` is the first in the order of the
/// keywords whose keyword stands there.
pub proof fn lemma_first_operator(s: Seq<u8>, at: int, rank: int, other: MatchOp)
    requires
        0 <= rank <= other.rank(),
        stands(s, at, other),
    ensures
        operator_at(s, at, rank) matches Some(op) && rank <= op.rank() <= other.rank() && stands(
            s,
            at,
            op,
        ),
    decreases OPERATOR_COUNT - rank,
{
    if !stands(s, at, MatchOp::of_rank(rank)) {
        lemma_first_operator(s, at, rank + 1, other);
    }
}

/// Tells whether the keyword of `op` stands at `at` as a token.
pub fn keyword_stands(input: &[u8], at: usize, op: MatchOp) -> (yes: bool)
    requires
        at <= input@.len(),
    ensures
        yes == stands(input@, at as int, op),
{
    let keyword = op.keyword_bytes();
    let len: usize = input.len();
    if !begins_at(input, at, keyword, true) {
        return false;
    }
    let after: usize = at + keyword.len();
    !(op.keyword_is_word() && after < len && word_byte(input[after]))
}

/// Finds the operator that stands at `at`.
pub fn find_operator(input: &[u8], at: usize) -> (found: Option<MatchOp>)
    requires
        at <= input@.len(),
    ensures
        found == operator_at(input@, at as int, 0),
        found matches Some(op) ==> at + op.keyword().len() <= input@.len(),
{
    let mut rank: usize = 0;
    while rank < OPERATOR_COUNT
        invariant
            rank <= OPERATOR_COUNT,
            at <= input@.len(),
            operator_at(input@, at as int, 0) == operator_at(input@, at as int, rank as int),
        decreases OPERATOR_COUNT - rank,
    {
        let op = MatchOp::ranked(rank);
        if keyword_stands(input, at, op) {
            return Some(op);
        }
        rank = rank + 1;
    }
    None
}

/// The field term that begins at `at` and has its colon at `colon`. Its
/// value is a quoted phrase or a word. A value that opens a quote and never
/// closes it is an unterminated quote; any other missing value makes the
/// term malformed.
pub open spec fn field_term_at(s: Seq<u8>, at: int, colon: int) -> Result<QueryToken, Fault> {
    let from = colon + 1;
    if from < s.len() && is_quote(s[from]) {
        let close = run_end(s, from + 1, ByteClass::Not(s[from]));
        if close >= s.len() {
            fault(ParseErrorKind::UnterminatedQuote, from, s.len() as int)
        } else {
            token(TokenKind::FieldTerm { colon: colon as usize }, at, close + 1)
        }
    } else {
        let end = run_end(s, from, ByteClass::Word);
        if end > from {
            token(TokenKind::FieldTerm { colon: colon as usize }, at, end)
        } else {
            fault(ParseErrorKind::MalformedField, at, from)
        }
    }
}

/// The token that begins at `at`, for `0 <= at < s.len()` and a byte at `at`
/// that a token begins with.
pub open spec fn token_at(s: Seq<u8>, at: int) -> Result<QueryToken, Fault> {
    let first = s[at];
    let word_end = run_end(s, at, ByteClass::Word);
    if is_quote(first) {
        let close = run_end(s, at + 1, ByteClass::Not(first));
        if close >= s.len() {
            fault(ParseErrorKind::UnterminatedQuote, at, s.len() as int)
        } else {
            token(TokenKind::Phrase, at, close + 1)
        }
    } else if at < word_end < s.len() && s[word_end] == COLON {
        field_term_at(s, at, word_end)
    } else if first == COLON {
        fault(ParseErrorKind::MalformedField, at, at + 1)
    } else {
        match operator_at(s, at, 0) {
            Some(op) => token(TokenKind::Operator(op), at, at + op.keyword().len()),
            None => if at < word_end {
                token(TokenKind::Word, at, word_end)
            } else {
                token(TokenKind::Whitespace, at, run_end(s, at, ByteClass::Space))
            },
        }
    }
}

/// `done` followed by the tokens of `more`, or the fault of `more`.
pub open spec fn followed_by(done: Seq<QueryToken>, more: Result<Seq<QueryToken>, Fault>) -> Result<
    Seq<QueryToken>,
    Fault,
> {
    match more {
        Ok(tokens) => Ok(done + tokens),
        Err(fault) => Err(fault),
    }
}

/// The tokens of `s` from `at` on, or the first fault met. Reading ends at
/// the end of the text, or before at the first byte that no token begins
/// with.
pub open spec fn tokens_from(s: Seq<u8>, at: int) -> Result<Seq<QueryToken>, Fault>
    decreases s.len() - at,
{
    if at < 0 || at >= s.len() || is_stray_byte(s[at]) {
        Ok(Seq::empty())
    } else {
        match token_at(s, at) {
            Err(fault) => Err(fault),
            Ok(token) => if at < token.end <= s.len() {
                followed_by(seq![token], tokens_from(s, token.end as int))
            } else {
                Ok(seq![token])
            },
        }
    }
}

/// The tokens of the query `s`, or the first fault met.
pub open spec fn tokens_of(s: Seq<u8>) -> Result<Seq<QueryToken>, Fault> {
    tokens_from(s, 0)
}

/// Where the reading of `s` from `at` on ends: at the end of the text, or
/// before at the first byte, met where a token would begin, that no token
/// begins with. What stands from there on is dropped.
pub open spec fn read_end(s: Seq<u8>, at: int) -> int
    decreases s.len() - at,
{
    if at < 0 || at >= s.len() || is_stray_byte(s[at]) {
        at
    } else {
        match token_at(s, at) {
            Err(_) => at,
            Ok(token) => if at < token.end <= s.len() {
                read_end(s, token.end as int)
            } else {
                at
            },
        }
    }
}

/// `<` and `>` are operators wherever they stand.
pub proof fn lemma_angle_is_operator(s: Seq<u8>, at: int)
    requires
        0 <= at < s.len(),
        s[at] == LESS || s[at] == GREATER,
    ensures
        operator_at(s, at, 0) is Some,
{
    let op = if s[at] == LESS {
        MatchOp::ValueLe
    } else {
        MatchOp::ValueGe
    };
    assert(same_byte(s[at + 0], op.keyword()[0], true));
    assert(stands(s, at, op));
    lemma_first_operator(s, at, 0, op);
}

/// A token is not empty, begins where it was looked for and ends within the
/// text; a fault lies within the text.
pub proof fn lemma_token_at(s: Seq<u8>, at: int)
    requires
        0 <= at < s.len() <= usize::MAX,
        !is_stray_byte(s[at]),
    ensures
        match token_at(s, at) {
            Ok(token) => token.start == at && token.fits(s.len() as int),
            Err(fault) => at <= fault.start < fault.end <= s.len(),
        },
{
    let first = s[at];
    let word_end = run_end(s, at, ByteClass::Word);
    lemma_run_end(s, at, ByteClass::Word);
    lemma_run_end(s, at, ByteClass::Space);
    lemma_run_end(s, at + 1, ByteClass::Not(first));
    if first == LESS || first == GREATER {
        lemma_angle_is_operator(s, at);
    }
    if !is_quote(first) && at < word_end < s.len() && s[word_end] == COLON {
        let from = word_end + 1;
        lemma_run_end(s, from, ByteClass::Word);
        if from < s.len() {
            lemma_run_end(s, from + 1, ByteClass::Not(s[from]));
        }
    }
    lemma_operator_at(s, at, 0);
    if let Some(op) = operator_at(s, at, 0) {
        lemma_keyword_len(op);
    }
    if !is_quote(first) && first != COLON && operator_at(s, at, 0) is None && word_end == at {
        assert(is_space_byte(first));
    }
}

/// The tokens of a query lie end to end from `at` to where the reading ends,
/// and none is empty. The reading ends with the text, or before a byte that
/// no token begins with.
pub proof fn lemma_tokens_tile(s: Seq<u8>, at: int)
    requires
        0 <= at <= s.len() <= usize::MAX,
    ensures
        at <= read_end(s, at) <= s.len(),
        tokens_from(s, at) matches Ok(tokens) ==> {
            &&& tokens.len() <= s.len() - at
            &&& forall|i: int| 0 <= i < tokens.len() ==> (#[trigger] tokens[i]).fits(s.len() as int)
            &&& forall|i: int|
                0 <= i < tokens.len() ==> (#[trigger] tokens[i]).start == if i == 0 {
                    at
                } else {
                    tokens[i - 1].end as int
                }
            &&& tokens.len() > 0 ==> tokens.last().end == read_end(s, at)
            &&& tokens.len() == 0 ==> at == read_end(s, at)
            &&& read_end(s, at) == s.len() || is_stray_byte(s[read_end(s, at)])
        },
        tokens_from(s, at) matches Err(fault) ==> at <= fault.start < fault.end <= s.len(),
    decreases s.len() - at,
{
    if at < s.len() && !is_stray_byte(s[at]) {
        lemma_token_at(s, at);
        if let Ok(token) = token_at(s, at) {
            lemma_tokens_tile(s, token.end as int);
            if let Ok(rest) = tokens_from(s, token.end as int) {
                let tokens = seq![token] + rest;
                assert forall|i: int| 0 <= i < tokens.len() implies (#[trigger] tokens[i]).fits(
                    s.len() as int,
                ) && tokens[i].start == if i == 0 {
                    at
                } else {
                    tokens[i - 1].end as int
                } by {
                    if i > 0 {
                        assert(tokens[i] == rest[i - 1]);
                        if i > 1 {
                            assert(tokens[i - 1] == rest[i - 2]);
                        }
                    }
                }
                if rest.len() > 0 {
                    assert(tokens.last() == rest.last());
                }
            }
        }
    }
}

/// Reads the field term that begins at `at` and has its colon at `colon`.
fn field_term(input: &[u8], at: usize, colon: usize) -> (r: Result<QueryToken, Fault>)
    requires
        at <= colon < input@.len(),
    ensures
        r == field_term_at(input@, at as int, colon as int),
{
    let len: usize = input.len();
    let from: usize = colon + 1;
    if from < len && quote_byte(input[from]) {
        let close = scan(input, from + 1, ByteClass::Not(input[from]));
        if close >= input.len() {
            Err(Fault { kind: ParseErrorKind::UnterminatedQuote, start: from, end: input.len() })
        } else {
            Ok(QueryToken { kind: TokenKind::FieldTerm { colon }, start: at, end: close + 1 })
        }
    } else {
        let end = scan(input, from, ByteClass::Word);
        if end > from {
            Ok(QueryToken { kind: TokenKind::FieldTerm { colon }, start: at, end })
        } else {
            Err(Fault { kind: ParseErrorKind::MalformedField, start: at, end: from })
        }
    }
}

/// Reads the token that begins at `at`, where the byte at `at` is one that a
/// token begins with.
pub fn next_token(input: &[u8], at: usize) -> (r: Result<QueryToken, Fault>)
    requires
        at < input@.len(),
        !is_stray_byte(input@[at as int]),
    ensures
        r == token_at(input@, at as int),
{
    let first: u8 = input[at];
    if quote_byte(first) {
        let close = scan(input, at + 1, ByteClass::Not(first));
        return if close >= input.len() {
            Err(Fault { kind: ParseErrorKind::UnterminatedQuote, start: at, end: input.len() })
        } else {
            Ok(QueryToken { kind: TokenKind::Phrase, start: at, end: close + 1 })
        };
    }
    let word_end = scan(input, at, ByteClass::Word);
    if at < word_end && word_end < input.len() && input[word_end] == COLON {
        return field_term(input, at, word_end);
    }
    if first == COLON {
        return Err(Fault { kind: ParseErrorKind::MalformedField, start: at, end: at + 1 });
    }
    match find_operator(input, at) {
        Some(op) => {
            let width: usize = op.keyword_bytes().len();
            Ok(QueryToken { kind: TokenKind::Operator(op), start: at, end: at + width })
        },
        None => {
            if at < word_end {
                Ok(QueryToken { kind: TokenKind::Word, start: at, end: word_end })
            } else {
                let end = scan(input, at, ByteClass::Space);
                Ok(QueryToken { kind: TokenKind::Whitespace, start: at, end })
            }
        },
    }
}

/// Splits a query into its tokens. Fails on a quote that is never closed,
/// and on a field term without a name or a value.
///
/// Reading ends at the first byte that no token begins with, and what stands
/// from it on is dropped: the tokens lie end to end from the head of the
/// query to `read_end`, and none is empty. A fault lies within the query.
pub fn expression(input: &[u8]) -> (r: Result<Vec<QueryToken>, Fault>)
    ensures
        match r {
            Ok(tokens) => {
                &&& tokens_of(input@) == Ok::<Seq<QueryToken>, Fault>(tokens@)
                &&& forall|i: int|
                    0 <= i < tokens@.len() ==> (#[trigger] tokens@[i]).fits(input@.len() as int)
                &&& tokens@.len() > 0 ==> tokens@.last().end == read_end(input@, 0)
                &&& tokens@.len() == 0 ==> read_end(input@, 0) == 0
            },
            Err(fault) => {
                &&& tokens_of(input@) == Err::<Seq<QueryToken>, Fault>(fault)
                &&& fault.start < fault.end <= input@.len()
            },
        },
{
    let mut tokens: Vec<QueryToken> = Vec::new();
    let mut at: usize = 0;
    let len: usize = input.len();
    proof {
        lemma_tokens_tile(input@, 0);
    }
    while at < len && !stray_byte(input[at])
        invariant
            at <= input@.len() == len,
            tokens_of(input@) == followed_by(tokens@, tokens_from(input@, at as int)),
        decreases input@.len() - at,
    {
        proof {
            lemma_token_at(input@, at as int);
        }
        match next_token(input, at) {
            Err(fault) => {
                return Err(fault);
            },
            Ok(token) => {
                proof {
                    let more = tokens_from(input@, token.end as int);
                    if let Ok(rest) = more {
                        assert(tokens@ + (seq![token] + rest) =~= tokens@.push(token) + rest);
                    }
                }
                tokens.push(token);
                at = token.end;
            },
        }
    }
    assert(tokens@ + Seq::<QueryToken>::empty() =~= tokens@);
    Ok(tokens)
}

} // verus!
