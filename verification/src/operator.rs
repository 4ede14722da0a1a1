//! The boolean operators of the query language.
//!
//! The set is closed: each operator stands for one combinator of the search
//! engine, and its keyword is matched without regard to case. Keywords are
//! tried in a fixed order in which a keyword comes before every keyword that
//! it begins with, so `AND NOT` is never read as `AND`.

use crate::chars::{ascii, ascii_bytes, begins, begins_at};
use crate::span::{IResult, Span, Stop};
use vstd::prelude::*;
use vstd::string::*;

verus! {

/// How many operators there are.
pub const OPERATOR_COUNT: usize = 14;

/// A boolean operator.
#[derive(Clone, Copy, Debug, PartialEq, Eq, Structural)]
pub enum MatchOp {
    And,
    AndNot,
    Or,
    Xor,
    AndMaybe,
    Filter,
    Near,
    Phrase,
    ValueRange,
    ScaleWeight,
    EliteSet,
    ValueGe,
    ValueLe,
    Synonym,
}

impl MatchOp {
    /// The keyword that the operator is typed as, in capitals.
    pub open spec fn keyword(self) -> Seq<u8> {
        match self {
            // AND NOT
            MatchOp::AndNot => seq![0x41u8, 0x4eu8, 0x44u8, 0x20u8, 0x4eu8, 0x4fu8, 0x54u8],
            // AND MAYBE
            MatchOp::AndMaybe => seq![
                0x41u8, 0x4eu8, 0x44u8, 0x20u8, 0x4du8, 0x41u8, 0x59u8, 0x42u8, 0x45u8,
            ],
            // AND
            MatchOp::And => seq![0x41u8, 0x4eu8, 0x44u8],
            // XOR
            MatchOp::Xor => seq![0x58u8, 0x4fu8, 0x52u8],
            // OR
            MatchOp::Or => seq![0x4fu8, 0x52u8],
            // FILTER
            MatchOp::Filter => seq![0x46u8, 0x49u8, 0x4cu8, 0x54u8, 0x45u8, 0x52u8],
            // NEAR
            MatchOp::Near => seq![0x4eu8, 0x45u8, 0x41u8, 0x52u8],
            // PHRASE
            MatchOp::Phrase => seq![0x50u8, 0x48u8, 0x52u8, 0x41u8, 0x53u8, 0x45u8],
            // RANGE
            MatchOp::ValueRange => seq![0x52u8, 0x41u8, 0x4eu8, 0x47u8, 0x45u8],
            // SCALED
            MatchOp::ScaleWeight => seq![0x53u8, 0x43u8, 0x41u8, 0x4cu8, 0x45u8, 0x44u8],
            // ELITE
            MatchOp::EliteSet => seq![0x45u8, 0x4cu8, 0x49u8, 0x54u8, 0x45u8],
            // >
            MatchOp::ValueGe => seq![0x3eu8],
            // <
            MatchOp::ValueLe => seq![0x3cu8],
            // SYNONYM
            MatchOp::Synonym => seq![0x53u8, 0x59u8, 0x4eu8, 0x4fu8, 0x4eu8, 0x59u8, 0x4du8],
        }
    }

    /// Whether the keyword is made of letters: every keyword but `>` and `<`.
    pub open spec fn is_word(self) -> bool {
        self != MatchOp::ValueGe && self != MatchOp::ValueLe
    }

    /// The operator that is tried at place `rank`, from 0 on; for a place
    /// after the last, the last.
    pub open spec fn of_rank(rank: int) -> MatchOp {
        if rank == 0 {
            MatchOp::AndNot
        } else if rank == 1 {
            MatchOp::AndMaybe
        } else if rank == 2 {
            MatchOp::And
        } else if rank == 3 {
            MatchOp::Xor
        } else if rank == 4 {
            MatchOp::Or
        } else if rank == 5 {
            MatchOp::Filter
        } else if rank == 6 {
            MatchOp::Near
        } else if rank == 7 {
            MatchOp::Phrase
        } else if rank == 8 {
            MatchOp::ValueRange
        } else if rank == 9 {
            MatchOp::ScaleWeight
        } else if rank == 10 {
            MatchOp::EliteSet
        } else if rank == 11 {
            MatchOp::ValueGe
        } else if rank == 12 {
            MatchOp::ValueLe
        } else {
            MatchOp::Synonym
        }
    }

    /// The place at which the operator is tried.
    pub open spec fn rank(self) -> int {
        match self {
            MatchOp::AndNot => 0,
            MatchOp::AndMaybe => 1,
            MatchOp::And => 2,
            MatchOp::Xor => 3,
            MatchOp::Or => 4,
            MatchOp::Filter => 5,
            MatchOp::Near => 6,
            MatchOp::Phrase => 7,
            MatchOp::ValueRange => 8,
            MatchOp::ScaleWeight => 9,
            MatchOp::EliteSet => 10,
            MatchOp::ValueGe => 11,
            MatchOp::ValueLe => 12,
            MatchOp::Synonym => 13,
        }
    }

    /// The number by which the search engine knows the operator.
    pub open spec fn code(self) -> int {
        match self {
            MatchOp::And => 0,
            MatchOp::Or => 1,
            MatchOp::AndNot => 2,
            MatchOp::Xor => 3,
            MatchOp::AndMaybe => 4,
            MatchOp::Filter => 5,
            MatchOp::Near => 6,
            MatchOp::Phrase => 7,
            MatchOp::ValueRange => 8,
            MatchOp::ScaleWeight => 9,
            MatchOp::EliteSet => 10,
            MatchOp::ValueGe => 11,
            MatchOp::ValueLe => 12,
            MatchOp::Synonym => 13,
        }
    }

    /// The operator that the search engine knows by `code`, if there is one.
    pub open spec fn with_code(code: int) -> Option<MatchOp> {
        if code == 0 {
            Some(MatchOp::And)
        } else if code == 1 {
            Some(MatchOp::Or)
        } else if code == 2 {
            Some(MatchOp::AndNot)
        } else if code == 3 {
            Some(MatchOp::Xor)
        } else if code == 4 {
            Some(MatchOp::AndMaybe)
        } else if code == 5 {
            Some(MatchOp::Filter)
        } else if code == 6 {
            Some(MatchOp::Near)
        } else if code == 7 {
            Some(MatchOp::Phrase)
        } else if code == 8 {
            Some(MatchOp::ValueRange)
        } else if code == 9 {
            Some(MatchOp::ScaleWeight)
        } else if code == 10 {
            Some(MatchOp::EliteSet)
        } else if code == 11 {
            Some(MatchOp::ValueGe)
        } else if code == 12 {
            Some(MatchOp::ValueLe)
        } else if code == 13 {
            Some(MatchOp::Synonym)
        } else {
            None
        }
    }

    /// What the operator is shown as.
    pub open spec fn label(self) -> Seq<char> {
        match self {
            MatchOp::And => "<And>"@,
            MatchOp::AndNot => "<AndNot>"@,
            MatchOp::Or => "<Or>"@,
            MatchOp::Xor => "<Xor>"@,
            MatchOp::AndMaybe => "<AndMaybe>"@,
            MatchOp::Filter => "<Filter>"@,
            MatchOp::Near => "<Near>"@,
            MatchOp::Phrase => "<Phrase>"@,
            MatchOp::ValueRange => "<ValueRange>"@,
            MatchOp::ScaleWeight => "<ScaleWeight>"@,
            MatchOp::EliteSet => "<EliteSet>"@,
            MatchOp::ValueGe => "<ValueGe>"@,
            MatchOp::ValueLe => "<ValueLe>"@,
            MatchOp::Synonym => "<Synonym>"@,
        }
    }

    /// The operator's keyword as text.
    fn keyword_text(self) -> (text: &'static str)
        ensures
            is_ascii(text),
            ascii(text@) == self.keyword(),
    {
        proof {
            reveal_strlit("AND NOT");
            reveal_strlit("AND MAYBE");
            reveal_strlit("AND");
            reveal_strlit("XOR");
            reveal_strlit("OR");
            reveal_strlit("FILTER");
            reveal_strlit("NEAR");
            reveal_strlit("PHRASE");
            reveal_strlit("RANGE");
            reveal_strlit("SCALED");
            reveal_strlit("ELITE");
            reveal_strlit(">");
            reveal_strlit("<");
            reveal_strlit("SYNONYM");
            assert(ascii("AND NOT"@) =~= MatchOp::AndNot.keyword());
            assert(ascii("AND MAYBE"@) =~= MatchOp::AndMaybe.keyword());
            assert(ascii("AND"@) =~= MatchOp::And.keyword());
            assert(ascii("XOR"@) =~= MatchOp::Xor.keyword());
            assert(ascii("OR"@) =~= MatchOp::Or.keyword());
            assert(ascii("FILTER"@) =~= MatchOp::Filter.keyword());
            assert(ascii("NEAR"@) =~= MatchOp::Near.keyword());
            assert(ascii("PHRASE"@) =~= MatchOp::Phrase.keyword());
            assert(ascii("RANGE"@) =~= MatchOp::ValueRange.keyword());
            assert(ascii("SCALED"@) =~= MatchOp::ScaleWeight.keyword());
            assert(ascii("ELITE"@) =~= MatchOp::EliteSet.keyword());
            assert(ascii(">"@) =~= MatchOp::ValueGe.keyword());
            assert(ascii("<"@) =~= MatchOp::ValueLe.keyword());
            assert(ascii("SYNONYM"@) =~= MatchOp::Synonym.keyword());
        }
        match self {
            MatchOp::AndNot => "AND NOT",
            MatchOp::AndMaybe => "AND MAYBE",
            MatchOp::And => "AND",
            MatchOp::Xor => "XOR",
            MatchOp::Or => "OR",
            MatchOp::Filter => "FILTER",
            MatchOp::Near => "NEAR",
            MatchOp::Phrase => "PHRASE",
            MatchOp::ValueRange => "RANGE",
            MatchOp::ScaleWeight => "SCALED",
            MatchOp::EliteSet => "ELITE",
            MatchOp::ValueGe => ">",
            MatchOp::ValueLe => "<",
            MatchOp::Synonym => "SYNONYM",
        }
    }

    /// Whether the keyword is made of letters.
    pub fn keyword_is_word(self) -> (yes: bool)
        ensures
            yes == self.is_word(),
    {
        match self {
            MatchOp::ValueGe => false,
            MatchOp::ValueLe => false,
            _ => true,
        }
    }

    /// The bytes of the operator's keyword.
    pub fn keyword_bytes(self) -> (bytes: &'static [u8])
        ensures
            bytes@ == self.keyword(),
    {
        ascii_bytes(self.keyword_text())
    }

    /// The operator that is tried at place `rank`.
    pub fn ranked(rank: usize) -> (op: MatchOp)
        ensures
            op == Self::of_rank(rank as int),
            rank < OPERATOR_COUNT ==> op.rank() == rank,
    {
        if rank == 0 {
            MatchOp::AndNot
        } else if rank == 1 {
            MatchOp::AndMaybe
        } else if rank == 2 {
            MatchOp::And
        } else if rank == 3 {
            MatchOp::Xor
        } else if rank == 4 {
            MatchOp::Or
        } else if rank == 5 {
            MatchOp::Filter
        } else if rank == 6 {
            MatchOp::Near
        } else if rank == 7 {
            MatchOp::Phrase
        } else if rank == 8 {
            MatchOp::ValueRange
        } else if rank == 9 {
            MatchOp::ScaleWeight
        } else if rank == 10 {
            MatchOp::EliteSet
        } else if rank == 11 {
            MatchOp::ValueGe
        } else if rank == 12 {
            MatchOp::ValueLe
        } else {
            MatchOp::Synonym
        }
    }

    /// The number by which the search engine knows the operator.
    pub fn engine_code(self) -> (code: i32)
        ensures
            code == self.code(),
            0 <= code < OPERATOR_COUNT,
    {
        match self {
            MatchOp::And => 0,
            MatchOp::Or => 1,
            MatchOp::AndNot => 2,
            MatchOp::Xor => 3,
            MatchOp::AndMaybe => 4,
            MatchOp::Filter => 5,
            MatchOp::Near => 6,
            MatchOp::Phrase => 7,
            MatchOp::ValueRange => 8,
            MatchOp::ScaleWeight => 9,
            MatchOp::EliteSet => 10,
            MatchOp::ValueGe => 11,
            MatchOp::ValueLe => 12,
            MatchOp::Synonym => 13,
        }
    }

    /// The operator that the search engine knows by `code`, if there is one.
    pub fn from_engine_code(code: i32) -> (op: Option<MatchOp>)
        ensures
            op == Self::with_code(code as int),
    {
        if code == 0 {
            Some(MatchOp::And)
        } else if code == 1 {
            Some(MatchOp::Or)
        } else if code == 2 {
            Some(MatchOp::AndNot)
        } else if code == 3 {
            Some(MatchOp::Xor)
        } else if code == 4 {
            Some(MatchOp::AndMaybe)
        } else if code == 5 {
            Some(MatchOp::Filter)
        } else if code == 6 {
            Some(MatchOp::Near)
        } else if code == 7 {
            Some(MatchOp::Phrase)
        } else if code == 8 {
            Some(MatchOp::ValueRange)
        } else if code == 9 {
            Some(MatchOp::ScaleWeight)
        } else if code == 10 {
            Some(MatchOp::EliteSet)
        } else if code == 11 {
            Some(MatchOp::ValueGe)
        } else if code == 12 {
            Some(MatchOp::ValueLe)
        } else if code == 13 {
            Some(MatchOp::Synonym)
        } else {
            None
        }
    }

    /// What the operator is shown as: its name between angle brackets.
    pub fn to_string(&self) -> (text: String)
        ensures
            text@ == self.label(),
    {
        match self {
            MatchOp::And => "<And>".to_owned(),
            MatchOp::AndNot => "<AndNot>".to_owned(),
            MatchOp::Or => "<Or>".to_owned(),
            MatchOp::Xor => "<Xor>".to_owned(),
            MatchOp::AndMaybe => "<AndMaybe>".to_owned(),
            MatchOp::Filter => "<Filter>".to_owned(),
            MatchOp::Near => "<Near>".to_owned(),
            MatchOp::Phrase => "<Phrase>".to_owned(),
            MatchOp::ValueRange => "<ValueRange>".to_owned(),
            MatchOp::ScaleWeight => "<ScaleWeight>".to_owned(),
            MatchOp::EliteSet => "<EliteSet>".to_owned(),
            MatchOp::ValueGe => "<ValueGe>".to_owned(),
            MatchOp::ValueLe => "<ValueLe>".to_owned(),
            MatchOp::Synonym => "<Synonym>".to_owned(),
        }
    }
}

/// The operator whose keyword the text goes on with at `at`, in any case of
/// its letters: the first operator from place `rank` on whose keyword begins
/// there. What follows the keyword does not count.
pub open spec fn keyword_at(s: Seq<u8>, at: int, rank: int) -> Option<MatchOp>
    decreases OPERATOR_COUNT - rank,
{
    if rank >= OPERATOR_COUNT {
        None
    } else if begins(s, at, MatchOp::of_rank(rank).keyword(), true) {
        Some(MatchOp::of_rank(rank))
    } else {
        keyword_at(s, at, rank + 1)
    }
}

/// Every keyword has a byte and the longest has nine.
pub proof fn lemma_keyword_len(op: MatchOp)
    ensures
        1 <= op.keyword().len() <= 9,
{
}

/// A keyword found at `at` begins there and lies within the text.
pub proof fn lemma_keyword_at(s: Seq<u8>, at: int, rank: int)
    requires
        0 <= at <= s.len(),
        0 <= rank,
    ensures
        keyword_at(s, at, rank) matches Some(op) ==> begins(s, at, op.keyword(), true) && at
            + op.keyword().len() <= s.len(),
    decreases OPERATOR_COUNT - rank,
{
    if rank < OPERATOR_COUNT {
        lemma_keyword_at(s, at, rank + 1);
    }
}

/// The keyword that is found at `at` is the first in the order of the
/// keywords that begins there.
pub proof fn lemma_first_keyword(s: Seq<u8>, at: int, rank: int, other: MatchOp)
    requires
        0 <= rank <= other.rank(),
        begins(s, at, other.keyword(), true),
    ensures
        keyword_at(s, at, rank) matches Some(op) && rank <= op.rank() <= other.rank() && begins(
            s,
            at,
            op.keyword(),
            true,
        ),
    decreases OPERATOR_COUNT - rank,
{
    if !begins(s, at, MatchOp::of_rank(rank).keyword(), true) {
        lemma_first_keyword(s, at, rank + 1, other);
    }
}

/// Finds the operator whose keyword the input goes on with at `at`.
pub fn find_keyword(input: &[u8], at: usize) -> (found: Option<MatchOp>)
    requires
        at <= input@.len(),
    ensures
        found == keyword_at(input@, at as int, 0),
        found matches Some(op) ==> at + op.keyword().len() <= input@.len(),
{
    let mut rank: usize = 0;
    while rank < OPERATOR_COUNT
        invariant
            rank <= OPERATOR_COUNT,
            at <= input@.len(),
            keyword_at(input@, at as int, 0) == keyword_at(input@, at as int, rank as int),
        decreases OPERATOR_COUNT - rank,
    {
        let op = MatchOp::ranked(rank);
        if begins_at(input, at, op.keyword_bytes(), true) {
            return Some(op);
        }
        rank = rank + 1;
    }
    None
}

/// Whether `r` is the operator `found` read at the head of `input`, with
/// the rest of the text after its keyword.
pub open spec fn reads_operator<'a>(
    input: &'a str,
    found: Option<MatchOp>,
    r: IResult<'a, MatchOp>,
) -> bool {
    match r {
        Ok((rest, op)) => {
            &&& found == Some(op)
            &&& rest.wf()
            &&& rest.source@ == input.spec_bytes()
            &&& rest.start == op.keyword().len()
            &&& rest.end == input.spec_bytes().len()
        },
        Err(stop) => stop == Stop::Mismatch && found is None,
    }
}

/// Reads an operator at the head of the text: the first in the order of the
/// keywords whose keyword the text begins with, in any case of its letters.
pub fn matchop<'a>(input: &'a str) -> (r: IResult<'a, MatchOp>)
    ensures
        reads_operator(input, keyword_at(input.spec_bytes(), 0, 0), r),
{
    let span = Span::new(input);
    match find_keyword(span.source, 0) {
        Some(op) => {
            let width: usize = op.keyword_bytes().len();
            let (rest, _) = span.split(width);
            Ok((rest, op))
        },
        None => Err(Stop::Mismatch),
    }
}

/// Reads an operator at the head of the text, as `matchop` does.
pub fn match_op<'a>(input: &'a str) -> (r: IResult<'a, MatchOp>)
    ensures
        reads_operator(input, keyword_at(input.spec_bytes(), 0, 0), r),
{
    matchop(input)
}

} // verus!
