//! The query builder: the tokens of a query folded into one boolean tree.
//!
//! The fold runs from left to right and knows no precedence: each term is
//! joined to all that stands before it. Between two terms the last operator
//! typed decides, and `OR` where none was typed. An operator after the last
//! term joins nothing and is dropped.

use crate::field::XapianTag;
use crate::lexer::{expression, tokens_of, Fault, ParseErrorKind, QueryToken, TokenKind};
use crate::operator::MatchOp;
use crate::span::{at_most, column_at, line_at, Span};
use vstd::prelude::*;
use vstd::slice::{slice_subrange, slice_to_vec};
use vstd::string::*;

verus! {

/// The depth that a query may not go beyond: the fold joins a term to a
/// query of `MAX_DEPTH` joins, and to none of more, so a query holds
/// `MAX_DEPTH + 1` joins at most.
pub const MAX_DEPTH: usize = 50;

/// A boolean query.
#[derive(Debug, PartialEq, Eq)]
pub enum QueryNode {
    /// A term or a phrase as it was typed, scoped to a field or to the body of
    /// the notes. A phrase holds its quotes. An empty unscoped text stands for
    /// the query that matches every note.
    Leaf { field: Option<XapianTag>, text: Vec<u8> },
    /// Two queries joined by an operator.
    Composite { left: Box<QueryNode>, op: MatchOp, right: Box<QueryNode> },
}

/// What a `QueryNode` stands for.
pub enum QueryTree {
    Leaf { field: Option<XapianTag>, text: Seq<u8> },
    Composite { left: Box<QueryTree>, op: MatchOp, right: Box<QueryTree> },
}

impl QueryNode {
    /// What the query stands for.
    pub open spec fn tree(self) -> QueryTree
        decreases self,
    {
        match self {
            QueryNode::Leaf { field, text } => QueryTree::Leaf { field, text: text@ },
            QueryNode::Composite { left, op, right } => QueryTree::Composite {
                left: Box::new((*left).tree()),
                op,
                right: Box::new((*right).tree()),
            },
        }
    }
}

impl View for QueryNode {
    type V = QueryTree;

    open spec fn view(&self) -> QueryTree {
        self.tree()
    }
}

impl QueryTree {
    /// The query that matches every note.
    pub open spec fn match_all() -> QueryTree {
        QueryTree::Leaf { field: None, text: Seq::empty() }
    }

    /// How many joins the query holds.
    pub open spec fn joins(self) -> nat
        decreases self,
    {
        match self {
            QueryTree::Leaf { .. } => 0,
            QueryTree::Composite { left, right, .. } => left.joins() + right.joins() + 1,
        }
    }

    /// The leaves of the query from left to right.
    pub open spec fn leaves(self) -> Seq<QueryTree>
        decreases self,
    {
        match self {
            QueryTree::Leaf { .. } => seq![self],
            QueryTree::Composite { left, right, .. } => left.leaves() + right.leaves(),
        }
    }

    /// The operators of the query from left to right.
    pub open spec fn operators(self) -> Seq<MatchOp>
        decreases self,
    {
        match self {
            QueryTree::Leaf { .. } => Seq::empty(),
            QueryTree::Composite { left, op, right } => left.operators().push(op)
                + right.operators(),
        }
    }

    /// Whether every join has a single term on its right.
    pub open spec fn left_deep(self) -> bool
        decreases self,
    {
        match self {
            QueryTree::Leaf { .. } => true,
            QueryTree::Composite { left, right, .. } => left.left_deep() && *right is Leaf,
        }
    }
}

impl QueryNode {
    /// The query that matches every note.
    pub fn match_all() -> (node: QueryNode)
        ensures
            node@ == QueryTree::match_all(),
    {
        QueryNode::Leaf { field: None, text: Vec::new() }
    }

    /// Whether this is the query that matches every note.
    pub fn is_match_all(&self) -> (yes: bool)
        ensures
            yes == (self@ == QueryTree::match_all()),
    {
        match self {
            QueryNode::Leaf { field, text } => {
                assert(text@.len() == 0 ==> text@ =~= Seq::<u8>::empty());
                field.is_none() && text.len() == 0
            },
            QueryNode::Composite { .. } => false,
        }
    }
}

/// The leaf that a term stands for. A field term whose name is the name of
/// a field is its value scoped to that field. A field term of any other name
/// is no error: the whole of it is a term of the body. So is a word or a
/// phrase.
pub open spec fn leaf_of(s: Seq<u8>, token: QueryToken) -> QueryTree {
    let whole = QueryTree::Leaf {
        field: None,
        text: s.subrange(token.start as int, token.end as int),
    };
    match token.kind {
        TokenKind::FieldTerm { colon } => match XapianTag::named(
            s.subrange(token.start as int, colon as int),
            0,
        ) {
            Some(tag) => QueryTree::Leaf {
                field: Some(tag),
                text: s.subrange(colon + 1, token.end as int),
            },
            None => whole,
        },
        _ => whole,
    }
}

/// The operator that joins a term to what stands before it.
pub open spec fn joining(pending: Option<MatchOp>) -> MatchOp {
    match pending {
        Some(op) => op,
        None => MatchOp::Or,
    }
}

/// The query that the tokens from `i` on make of the query `acc` built so far.
/// `pending` is the last operator met since the last term and `joins` the
/// number of joins in `acc`.
///
/// White space changes nothing. An operator before any term is a fault; after
/// one it becomes the pending operator. The first term is the first query.
/// Any later term is joined on the right of `acc`, unless `acc` holds more
/// than `MAX_DEPTH` joins already, which is a fault. Without any term the
/// result is the query that matches every note.
pub open spec fn fold_from(
    s: Seq<u8>,
    tokens: Seq<QueryToken>,
    i: int,
    acc: Option<QueryTree>,
    pending: Option<MatchOp>,
    joins: nat,
) -> Result<QueryTree, Fault>
    decreases tokens.len() - i,
{
    if i < 0 || i >= tokens.len() {
        match acc {
            Some(tree) => Ok(tree),
            None => Ok(QueryTree::match_all()),
        }
    } else {
        let token = tokens[i];
        match token.kind {
            TokenKind::Whitespace => fold_from(s, tokens, i + 1, acc, pending, joins),
            TokenKind::Operator(op) => match acc {
                None => Err(
                    Fault {
                        kind: ParseErrorKind::LeadingOperator,
                        start: token.start,
                        end: token.end,
                    },
                ),
                Some(_) => fold_from(s, tokens, i + 1, acc, Some(op), joins),
            },
            _ => match acc {
                None => fold_from(s, tokens, i + 1, Some(leaf_of(s, token)), None, joins),
                Some(left) => if joins > MAX_DEPTH {
                    Err(
                        Fault {
                            kind: ParseErrorKind::DepthExceeded,
                            start: token.start,
                            end: token.end,
                        },
                    )
                } else {
                    fold_from(
                        s,
                        tokens,
                        i + 1,
                        Some(
                            QueryTree::Composite {
                                left: Box::new(left),
                                op: joining(pending),
                                right: Box::new(leaf_of(s, token)),
                            },
                        ),
                        None,
                        joins + 1,
                    )
                },
            },
        }
    }
}

/// The query that the tokens of `s` make.
pub open spec fn fold(s: Seq<u8>, tokens: Seq<QueryToken>) -> Result<QueryTree, Fault> {
    fold_from(s, tokens, 0, None, None, 0)
}

/// The query that `s` is read as, or the first fault in it.
pub open spec fn parse(s: Seq<u8>) -> Result<QueryTree, Fault> {
    match tokens_of(s) {
        Err(fault) => Err(fault),
        Ok(tokens) => fold(s, tokens),
    }
}

/// What a built query stands for.
pub open spec fn tree_of(node: Option<QueryNode>) -> Option<QueryTree> {
    match node {
        Some(node) => Some(node@),
        None => None,
    }
}

/// The bytes `start..end` of `input`.
fn copy_range(input: &[u8], start: usize, end: usize) -> (bytes: Vec<u8>)
    requires
        start <= end <= input@.len(),
    ensures
        bytes@ == input@.subrange(start as int, end as int),
{
    slice_to_vec(slice_subrange(input, start, end))
}

/// Builds the leaf that a term stands for.
pub fn leaf(input: &[u8], token: &QueryToken) -> (node: QueryNode)
    requires
        token.fits(input@.len() as int),
    ensures
        node@ == leaf_of(input@, *token),
{
    match token.kind {
        TokenKind::FieldTerm { colon } => {
            match XapianTag::from_name(slice_subrange(input, token.start, colon)) {
                Some(tag) => QueryNode::Leaf {
                    field: Some(tag),
                    text: copy_range(input, colon + 1, token.end),
                },
                None => QueryNode::Leaf {
                    field: None,
                    text: copy_range(input, token.start, token.end),
                },
            }
        },
        _ => QueryNode::Leaf { field: None, text: copy_range(input, token.start, token.end) },
    }
}

/// Folds the tokens of a query into one tree, from left to right.
///
/// Fails with `LeadingOperator` where an operator stands before the first
/// term, and with `DepthExceeded` at the term that would be join number
/// `MAX_DEPTH + 2`.
pub fn expression_into_query(input: &[u8], tokens: &Vec<QueryToken>) -> (r: Result<
    QueryNode,
    Fault,
>)
    requires
        forall|i: int| 0 <= i < tokens@.len() ==> (#[trigger] tokens@[i]).fits(input@.len() as int),
    ensures
        match r {
            Ok(node) => fold(input@, tokens@) == Ok::<QueryTree, Fault>(node@),
            Err(fault) => fold(input@, tokens@) == Err::<QueryTree, Fault>(fault),
        },
{
    let mut acc: Option<QueryNode> = None;
    let mut pending: Option<MatchOp> = None;
    let mut joins: usize = 0;
    let mut i: usize = 0;
    while i < tokens.len()
        invariant
            i <= tokens@.len(),
            joins <= MAX_DEPTH + 1,
            forall|k: int|
                0 <= k < tokens@.len() ==> (#[trigger] tokens@[k]).fits(input@.len() as int),
            fold(input@, tokens@) == fold_from(
                input@,
                tokens@,
                i as int,
                tree_of(acc),
                pending,
                joins as nat,
            ),
        decreases tokens@.len() - i,
    {
        let token = tokens[i];
        match token.kind {
            TokenKind::Whitespace => {},
            TokenKind::Operator(op) => {
                if acc.is_none() {
                    return Err(
                        Fault {
                            kind: ParseErrorKind::LeadingOperator,
                            start: token.start,
                            end: token.end,
                        },
                    );
                }
                pending = Some(op);
            },
            _ => {
                let right = leaf(input, &token);
                let before = acc;
                match before {
                    None => {
                        acc = Some(right);
                    },
                    Some(left) => {
                        if joins > MAX_DEPTH {
                            return Err(
                                Fault {
                                    kind: ParseErrorKind::DepthExceeded,
                                    start: token.start,
                                    end: token.end,
                                },
                            );
                        }
                        let op = match pending {
                            Some(op) => op,
                            None => MatchOp::Or,
                        };
                        acc = Some(
                            QueryNode::Composite {
                                left: Box::new(left),
                                op,
                                right: Box::new(right),
                            },
                        );
                        joins = joins + 1;
                    },
                }
                pending = None;
            },
        }
        i = i + 1;
    }
    match acc {
        Some(node) => Ok(node),
        None => Ok(QueryNode::match_all()),
    }
}

/// Reads a query from its bytes.
pub fn parse_query(input: &[u8]) -> (r: Result<QueryNode, Fault>)
    ensures
        match r {
            Ok(node) => parse(input@) == Ok::<QueryTree, Fault>(node@),
            Err(fault) => parse(input@) == Err::<QueryTree, Fault>(fault) && fault.start
                < fault.end <= input@.len(),
        },
{
    match expression(input) {
        Err(fault) => Err(fault),
        Ok(tokens) => {
            proof {
                lemma_fold_fault(input@, tokens@, 0, None, None, 0);
            }
            expression_into_query(input, &tokens)
        },
    }
}

/// A fault of the fold is the extent of one of the tokens.
pub proof fn lemma_fold_fault(
    s: Seq<u8>,
    tokens: Seq<QueryToken>,
    i: int,
    acc: Option<QueryTree>,
    pending: Option<MatchOp>,
    joins: nat,
)
    requires
        0 <= i,
        forall|k: int| 0 <= k < tokens.len() ==> (#[trigger] tokens[k]).fits(s.len() as int),
    ensures
        fold_from(s, tokens, i, acc, pending, joins) matches Err(fault) ==> exists|k: int|
            i <= k < tokens.len() && fault.start == (#[trigger] tokens[k]).start && fault.end
                == tokens[k].end,
    decreases tokens.len() - i,
{
    if i < tokens.len() {
        let token = tokens[i];
        match token.kind {
            TokenKind::Whitespace => {
                lemma_fold_fault(s, tokens, i + 1, acc, pending, joins);
            },
            TokenKind::Operator(op) => {
                if acc is Some {
                    lemma_fold_fault(s, tokens, i + 1, acc, Some(op), joins);
                }
            },
            _ => {
                match acc {
                    None => {
                        lemma_fold_fault(s, tokens, i + 1, Some(leaf_of(s, token)), None, joins);
                    },
                    Some(left) => {
                        if joins <= MAX_DEPTH {
                            lemma_fold_fault(
                                s,
                                tokens,
                                i + 1,
                                Some(
                                    QueryTree::Composite {
                                        left: Box::new(left),
                                        op: joining(pending),
                                        right: Box::new(leaf_of(s, token)),
                                    },
                                ),
                                None,
                                joins + 1,
                            );
                        }
                    },
                }
            },
        }
    }
}

impl ParseErrorKind {
    /// What is told to the user.
    pub open spec fn text(self) -> Seq<char> {
        match self {
            ParseErrorKind::UnterminatedQuote => "a quote is never closed"@,
            ParseErrorKind::MalformedField => "a field needs a name and a value"@,
            ParseErrorKind::LeadingOperator => "an operator needs a term before it"@,
            ParseErrorKind::DepthExceeded => "the query joins too many terms"@,
        }
    }

    /// What is told to the user.
    pub fn message(self) -> (text: &'static str)
        ensures
            text@ == self.text(),
    {
        match self {
            ParseErrorKind::UnterminatedQuote => "a quote is never closed",
            ParseErrorKind::MalformedField => "a field needs a name and a value",
            ParseErrorKind::LeadingOperator => "an operator needs a term before it",
            ParseErrorKind::DepthExceeded => "the query joins too many terms",
        }
    }
}

/// A fault in a query with the bytes that show it and where they stand.
#[derive(Debug, PartialEq, Eq)]
pub struct ParseError {
    pub kind: ParseErrorKind,
    /// The bytes that show the fault.
    pub fragment: Vec<u8>,
    /// Offset of the fragment in the query.
    pub offset: usize,
    /// One-based line of the fragment; `u32::MAX` for any later line.
    pub line: u32,
    /// One-based column of the fragment in bytes; `usize::MAX` for any later
    /// column.
    pub column: usize,
}

impl ParseError {
    /// Whether this is `fault` as it is found in the query `s`.
    pub open spec fn reports(self, s: Seq<u8>, fault: Fault) -> bool {
        &&& self.kind == fault.kind
        &&& self.fragment@ == s.subrange(fault.start as int, fault.end as int)
        &&& self.offset == fault.start
        &&& self.line == at_most(line_at(s, fault.start as int), u32::MAX as int)
        &&& self.column == at_most(column_at(s, fault.start as int), usize::MAX as int)
    }

    /// Finds the fragment, the line and the column of a fault.
    pub fn locate(input: &[u8], fault: Fault) -> (error: ParseError)
        requires
            fault.start <= fault.end <= input@.len(),
        ensures
            error.reports(input@, fault),
    {
        let span = Span { source: input, start: fault.start, end: fault.end };
        ParseError {
            kind: fault.kind,
            fragment: slice_to_vec(span.fragment()),
            offset: fault.start,
            line: span.location_line(),
            column: span.get_column(),
        }
    }
}

/// Reads a query as the user typed it.
///
/// Returns the tree that the query stands for, and for an empty query the
/// query that matches every note. A query that cannot be read is never a
/// crash: the error names the fault and holds the fragment that shows it with
/// its line and column.
pub fn parse_user_query(qstr: &str) -> (r: Result<QueryNode, ParseError>)
    ensures
        match r {
            Ok(node) => parse(qstr.spec_bytes()) == Ok::<QueryTree, Fault>(node@),
            Err(error) => parse(qstr.spec_bytes()) matches Err(fault) && error.reports(
                qstr.spec_bytes(),
                fault,
            ),
        },
{
    let input = qstr.as_bytes();
    match parse_query(input) {
        Ok(node) => Ok(node),
        Err(fault) => Err(ParseError::locate(input, fault)),
    }
}

} // verus!
