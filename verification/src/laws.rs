//! What holds of the library as a whole.

use crate::chars::{
    agree, begins, is_quote, is_space_byte, is_stray_byte, is_word_byte, lemma_run_end_is, lower,
    same_byte, ByteClass, COLON,
};
use crate::document::{identity, TikaDocument};
use crate::field::{XapianTag, FIELD_COUNT};
use crate::lexer::{
    followed_by, lemma_first_operator, lemma_operator_at, operator_at, stands, token_at,
    tokens_from, tokens_of, Fault, ParseErrorKind, QueryToken, TokenKind,
};
use crate::operator::{
    keyword_at, lemma_first_keyword, lemma_keyword_len, MatchOp, OPERATOR_COUNT,
};
use crate::query::{fold, fold_from, joining, leaf_of, parse, QueryTree, MAX_DEPTH};
use crate::tui_app::{command_of, Action, Command, Key, LoopState, TerminalApp};
use crate::util::Event;
use vstd::utf8::encode_utf8;
use vstd::prelude::*;
use vstd::string::*;

verus! {

/// The operators and the operator numbers of the search engine stand one to
/// one: an operator is found again by its number, a number that finds an
/// operator is the number of that operator, and two operators of one number
/// are one operator.
pub proof fn lemma_codes(a: MatchOp, b: MatchOp, code: int)
    ensures
        MatchOp::with_code(a.code()) == Some(a),
        MatchOp::with_code(code) == Some(a) ==> a.code() == code,
        MatchOp::with_code(code) is Some <==> 0 <= code < OPERATOR_COUNT,
        a.code() == b.code() <==> a == b,
{
}

/// Every operator has its place in the order of the keywords, and no two
/// have one place.
pub proof fn lemma_ranks(a: MatchOp, b: MatchOp)
    ensures
        0 <= a.rank() < OPERATOR_COUNT,
        MatchOp::of_rank(a.rank()) == a,
        a.rank() == b.rank() <==> a == b,
{
}

/// Two bytes that agree without regard to case have one lower-case form.
proof fn lemma_agree_at(s: Seq<u8>, at: int, word: Seq<u8>, i: int)
    requires
        begins(s, at, word, true),
        0 <= i < word.len(),
    ensures
        lower(s[at + i]) == lower(word[i]),
{
    assert(same_byte(s[at + i], word[i], true));
}

/// No keyword is read as a shorter one: where the text goes on with the
/// keyword of `other` at `at`, the keyword that is read there is as long or
/// longer. So `AND NOT` and `AND MAYBE` are never read as `AND`, whatever
/// follows them.
pub proof fn lemma_longest_keyword(s: Seq<u8>, at: int, other: MatchOp)
    requires
        begins(s, at, other.keyword(), true),
    ensures
        keyword_at(s, at, 0) matches Some(op) && op.keyword().len() >= other.keyword().len()
            && begins(s, at, op.keyword(), true),
{
    lemma_first_keyword(s, at, 0, other);
    let op = keyword_at(s, at, 0)->0;
    lemma_keywords_differ(s, at, op, other);
}

/// The same of the operators that the lexer reads: where the keyword of
/// `other` stands at `at` as a token, which for a keyword made of letters
/// asks that no letter, digit or underscore follows it, the operator that is
/// read there has a keyword that is as long or longer.
pub proof fn lemma_longest_operator(s: Seq<u8>, at: int, other: MatchOp)
    requires
        stands(s, at, other),
    ensures
        operator_at(s, at, 0) matches Some(op) && op.keyword().len() >= other.keyword().len()
            && stands(s, at, op),
{
    lemma_first_operator(s, at, 0, other);
    let op = operator_at(s, at, 0)->0;
    lemma_keywords_differ(s, at, op, other);
}

/// Of two keywords that the text goes on with at one place, the one that is
/// tried first is not the shorter.
proof fn lemma_keywords_differ(s: Seq<u8>, at: int, first: MatchOp, second: MatchOp)
    requires
        first.rank() <= second.rank(),
        begins(s, at, first.keyword(), true),
        begins(s, at, second.keyword(), true),
    ensures
        first.keyword().len() >= second.keyword().len(),
{
    let a = first.keyword();
    let b = second.keyword();
    // Two keywords that stand at one place agree as far as the shorter goes.
    // In the order of the keywords no keyword begins with an earlier one:
    // the first, the second or the fifth byte tells them apart.
    lemma_agree_at(s, at, a, 0);
    lemma_agree_at(s, at, b, 0);
    if a.len() > 1 && b.len() > 1 {
        lemma_agree_at(s, at, a, 1);
        lemma_agree_at(s, at, b, 1);
    }
    if a.len() > 4 && b.len() > 4 {
        lemma_agree_at(s, at, a, 4);
        lemma_agree_at(s, at, b, 4);
    }
}

/// `AND NOT` is read as one operator wherever the text goes on with it, and
/// so is `AND MAYBE`. The lexer reads them so wherever they stand as tokens.
pub proof fn lemma_and_not(s: Seq<u8>, at: int)
    ensures
        begins(s, at, MatchOp::AndNot.keyword(), true) ==> keyword_at(s, at, 0) == Some(
            MatchOp::AndNot,
        ),
        begins(s, at, MatchOp::AndMaybe.keyword(), true) ==> keyword_at(s, at, 0) == Some(
            MatchOp::AndMaybe,
        ),
        stands(s, at, MatchOp::AndNot) ==> operator_at(s, at, 0) == Some(MatchOp::AndNot),
        stands(s, at, MatchOp::AndMaybe) ==> operator_at(s, at, 0) == Some(MatchOp::AndMaybe),
{
    if begins(s, at, MatchOp::AndNot.keyword(), true) {
        lemma_first_keyword(s, at, 0, MatchOp::AndNot);
    }
    if begins(s, at, MatchOp::AndMaybe.keyword(), true) {
        lemma_first_keyword(s, at, 0, MatchOp::AndMaybe);
        lemma_longest_keyword(s, at, MatchOp::AndMaybe);
    }
    if stands(s, at, MatchOp::AndNot) {
        lemma_first_operator(s, at, 0, MatchOp::AndNot);
    }
    if stands(s, at, MatchOp::AndMaybe) {
        lemma_first_operator(s, at, 0, MatchOp::AndMaybe);
        lemma_longest_operator(s, at, MatchOp::AndMaybe);
    }
}

/// The file name and the full path share one prefix, and no other two
/// fields do.
pub proof fn lemma_prefixes(a: XapianTag, b: XapianTag)
    ensures
        a.prefix() == b.prefix() <==> a == b || (a == XapianTag::Filename && b
            == XapianTag::Fullpath) || (a == XapianTag::Fullpath && b == XapianTag::Filename),
{
    reveal_strlit("A");
    reveal_strlit("D");
    reveal_strlit("F");
    reveal_strlit("S");
    reveal_strlit("XS");
    reveal_strlit("K");
    if a.prefix() == b.prefix() {
        assert(a.prefix().len() == b.prefix().len());
        assert(a.prefix()[0] == b.prefix()[0]);
    }
}

/// Two notes have one identity term if and only if they have one file name.
pub proof fn lemma_identity(a: Seq<char>, b: Seq<char>)
    ensures
        identity(a) == identity(b) <==> a == b,
{
    reveal_strlit("Q");
    if identity(a) == identity(b) {
        assert(a =~= identity(a).subrange(1, identity(a).len() as int));
        assert(b =~= identity(b).subrange(1, identity(b).len() as int));
    }
}

/// The empty query is read as the query that matches every note.
pub proof fn lemma_empty_query()
    ensures
        parse(Seq::empty()) == Ok::<QueryTree, Fault>(QueryTree::match_all()),
{
}

/// Whether a token is a term: a word, a phrase or a field term.
pub open spec fn is_term(token: QueryToken) -> bool {
    token.kind is Word || token.kind is Phrase || token.kind is FieldTerm
}

/// The leaves of the terms among the tokens from `i` on, in their order.
pub open spec fn terms_from(s: Seq<u8>, tokens: Seq<QueryToken>, i: int) -> Seq<QueryTree>
    decreases tokens.len() - i,
{
    if i < 0 || i >= tokens.len() {
        Seq::empty()
    } else if is_term(tokens[i]) {
        seq![leaf_of(s, tokens[i])] + terms_from(s, tokens, i + 1)
    } else {
        terms_from(s, tokens, i + 1)
    }
}

/// The leaves of the query built so far.
pub open spec fn leaves_so_far(acc: Option<QueryTree>) -> Seq<QueryTree> {
    match acc {
        Some(tree) => tree.leaves(),
        None => Seq::empty(),
    }
}

/// A query has one leaf more than it has joins.
pub proof fn lemma_leaves_and_joins(tree: QueryTree)
    ensures
        tree.leaves().len() == tree.joins() + 1,
    decreases tree,
{
    match tree {
        QueryTree::Leaf { .. } => {},
        QueryTree::Composite { left, right, .. } => {
            lemma_leaves_and_joins(*left);
            lemma_leaves_and_joins(*right);
        },
    }
}

/// The fold keeps the terms in their order and joins each to all that
/// stands before it: a query that it builds on a left-deep tree is left-deep,
/// its leaves are those of the tree and then the terms that were still to
/// come, and it holds `MAX_DEPTH + 1` joins at most.
pub proof fn lemma_fold_keeps_order(
    s: Seq<u8>,
    tokens: Seq<QueryToken>,
    i: int,
    acc: Option<QueryTree>,
    pending: Option<MatchOp>,
    joins: nat,
)
    requires
        0 <= i,
        joins <= MAX_DEPTH + 1,
        match acc {
            Some(tree) => tree.left_deep() && tree.joins() == joins,
            None => joins == 0,
        },
    ensures
        fold_from(s, tokens, i, acc, pending, joins) matches Ok(tree) ==> {
            &&& tree.left_deep()
            &&& tree.joins() <= MAX_DEPTH + 1
            &&& if acc is None && terms_from(s, tokens, i).len() == 0 {
                tree == QueryTree::match_all()
            } else {
                tree.leaves() == leaves_so_far(acc) + terms_from(s, tokens, i)
            }
        },
    decreases tokens.len() - i,
{
    if i >= tokens.len() {
        assert(leaves_so_far(acc) + Seq::<QueryTree>::empty() =~= leaves_so_far(acc));
    } else {
        let token = tokens[i];
        match token.kind {
            TokenKind::Whitespace => {
                lemma_fold_keeps_order(s, tokens, i + 1, acc, pending, joins);
            },
            TokenKind::Operator(op) => {
                if acc is Some {
                    lemma_fold_keeps_order(s, tokens, i + 1, acc, Some(op), joins);
                }
            },
            _ => {
                let leaf = leaf_of(s, token);
                let rest = terms_from(s, tokens, i + 1);
                reveal_with_fuel(QueryTree::joins, 2);
                reveal_with_fuel(QueryTree::leaves, 2);
                assert(is_term(token));
                assert(leaf is Leaf);
                assert(leaf.leaves() =~= seq![leaf]);
                assert(terms_from(s, tokens, i) == seq![leaf] + rest);
                match acc {
                    None => {
                        lemma_fold_keeps_order(s, tokens, i + 1, Some(leaf), None, joins);
                        assert(seq![leaf] + rest =~= Seq::<QueryTree>::empty() + (seq![leaf]
                            + rest));
                    },
                    Some(left) => {
                        if joins <= MAX_DEPTH {
                            let joined = QueryTree::Composite {
                                left: Box::new(left),
                                op: joining(pending),
                                right: Box::new(leaf),
                            };
                            assert(joined.left_deep());
                            assert(joined.joins() == joins + 1);
                            assert(joined.leaves() == left.leaves() + seq![leaf]);
                            lemma_fold_keeps_order(
                                s,
                                tokens,
                                i + 1,
                                Some(joined),
                                None,
                                joins + 1,
                            );
                            assert((left.leaves() + seq![leaf]) + rest =~= left.leaves() + (
                            seq![leaf] + rest));
                        }
                    },
                }
            },
        }
    }
}

/// A query that can be read is read without any reordering: the tree is
/// left-deep, its leaves are the terms of the query in the order in which they
/// were typed, and it holds `MAX_DEPTH + 1` joins at most. A query without any
/// term is the query that matches every note.
pub proof fn lemma_parse_keeps_order(s: Seq<u8>)
    ensures
        parse(s) matches Ok(tree) ==> {
            &&& tokens_of(s) matches Ok(tokens)
            &&& tree.left_deep()
            &&& tree.joins() <= MAX_DEPTH + 1
            &&& if terms_from(s, tokens, 0).len() == 0 {
                tree == QueryTree::match_all()
            } else {
                tree.leaves() == terms_from(s, tokens, 0)
            }
        },
{
    if let Ok(tokens) = tokens_of(s) {
        lemma_fold_keeps_order(s, tokens, 0, None, None, 0);
        assert(Seq::<QueryTree>::empty() + terms_from(s, tokens, 0) =~= terms_from(s, tokens, 0));
    }
}

/// Where no keyword begins with the byte at `at`, no operator is read there.
proof fn lemma_no_operator(s: Seq<u8>, at: int, rank: int)
    requires
        0 <= at < s.len(),
        0 <= rank,
        forall|op: MatchOp| lower(s[at]) != lower(#[trigger] op.keyword()[0]),
    ensures
        operator_at(s, at, rank) is None,
    decreases OPERATOR_COUNT - rank,
{
    if rank < OPERATOR_COUNT {
        let op = MatchOp::of_rank(rank);
        lemma_keyword_len(op);
        if stands(s, at, op) {
            assert(same_byte(s[at + 0], op.keyword()[0], true));
        }
        lemma_no_operator(s, at, rank + 1);
    }
}

/// No keyword begins with white space.
proof fn lemma_keywords_begin(b: u8)
    requires
        is_space_byte(b),
    ensures
        forall|op: MatchOp| lower(b) != lower(#[trigger] op.keyword()[0]),
{
}

/// A query of nothing but white space is read as the query that matches
/// every note.
pub proof fn lemma_blank_query(s: Seq<u8>)
    requires
        s.len() <= usize::MAX,
        forall|i: int| 0 <= i < s.len() ==> is_space_byte(#[trigger] s[i]),
    ensures
        parse(s) == Ok::<QueryTree, Fault>(QueryTree::match_all()),
{
    if s.len() > 0 {
        let len = s.len() as int;
        lemma_run_end_is(s, 0, ByteClass::Space, len);
        lemma_run_end_is(s, 0, ByteClass::Word, 0);
        lemma_keywords_begin(s[0]);
        lemma_no_operator(s, 0, 0);
        let blank = QueryToken { kind: TokenKind::Whitespace, start: 0, end: len as usize };
        assert(token_at(s, 0) == Ok::<QueryToken, Fault>(blank));
        assert(tokens_from(s, len) == Ok::<Seq<QueryToken>, Fault>(Seq::empty()));
        let tokens = seq![blank] + Seq::<QueryToken>::empty();
        assert(tokens_of(s) == Ok::<Seq<QueryToken>, Fault>(tokens));
        assert(tokens.len() == 1 && tokens[0] == blank);
        reveal_with_fuel(fold_from, 2);
    }
}

/// A quote that is opened where a token begins and is never closed makes the
/// query a fault, whatever stands before it. `done` are the tokens that stand
/// before `at`.
pub proof fn lemma_unterminated_quote(s: Seq<u8>, done: Seq<QueryToken>, at: int)
    requires
        0 <= at < s.len(),
        tokens_of(s) == followed_by(done, tokens_from(s, at)),
        is_quote(s[at]),
        forall|i: int| at < i < s.len() ==> #[trigger] s[i] != s[at],
    ensures
        parse(s) == Err::<QueryTree, Fault>(
            Fault {
                kind: ParseErrorKind::UnterminatedQuote,
                start: at as usize,
                end: s.len() as usize,
            },
        ),
{
    lemma_run_end_is(s, at + 1, ByteClass::Not(s[at]), s.len() as int);
}

/// The same where the quote opens the value of a field term that begins at
/// `at`.
pub proof fn lemma_unterminated_value(s: Seq<u8>, done: Seq<QueryToken>, at: int, colon: int)
    requires
        0 <= at < colon,
        colon + 1 < s.len(),
        tokens_of(s) == followed_by(done, tokens_from(s, at)),
        forall|i: int| at <= i < colon ==> is_word_byte(#[trigger] s[i]),
        s[colon] == COLON,
        is_quote(s[colon + 1]),
        forall|i: int| colon + 1 < i < s.len() ==> #[trigger] s[i] != s[colon + 1],
    ensures
        parse(s) == Err::<QueryTree, Fault>(
            Fault {
                kind: ParseErrorKind::UnterminatedQuote,
                start: (colon + 1) as usize,
                end: s.len() as usize,
            },
        ),
{
    lemma_run_end_is(s, at, ByteClass::Word, colon);
    lemma_run_end_is(s, colon + 2, ByteClass::Not(s[colon + 1]), s.len() as int);
    assert(is_word_byte(s[at]));
}

/// The name of a field is made of three to eight small letters.
pub proof fn lemma_name(tag: XapianTag)
    ensures
        3 <= tag.name().len() <= 8,
        forall|i: int| 0 <= i < tag.name().len() ==> 0x61 <= #[trigger] tag.name()[i] <= 0x7a,
{
    assert forall|i: int| 0 <= i < tag.name().len() implies 0x61 <= #[trigger] tag.name()[i]
        <= 0x7a by {
        assert(i == 0 || i == 1 || i == 2 || i == 3 || i == 4 || i == 5 || i == 6 || i == 7);
    }
}

/// The name of a field names that field and no other.
pub proof fn lemma_named_own_name(tag: XapianTag)
    ensures
        XapianTag::named(tag.name(), 0) == Some(tag),
{
    reveal_with_fuel(XapianTag::named, 8);
    let name = tag.name();
    assert(agree(name, 0, name, name.len() as int, true));
    assert(!same_byte(name[0int + 0], XapianTag::Filename.name()[0], true) || !same_byte(
        name[0int + 1],
        XapianTag::Filename.name()[1],
        true,
    ) || tag == XapianTag::Filename);
    assert(!same_byte(name[0int + 0], XapianTag::Fullpath.name()[0], true) || !same_byte(
        name[0int + 1],
        XapianTag::Fullpath.name()[1],
        true,
    ) || tag == XapianTag::Fullpath);
}

/// What is typed as the name of a field, a colon and a word is read as that
/// word scoped to that field, so it is looked for under the prefix under
/// which the field is indexed.
pub proof fn lemma_field_term(tag: XapianTag, value: Seq<u8>)
    requires
        0 < value.len(),
        tag.name().len() + 1 + value.len() <= usize::MAX,
        forall|i: int| 0 <= i < value.len() ==> is_word_byte(#[trigger] value[i]),
    ensures
        parse(tag.name().push(COLON) + value) == Ok::<QueryTree, Fault>(
            QueryTree::Leaf { field: Some(tag), text: value },
        ),
{
    let name = tag.name();
    let n = name.len() as int;
    let s = name.push(COLON) + value;
    let len = s.len() as int;
    lemma_name(tag);
    lemma_named_own_name(tag);
    assert forall|i: int| 0 <= i < n implies is_word_byte(#[trigger] s[i]) by {
        assert(s[i] == name[i]);
    }
    assert(s[n] == COLON);
    assert forall|i: int| n + 1 <= i < len implies is_word_byte(#[trigger] s[i]) by {
        assert(s[i] == value[i - n - 1]);
    }
    lemma_run_end_is(s, 0, ByteClass::Word, n);
    lemma_run_end_is(s, n + 1, ByteClass::Word, len);
    let term = QueryToken {
        kind: TokenKind::FieldTerm { colon: n as usize },
        start: 0,
        end: len as usize,
    };
    assert(is_word_byte(s[0]) && is_word_byte(s[n + 1]));
    assert(token_at(s, 0) == Ok::<QueryToken, Fault>(term));
    assert(tokens_from(s, len) == Ok::<Seq<QueryToken>, Fault>(Seq::empty()));
    let tokens = seq![term] + Seq::<QueryToken>::empty();
    assert(tokens_of(s) == Ok::<Seq<QueryToken>, Fault>(tokens));
    assert(tokens.len() == 1 && tokens[0] == term);
    assert(s.subrange(0, n) =~= name);
    assert(s.subrange(n + 1, len) =~= value);
    reveal_with_fuel(fold_from, 2);
}

/// What is typed as the name of a field, a colon and a phrase between two
/// quotes of one kind is read as that phrase, with its quotes, scoped to that
/// field. The phrase may hold any byte but its quote.
pub proof fn lemma_field_phrase(tag: XapianTag, quote: u8, content: Seq<u8>)
    requires
        is_quote(quote),
        tag.name().len() + 3 + content.len() <= usize::MAX,
        forall|i: int| 0 <= i < content.len() ==> #[trigger] content[i] != quote,
    ensures
        parse(tag.name().push(COLON) + seq![quote] + content + seq![quote]) == Ok::<
            QueryTree,
            Fault,
        >(QueryTree::Leaf { field: Some(tag), text: seq![quote] + content + seq![quote] }),
{
    let name = tag.name();
    let n = name.len() as int;
    let s = name.push(COLON) + seq![quote] + content + seq![quote];
    let len = s.len() as int;
    lemma_name(tag);
    lemma_named_own_name(tag);
    assert forall|i: int| 0 <= i < n implies is_word_byte(#[trigger] s[i]) by {
        assert(s[i] == name[i]);
    }
    assert(s[n] == COLON);
    assert(s[n + 1] == quote);
    assert(s[len - 1] == quote);
    assert forall|i: int| n + 2 <= i < len - 1 implies ByteClass::Not(quote).holds(
        #[trigger] s[i],
    ) by {
        assert(s[i] == content[i - n - 2]);
    }
    lemma_run_end_is(s, 0, ByteClass::Word, n);
    lemma_run_end_is(s, n + 2, ByteClass::Not(quote), len - 1);
    let term = QueryToken {
        kind: TokenKind::FieldTerm { colon: n as usize },
        start: 0,
        end: len as usize,
    };
    assert(is_word_byte(s[0]));
    assert(token_at(s, 0) == Ok::<QueryToken, Fault>(term));
    assert(tokens_from(s, len) == Ok::<Seq<QueryToken>, Fault>(Seq::empty()));
    let tokens = seq![term] + Seq::<QueryToken>::empty();
    assert(tokens_of(s) == Ok::<Seq<QueryToken>, Fault>(tokens));
    assert(tokens.len() == 1 && tokens[0] == term);
    assert(s.subrange(0, n) =~= name);
    assert(s.subrange(n + 1, len) =~= seq![quote] + content + seq![quote]);
    reveal_with_fuel(fold_from, 2);
}

/// The case of its letters does not change which field a name names.
pub proof fn lemma_named_ignores_case(a: Seq<u8>, b: Seq<u8>, rank: int)
    requires
        0 <= rank,
        a.len() == b.len(),
        forall|i: int| 0 <= i < a.len() ==> lower(#[trigger] a[i]) == lower(b[i]),
    ensures
        XapianTag::named(a, rank) == XapianTag::named(b, rank),
    decreases FIELD_COUNT - rank,
{
    if rank < FIELD_COUNT {
        let name = XapianTag::of_rank(rank).name();
        let n = name.len() as int;
        if a.len() == n {
            if agree(a, 0, name, n, true) {
                assert forall|i: int| 0 <= i < n implies same_byte(
                    #[trigger] b[0 + i],
                    name[i],
                    true,
                ) by {
                    assert(same_byte(a[0 + i], name[i], true));
                    assert(lower(a[i]) == lower(b[i]));
                }
            }
            if agree(b, 0, name, n, true) {
                assert forall|i: int| 0 <= i < n implies same_byte(
                    #[trigger] a[0 + i],
                    name[i],
                    true,
                ) by {
                    assert(same_byte(b[0 + i], name[i], true));
                    assert(lower(a[i]) == lower(b[i]));
                }
            }
        }
        lemma_named_ignores_case(a, b, rank + 1);
    }
}

/// Every field of a note is indexed under the prefix to which the name of the
/// field scopes a term of a query: the title of a note is found by a term
/// typed as `title:` and a word of the title, and so for the other fields.
pub proof fn lemma_indexed_as_searched(
    note: TikaDocument,
    date: Seq<char>,
    tag: XapianTag,
    value: Seq<u8>,
)
    requires
        0 < value.len(),
        tag.name().len() + 1 + value.len() <= usize::MAX,
        forall|i: int| 0 <= i < value.len() ==> is_word_byte(#[trigger] value[i]),
    ensures
        parse(tag.name().push(COLON) + value) matches Ok(QueryTree::Leaf { field: Some(asked), .. })
            && asked == tag,
        note.terms(date)[0] == (Some(XapianTag::Author), note.author@),
        note.terms(date)[1] == (Some(XapianTag::Date), date),
        note.terms(date)[2] == (Some(XapianTag::Filename), note.filename@),
        note.terms(date)[3] == (Some(XapianTag::Fullpath), note.full_path@),
        note.terms(date)[4] == (Some(XapianTag::Title), note.title@),
        note.terms(date)[5] == (Some(XapianTag::Subtitle), note.subtitle@),
        forall|k: int|
            0 <= k < note.tags@.len() ==> #[trigger] note.terms(date)[6 + k] == (
                Some(XapianTag::Tag),
                note.tags@[k]@,
            ),
        note.terms(date).len() == 7 + note.tags@.len(),
        note.terms(date).last() == (None::<XapianTag>, note.body@),
{
    lemma_field_term(tag, value);
}

/// The query of two words with `AND NOT` between them.
pub open spec fn and_not_query(a: Seq<u8>, b: Seq<u8>) -> Seq<u8> {
    a.push(0x20u8) + MatchOp::AndNot.keyword() + seq![0x20u8] + b
}

/// Two words with `AND NOT` between them are read as one pair joined by
/// `AND NOT`, never as `AND` and a stray `NOT`. The law leaves out the words
/// that are keywords themselves, which are read as operators.
pub proof fn lemma_and_not_pair(a: Seq<u8>, b: Seq<u8>)
    requires
        0 < a.len(),
        0 < b.len(),
        a.len() + b.len() + 9 <= usize::MAX,
        forall|i: int| 0 <= i < a.len() ==> is_word_byte(#[trigger] a[i]),
        forall|i: int| 0 <= i < b.len() ==> is_word_byte(#[trigger] b[i]),
        operator_at(and_not_query(a, b), 0, 0) is None,
        operator_at(and_not_query(a, b), a.len() as int + 9, 0) is None,
    ensures
        parse(and_not_query(a, b)) == Ok::<QueryTree, Fault>(
            QueryTree::Composite {
                left: Box::new(QueryTree::Leaf { field: None, text: a }),
                op: MatchOp::AndNot,
                right: Box::new(QueryTree::Leaf { field: None, text: b }),
            },
        ),
{
    let keyword = MatchOp::AndNot.keyword();
    let s = and_not_query(a, b);
    let n = a.len() as int;
    let len = s.len() as int;
    assert(keyword.len() == 7);
    assert(len == n + 9 + b.len());
    assert forall|i: int| 0 <= i < n implies is_word_byte(#[trigger] s[i]) by {
        assert(s[i] == a[i]);
    }
    assert(s[n] == 0x20u8);
    assert forall|i: int| 0 <= i < 7 implies #[trigger] s[n + 1 + i] == keyword[i] by {}
    assert(s[n + 8] == 0x20u8);
    assert forall|i: int| n + 9 <= i < len implies is_word_byte(#[trigger] s[i]) by {
        assert(s[i] == b[i - n - 9]);
    }
    // The five tokens, one after the other.
    let first = QueryToken { kind: TokenKind::Word, start: 0, end: n as usize };
    let gap = QueryToken { kind: TokenKind::Whitespace, start: n as usize, end: (n + 1) as usize };
    let op = QueryToken {
        kind: TokenKind::Operator(MatchOp::AndNot),
        start: (n + 1) as usize,
        end: (n + 8) as usize,
    };
    let gap2 = QueryToken {
        kind: TokenKind::Whitespace,
        start: (n + 8) as usize,
        end: (n + 9) as usize,
    };
    let second = QueryToken { kind: TokenKind::Word, start: (n + 9) as usize, end: len as usize };
    assert(token_at(s, 0) == Ok::<QueryToken, Fault>(first)) by {
        lemma_run_end_is(s, 0, ByteClass::Word, n);
        assert(is_word_byte(s[0]));
    }
    assert(token_at(s, n) == Ok::<QueryToken, Fault>(gap)) by {
        lemma_run_end_is(s, n, ByteClass::Word, n);
        lemma_run_end_is(s, n, ByteClass::Space, n + 1);
        lemma_keywords_begin(s[n]);
        lemma_no_operator(s, n, 0);
        assert(is_word_byte(s[n + 1 + 0]));
    }
    assert(token_at(s, n + 1) == Ok::<QueryToken, Fault>(op)) by {
        assert(is_word_byte(s[n + 1 + 0]) && is_word_byte(s[n + 1 + 1]) && is_word_byte(
            s[n + 1 + 2],
        ));
        assert(s[n + 1 + 3] == 0x20u8);
        lemma_run_end_is(s, n + 1, ByteClass::Word, n + 4);
        assert(begins(s, n + 1, keyword, true));
        assert(stands(s, n + 1, MatchOp::AndNot));
        lemma_first_operator(s, n + 1, 0, MatchOp::AndNot);
    }
    assert(token_at(s, n + 8) == Ok::<QueryToken, Fault>(gap2)) by {
        lemma_run_end_is(s, n + 8, ByteClass::Word, n + 8);
        lemma_run_end_is(s, n + 8, ByteClass::Space, n + 9);
        lemma_keywords_begin(s[n + 8]);
        lemma_no_operator(s, n + 8, 0);
        assert(is_word_byte(s[n + 9]));
    }
    assert(token_at(s, n + 9) == Ok::<QueryToken, Fault>(second)) by {
        lemma_run_end_is(s, n + 9, ByteClass::Word, len);
        assert(is_word_byte(s[n + 9]));
    }
    let none = Seq::<QueryToken>::empty();
    assert(tokens_from(s, len) == Ok::<Seq<QueryToken>, Fault>(none));
    assert(tokens_from(s, n + 9) == Ok::<Seq<QueryToken>, Fault>(seq![second] + none));
    assert(tokens_from(s, n + 8) == Ok::<Seq<QueryToken>, Fault>(
        seq![gap2] + (seq![second] + none),
    ));
    assert(tokens_from(s, n + 1) == Ok::<Seq<QueryToken>, Fault>(
        seq![op] + (seq![gap2] + (seq![second] + none)),
    ));
    assert(tokens_from(s, n) == Ok::<Seq<QueryToken>, Fault>(
        seq![gap] + (seq![op] + (seq![gap2] + (seq![second] + none))),
    ));
    let tokens = seq![first] + (seq![gap] + (seq![op] + (seq![gap2] + (seq![second] + none))));
    assert(tokens_of(s) == Ok::<Seq<QueryToken>, Fault>(tokens));
    assert(tokens.len() == 5);
    assert(tokens[0] == first && tokens[1] == gap && tokens[2] == op && tokens[3] == gap2
        && tokens[4] == second);
    assert(s.subrange(0, n) =~= a);
    assert(s.subrange(n + 9, len) =~= b);
    reveal_with_fuel(fold_from, 6);
}

/// A query that cannot be read does no harm to the search loop: where a
/// typed character or a backspace leaves a query with a fault, the fault is
/// reported, no search is asked for, and the query, the results, the
/// selection and the loop all stay.
pub proof fn lemma_fault_is_reported(
    app: TerminalApp,
    event: Event<Key>,
    next: TerminalApp,
    action: Action,
)
    requires
        app.mode == LoopState::Editing,
        command_of(event) is Insert || command_of(event) is Delete,
        app.step(event, next, action),
        parse(encode_utf8(next.input@)) is Err,
    ensures
        action matches Action::Report(error) && error.reports(
            encode_utf8(next.input@),
            parse(encode_utf8(next.input@))->Err_0,
        ),
        command_of(event) matches Command::Insert(c) ==> next.input@ == app.input@.push(c),
        next.matches == app.matches,
        next.state == app.state,
        next.mode == LoopState::Editing,
{
}

/// Moving the selection goes round and never asks for a search: down from
/// the last match selects the first, up from the first selects the last, and
/// the query and the matches stay.
pub proof fn lemma_navigation_wraps(
    app: TerminalApp,
    event: Event<Key>,
    next: TerminalApp,
    action: Action,
)
    requires
        app.mode == LoopState::Editing,
        0 < app.matches@.len() <= usize::MAX,
        app.step(event, next, action),
        command_of(event) is Next || command_of(event) is Previous,
    ensures
        action is Idle,
        next.input == app.input,
        next.matches == app.matches,
        command_of(event) is Next && app.state.selected == Some(
            (app.matches@.len() - 1) as usize,
        ) ==> next.state.selected == Some(0usize),
        command_of(event) is Previous && app.state.selected == Some(0usize)
            ==> next.state.selected == Some((app.matches@.len() - 1) as usize),
{
}

/// A word is never split: a query of one run of letters, digits and
/// underscores is read as that one word, unless the whole of it is the
/// keyword of an operator.
pub proof fn lemma_word_stays_whole(w: Seq<u8>)
    requires
        0 < w.len() <= usize::MAX,
        forall|i: int| 0 <= i < w.len() ==> is_word_byte(#[trigger] w[i]),
    ensures
        match operator_at(w, 0, 0) {
            Some(op) => op.keyword().len() == w.len() && stands(w, 0, op),
            None => parse(w) == Ok::<QueryTree, Fault>(QueryTree::Leaf { field: None, text: w }),
        },
{
    let len = w.len() as int;
    lemma_operator_at(w, 0, 0);
    match operator_at(w, 0, 0) {
        Some(op) => {
            lemma_keyword_len(op);
            let keyword = op.keyword();
            lemma_agree_at(w, 0, keyword, 0);
            if keyword.len() > 3 {
                lemma_agree_at(w, 0, keyword, 3);
            }
            if keyword.len() < len {
                assert(is_word_byte(w[keyword.len() as int]));
            }
        },
        None => {
            lemma_run_end_is(w, 0, ByteClass::Word, len);
            let word = QueryToken { kind: TokenKind::Word, start: 0, end: len as usize };
            assert(is_word_byte(w[0]));
            assert(token_at(w, 0) == Ok::<QueryToken, Fault>(word));
            assert(tokens_from(w, len) == Ok::<Seq<QueryToken>, Fault>(Seq::empty()));
            let tokens = seq![word] + Seq::<QueryToken>::empty();
            assert(tokens_of(w) == Ok::<Seq<QueryToken>, Fault>(tokens));
            assert(tokens.len() == 1 && tokens[0] == word);
            assert(w.subrange(0, len) =~= w);
            reveal_with_fuel(fold_from, 2);
        },
    }
}

/// What stands from a byte that no token begins with is dropped: where such
/// a byte is met after the tokens `done`, these are all the tokens of the
/// query, and the query is read as they alone are.
pub proof fn lemma_rest_is_dropped(s: Seq<u8>, done: Seq<QueryToken>, at: int)
    requires
        0 <= at < s.len(),
        tokens_of(s) == followed_by(done, tokens_from(s, at)),
        is_stray_byte(s[at]),
    ensures
        tokens_of(s) == Ok::<Seq<QueryToken>, Fault>(done),
        parse(s) == fold(s, done),
{
    assert(done + Seq::<QueryToken>::empty() =~= done);
}

} // verus!
