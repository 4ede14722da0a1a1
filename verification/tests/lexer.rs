use tika::lexer::{expression, next_token, Fault, ParseErrorKind, QueryToken, TokenKind};
use tika::operator::MatchOp;

fn tok(kind: TokenKind, start: usize, end: usize) -> QueryToken {
    QueryToken { kind, start, end }
}

fn lex(text: &str) -> Result<Vec<QueryToken>, Fault> {
    expression(text.as_bytes())
}

fn fault(kind: ParseErrorKind, start: usize, end: usize) -> Fault {
    Fault { kind, start, end }
}

#[test]
fn an_empty_query_has_no_tokens() {
    assert_eq!(lex(""), Ok(vec![]));
}

#[test]
fn a_word_at_the_end_is_a_word() {
    assert_eq!(lex("foo"), Ok(vec![tok(TokenKind::Word, 0, 3)]));
}

#[test]
fn and_not_is_one_operator() {
    assert_eq!(
        lex("foo AND NOT bar"),
        Ok(vec![
            tok(TokenKind::Word, 0, 3),
            tok(TokenKind::Whitespace, 3, 4),
            tok(TokenKind::Operator(MatchOp::AndNot), 4, 11),
            tok(TokenKind::Whitespace, 11, 12),
            tok(TokenKind::Word, 12, 15),
        ])
    );
}

#[test]
fn and_maybe_is_one_operator() {
    assert_eq!(
        lex("a and maybe b"),
        Ok(vec![
            tok(TokenKind::Word, 0, 1),
            tok(TokenKind::Whitespace, 1, 2),
            tok(TokenKind::Operator(MatchOp::AndMaybe), 2, 11),
            tok(TokenKind::Whitespace, 11, 12),
            tok(TokenKind::Word, 12, 13),
        ])
    );
}

#[test]
fn kinds_are_tried_in_their_order() {
    // A field term before an operator, an operator before a word.
    assert_eq!(lex("or:x"), Ok(vec![tok(TokenKind::FieldTerm { colon: 2 }, 0, 4)]));
    assert_eq!(lex("or"), Ok(vec![tok(TokenKind::Operator(MatchOp::Or), 0, 2)]));
    assert_eq!(lex("order"), Ok(vec![tok(TokenKind::Word, 0, 5)]));
    assert_eq!(lex("border"), Ok(vec![tok(TokenKind::Word, 0, 6)]));
    assert_eq!(lex("android"), Ok(vec![tok(TokenKind::Word, 0, 7)]));
    assert_eq!(
        lex("and nothing"),
        Ok(vec![
            tok(TokenKind::Operator(MatchOp::And), 0, 3),
            tok(TokenKind::Whitespace, 3, 4),
            tok(TokenKind::Word, 4, 11),
        ])
    );
    assert_eq!(lex("'or'"), Ok(vec![tok(TokenKind::Phrase, 0, 4)]));
}

#[test]
fn a_phrase_keeps_its_quotes_and_its_content() {
    assert_eq!(
        lex(r#""hee hee" 'a "b" c'"#),
        Ok(vec![
            tok(TokenKind::Phrase, 0, 9),
            tok(TokenKind::Whitespace, 9, 10),
            tok(TokenKind::Phrase, 10, 19),
        ])
    );
    assert_eq!(lex(r#""""#), Ok(vec![tok(TokenKind::Phrase, 0, 2)]));
    assert_eq!(lex("\"caf\u{e9} - x\""), Ok(vec![tok(TokenKind::Phrase, 0, 11)]));
}

#[test]
fn a_field_term_has_a_word_or_a_phrase_as_its_value() {
    assert_eq!(lex("title:foo"), Ok(vec![tok(TokenKind::FieldTerm { colon: 5 }, 0, 9)]));
    assert_eq!(
        lex("author:\"bob alice\" x"),
        Ok(vec![
            tok(TokenKind::FieldTerm { colon: 6 }, 0, 18),
            tok(TokenKind::Whitespace, 18, 19),
            tok(TokenKind::Word, 19, 20),
        ])
    );
    assert_eq!(lex("foo:bar"), Ok(vec![tok(TokenKind::FieldTerm { colon: 3 }, 0, 7)]));
    assert_eq!(lex("a:''"), Ok(vec![tok(TokenKind::FieldTerm { colon: 1 }, 0, 4)]));
}

#[test]
fn white_space_of_all_kinds_is_one_token() {
    assert_eq!(
        lex("a \t\r\n b"),
        Ok(vec![
            tok(TokenKind::Word, 0, 1),
            tok(TokenKind::Whitespace, 1, 6),
            tok(TokenKind::Word, 6, 7),
        ])
    );
}

#[test]
fn the_value_operators_are_single_bytes() {
    assert_eq!(
        lex("a>b<c"),
        Ok(vec![
            tok(TokenKind::Word, 0, 1),
            tok(TokenKind::Operator(MatchOp::ValueGe), 1, 2),
            tok(TokenKind::Word, 2, 3),
            tok(TokenKind::Operator(MatchOp::ValueLe), 3, 4),
            tok(TokenKind::Word, 4, 5),
        ])
    );
}

#[test]
fn an_unterminated_quote_is_a_fault() {
    assert_eq!(lex("\"foo"), Err(fault(ParseErrorKind::UnterminatedQuote, 0, 4)));
    assert_eq!(lex("a 'b c"), Err(fault(ParseErrorKind::UnterminatedQuote, 2, 6)));
    assert_eq!(lex("a 'b\" c"), Err(fault(ParseErrorKind::UnterminatedQuote, 2, 7)));
    assert_eq!(lex("title:\"foo"), Err(fault(ParseErrorKind::UnterminatedQuote, 6, 10)));
    assert_eq!(lex("\""), Err(fault(ParseErrorKind::UnterminatedQuote, 0, 1)));
}

#[test]
fn a_field_without_name_or_value_is_a_fault() {
    assert_eq!(lex("title:"), Err(fault(ParseErrorKind::MalformedField, 0, 6)));
    assert_eq!(lex("title: foo"), Err(fault(ParseErrorKind::MalformedField, 0, 6)));
    assert_eq!(lex("a title:-"), Err(fault(ParseErrorKind::MalformedField, 2, 8)));
    assert_eq!(lex(":foo"), Err(fault(ParseErrorKind::MalformedField, 0, 1)));
    assert_eq!(lex("a:b:c"), Err(fault(ParseErrorKind::MalformedField, 3, 4)));
}

#[test]
fn reading_ends_at_a_byte_that_begins_no_token() {
    assert_eq!(lex("wi-fi"), Ok(vec![tok(TokenKind::Word, 0, 2)]));
    assert_eq!(
        lex("a b\\ c"),
        Ok(vec![
            tok(TokenKind::Word, 0, 1),
            tok(TokenKind::Whitespace, 1, 2),
            tok(TokenKind::Word, 2, 3),
        ])
    );
    assert_eq!(lex("caf\u{e9} x"), Ok(vec![tok(TokenKind::Word, 0, 3)]));
    assert_eq!(lex("*"), Ok(vec![]));
    assert_eq!(lex("a - 'b"), Ok(vec![tok(TokenKind::Word, 0, 1), tok(TokenKind::Whitespace, 1, 2)]));
    assert_eq!(
        lex("a>b"),
        Ok(vec![
            tok(TokenKind::Word, 0, 1),
            tok(TokenKind::Operator(MatchOp::ValueGe), 1, 2),
            tok(TokenKind::Word, 2, 3),
        ])
    );
}

#[test]
fn the_lexer_takes_a_keyword_as_a_word_of_its_own() {
    assert_eq!(lex("ANDROID"), Ok(vec![tok(TokenKind::Word, 0, 7)]));
    assert_eq!(lex("or_"), Ok(vec![tok(TokenKind::Word, 0, 3)]));
    assert_eq!(lex("near2"), Ok(vec![tok(TokenKind::Word, 0, 5)]));
    assert_eq!(lex("or-"), Ok(vec![tok(TokenKind::Operator(MatchOp::Or), 0, 2)]));
    assert_eq!(
        lex("AND NOTx"),
        Ok(vec![
            tok(TokenKind::Operator(MatchOp::And), 0, 3),
            tok(TokenKind::Whitespace, 3, 4),
            tok(TokenKind::Word, 4, 8),
        ])
    );
    assert_eq!(
        lex(">5<a"),
        Ok(vec![
            tok(TokenKind::Operator(MatchOp::ValueGe), 0, 1),
            tok(TokenKind::Word, 1, 2),
            tok(TokenKind::Operator(MatchOp::ValueLe), 2, 3),
            tok(TokenKind::Word, 3, 4),
        ])
    );
}

#[test]
fn tokens_lie_end_to_end() {
    // Each text with the offset at which its reading ends, where that is not
    // the end of the text.
    let texts = [
        ("title:foo  baz bar author:bob hee tag:rust \"hee hee hee\" ", None),
        ("eep op tag:meh fooobarr AND maybe maybe foo AND bar\n", None),
        ("a OR b XOR c FILTER d NEAR e PHRASE f RANGE g SCALED h ELITE i SYNONYM j", None),
        (" \t leading and trailing \n ", None),
        ("one two + three", Some(8)),
        ("(nothing)", Some(0)),
    ];
    for (text, end) in texts {
        let tokens = lex(text).unwrap();
        let mut at = 0;
        for token in &tokens {
            assert_eq!(token.start, at, "{}", text);
            assert!(token.start < token.end, "{}", text);
            at = token.end;
        }
        assert_eq!(at, end.unwrap_or(text.len()), "{}", text);
    }
}

#[test]
fn next_token_reads_one_token_anywhere() {
    let text = "for AND 'x y' title:z".as_bytes();
    assert_eq!(next_token(text, 0), Ok(tok(TokenKind::Word, 0, 3)));
    assert_eq!(next_token(text, 1), Ok(tok(TokenKind::Operator(MatchOp::Or), 1, 3)));
    assert_eq!(next_token(text, 2), Ok(tok(TokenKind::Word, 2, 3)));
    assert_eq!(next_token(text, 5), Ok(tok(TokenKind::Word, 5, 7)));
    assert_eq!(next_token(text, 3), Ok(tok(TokenKind::Whitespace, 3, 4)));
    assert_eq!(next_token(text, 4), Ok(tok(TokenKind::Operator(MatchOp::And), 4, 7)));
    assert_eq!(next_token(text, 8), Ok(tok(TokenKind::Phrase, 8, 13)));
    assert_eq!(next_token(text, 14), Ok(tok(TokenKind::FieldTerm { colon: 19 }, 14, 21)));
    assert_eq!(next_token(text, 12), Err(fault(ParseErrorKind::UnterminatedQuote, 12, 21)));
}

#[test]
fn a_token_gives_its_parts() {
    let text = "AND title:'a b' word".as_bytes();
    let tokens = expression(text).unwrap();
    assert_eq!(tokens.len(), 5);
    assert_eq!(tokens[0].text(text), "AND".as_bytes());
    assert_eq!(tokens[0].field(text), "".as_bytes());
    assert_eq!(tokens[0].value(text), "AND".as_bytes());
    assert_eq!(tokens[2].text(text), "title:'a b'".as_bytes());
    assert_eq!(tokens[2].field(text), "title".as_bytes());
    assert_eq!(tokens[2].value(text), "'a b'".as_bytes());
    assert_eq!(tokens[4].text(text), "word".as_bytes());
    assert_eq!(tokens[4].field(text), "".as_bytes());
    assert_eq!(tokens[4].value(text), "word".as_bytes());
}
