// The recognisers of the library held against the same grammar written with
// the complete combinators of `nom`, on every text of a few bytes
// over a small alphabet.

use nom::branch::alt;
use nom::bytes::complete::{tag, tag_no_case};
use nom::character::complete::{alphanumeric1, multispace0, multispace1};
use nom::combinator::{recognize, value};
use nom::multi::many1;
use nom::sequence::{delimited, separated_pair, tuple};
use nom_locate::LocatedSpan;
use tika::field::XapianTag;
use tika::operator::{matchop, MatchOp};
use tika::recognize::{quoted, tagged, word, words};
use tika::span::{IResult, Span};

type Located<'a> = LocatedSpan<&'a str>;
type NomResult<'a, O> = nom::IResult<Located<'a>, O>;

fn nom_word(input: Located) -> NomResult<Located> {
    recognize(many1(alt((recognize(alphanumeric1), recognize(tag("_"))))))(input)
}

fn nom_words(input: Located) -> NomResult<Located> {
    recognize(many1(alt((recognize(multispace1), recognize(nom_word)))))(input)
}

fn nom_quoted(input: Located) -> NomResult<Located> {
    recognize(alt((
        delimited(recognize(tag(r#"""#)), recognize(nom_words), recognize(tag(r#"""#))),
        delimited(recognize(tag(r#"'"#)), recognize(nom_words), recognize(tag(r#"'"#))),
    )))(input)
}

fn nom_tagged(input: Located) -> NomResult<Located> {
    recognize(tuple((nom_word, tag(":"), alt((nom_quoted, nom_word)), multispace0)))(input)
}

fn nom_field(input: Located) -> NomResult<(XapianTag, Located)> {
    separated_pair(
        alt((
            value(XapianTag::Filename, tag_no_case("filename")),
            value(XapianTag::Fullpath, tag_no_case("fullpath")),
            value(XapianTag::Subtitle, tag_no_case("subtitle")),
            value(XapianTag::Author, tag_no_case("author")),
            value(XapianTag::Title, tag_no_case("title")),
            value(XapianTag::Date, tag_no_case("date")),
            value(XapianTag::Tag, tag_no_case("tag")),
        )),
        tag(":"),
        alt((nom_quoted, nom_word)),
    )(input)
}

fn nom_matchop(input: &str) -> NomResult<MatchOp> {
    alt((
        value(MatchOp::AndNot, tag_no_case("AND NOT")),
        value(MatchOp::AndMaybe, tag_no_case("AND MAYBE")),
        value(MatchOp::And, tag_no_case("AND")),
        value(MatchOp::Xor, tag_no_case("XOR")),
        value(MatchOp::Or, tag_no_case("OR")),
        value(MatchOp::Filter, tag_no_case("FILTER")),
        value(MatchOp::Near, tag_no_case("NEAR")),
        value(MatchOp::Phrase, tag_no_case("PHRASE")),
        value(MatchOp::ValueRange, tag_no_case("RANGE")),
        value(MatchOp::ScaleWeight, tag_no_case("SCALED")),
        value(MatchOp::EliteSet, tag_no_case("ELITE")),
        value(MatchOp::ValueGe, tag_no_case(">")),
        value(MatchOp::ValueLe, tag_no_case("<")),
        value(MatchOp::Synonym, tag_no_case("SYNONYM")),
    ))(Located::new(input))
}

/// What a recogniser made of a text: where the match and the rest begin and
/// end and on which line and column, or that there is no match.
type Outcome = Result<[usize; 8], ()>;

fn of_nom(text: &str, result: NomResult<Located>) -> Outcome {
    match result {
        Ok((rest, matched)) => Ok([
            matched.location_offset(),
            matched.location_offset() + matched.fragment().len(),
            matched.location_line() as usize,
            matched.get_column(),
            rest.location_offset(),
            text.len(),
            rest.location_line() as usize,
            rest.get_column(),
        ]),
        Err(_) => Err(()),
    }
}

fn of_ours(result: IResult<Span>) -> Outcome {
    match result {
        Ok((rest, matched)) => Ok([
            matched.start,
            matched.end,
            matched.location_line() as usize,
            matched.get_column(),
            rest.start,
            rest.end,
            rest.location_line() as usize,
            rest.get_column(),
        ]),
        Err(_) => Err(()),
    }
}

/// Every text of up to `most` characters of `alphabet`.
fn texts(alphabet: &[char], most: usize) -> Vec<String> {
    let mut all = vec![String::new()];
    let mut last = vec![String::new()];
    for _ in 0..most {
        let mut next = Vec::new();
        for text in &last {
            for c in alphabet {
                let mut longer = text.clone();
                longer.push(*c);
                next.push(longer);
            }
        }
        all.extend(next.iter().cloned());
        last = next;
    }
    all
}

#[test]
fn word_agrees_with_the_combinators() {
    for text in texts(&['a', 'Z', '7', '_', ' ', '\n', ':', '-', '\u{e9}'], 4) {
        assert_eq!(of_ours(word(Span::new(&text))), of_nom(&text, nom_word(Located::new(&text))), "{:?}", text);
    }
}

#[test]
fn words_agree_with_the_combinators() {
    for text in texts(&['a', '_', ' ', '\t', '\r', '\n', ':', '"'], 4) {
        assert_eq!(
            of_ours(words(Span::new(&text))),
            of_nom(&text, nom_words(Located::new(&text))),
            "{:?}",
            text
        );
    }
}

#[test]
fn quoted_agrees_with_the_combinators_on_phrases_of_words() {
    // Between its quotes the library takes every byte, the combinators take
    // words and white space only, and at least one byte.
    for text in texts(&['a', '_', ' ', '\n', '"', '\''], 5) {
        let theirs = of_nom(&text, nom_quoted(Located::new(&text)));
        let ours = of_ours(quoted(Span::new(&text)));
        if theirs.is_ok() {
            assert_eq!(ours, theirs, "{:?}", text);
        }
        if ours.is_err() {
            assert_eq!(ours, theirs, "{:?}", text);
        }
    }
}

#[test]
fn tagged_agrees_with_the_combinators() {
    for text in texts(&['a', 'b', ':', ' ', '\n', '-'], 6) {
        assert_eq!(
            of_ours(tagged(Span::new(&text))),
            of_nom(&text, nom_tagged(Located::new(&text))),
            "{:?}",
            text
        );
    }
}

#[test]
fn tagged_agrees_with_the_combinators_on_quoted_values() {
    for text in texts(&['a', ':', ' ', '\'', 'x'], 6) {
        let theirs = of_nom(&text, nom_tagged(Located::new(&text)));
        let ours = of_ours(tagged(Span::new(&text)));
        if theirs.is_ok() || ours.is_err() {
            assert_eq!(ours, theirs, "{:?}", text);
        }
    }
}

#[test]
fn field_terms_agree_with_the_combinators() {
    let heads = [
        "", "t", "ta", "tag", "TAG", "tags", "title", "Title", "titl", "date", "dat", "author",
        "autho", "filename", "fullpath", "f", "fu", "subtitle", "sub", "x", "tagtitle",
    ];
    let tails = ["", ":", ":a", ":a ", ":ab c", ": a", ":-", " :a ", ":'a b' ", ":\"a\"", ":'a", "a:b "];
    for head in heads {
        for tail in tails {
            let text = format!("{}{}", head, tail);
            let theirs = match nom_field(Located::new(&text)) {
                Ok((rest, (tag, value))) => Ok((
                    tag,
                    value.location_offset(),
                    value.location_offset() + value.fragment().len(),
                    rest.location_offset(),
                )),
                Err(_) => Err(()),
            };
            let ours = match XapianTag::parse(Span::new(&text)) {
                Ok((rest, (tag, value))) => Ok((tag, value.start, value.end, rest.start)),
                Err(_) => Err(()),
            };
            assert_eq!(ours, theirs, "{:?}", text);
        }
    }
}

#[test]
fn operators_agree_with_the_combinators() {
    let mut cases = texts(&['A', 'n', 'D', ' ', 'o', 'T', 'x'], 5);
    for keyword in [
        "AND NOT", "AND MAYBE", "AND", "XOR", "OR", "FILTER", "NEAR", "PHRASE", "RANGE",
        "SCALED", "ELITE", ">", "<", "SYNONYM",
    ] {
        for cut in 0..=keyword.len() {
            cases.push(keyword[..cut].to_string());
            cases.push(keyword[..cut].to_lowercase());
            cases.push(format!("{}x", &keyword[..cut]));
            cases.push(format!("{} ", &keyword[..cut]));
        }
    }
    for text in cases {
        let theirs = match nom_matchop(&text) {
            Ok((rest, op)) => Ok((op, rest.location_offset())),
            Err(_) => Err(()),
        };
        let ours = match matchop(&text) {
            Ok((rest, op)) => Ok((op, rest.start)),
            Err(_) => Err(()),
        };
        assert_eq!(ours, theirs, "{:?}", text);
    }
}
