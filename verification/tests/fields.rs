use tika::field::{match_xtag, XTag, XapianTag};
use tika::span::Stop;

#[test]
fn names_resolve_without_regard_to_case() {
    assert_eq!(XapianTag::from_name("author".as_bytes()), Some(XapianTag::Author));
    assert_eq!(XapianTag::from_name("AUTHOR".as_bytes()), Some(XapianTag::Author));
    assert_eq!(XapianTag::from_name("Date".as_bytes()), Some(XapianTag::Date));
    assert_eq!(XapianTag::from_name("fileName".as_bytes()), Some(XapianTag::Filename));
    assert_eq!(XapianTag::from_name("fullpath".as_bytes()), Some(XapianTag::Fullpath));
    assert_eq!(XapianTag::from_name("title".as_bytes()), Some(XapianTag::Title));
    assert_eq!(XapianTag::from_name("SubTitle".as_bytes()), Some(XapianTag::Subtitle));
    assert_eq!(XapianTag::from_name("tag".as_bytes()), Some(XapianTag::Tag));
}

#[test]
fn other_names_resolve_to_nothing() {
    for name in ["", "ta", "tags", "foo", "titles", "autho", "tag ", "t\u{e4}g"] {
        assert_eq!(XapianTag::from_name(name.as_bytes()), None, "{}", name);
    }
}

#[test]
fn names_and_prefixes_of_the_fields() {
    let fields = [
        (XapianTag::Filename, "filename", "F"),
        (XapianTag::Fullpath, "fullpath", "F"),
        (XapianTag::Subtitle, "subtitle", "XS"),
        (XapianTag::Author, "author", "A"),
        (XapianTag::Title, "title", "S"),
        (XapianTag::Date, "date", "D"),
        (XapianTag::Tag, "tag", "K"),
    ];
    for (rank, (tag, name, prefix)) in fields.iter().enumerate() {
        assert_eq!(XapianTag::ranked(rank), *tag);
        assert_eq!(tag.name_bytes(), name.as_bytes());
        assert_eq!(tag.to_xapian(), *prefix);
    }
}

#[test]
fn markers_name_the_same_fields() {
    let fields = [
        (XTag::Author, XapianTag::Author, "author:"),
        (XTag::Date, XapianTag::Date, "date:"),
        (XTag::Filename, XapianTag::Filename, "filename:"),
        (XTag::Fullpath, XapianTag::Fullpath, "fullpath:"),
        (XTag::Title, XapianTag::Title, "title:"),
        (XTag::Subtitle, XapianTag::Subtitle, "subtitle:"),
        (XTag::Tag, XapianTag::Tag, "tag:"),
    ];
    for (rank, (xtag, tag, marker)) in fields.iter().enumerate() {
        assert_eq!(XTag::ranked(rank), *xtag);
        assert_eq!(xtag.to_tag(), *tag);
        assert_eq!(xtag.to_xapian(), tag.to_xapian().as_bytes());
        let (rest, found) = match_xtag(marker).unwrap();
        assert_eq!(found, *xtag);
        assert_eq!(rest.location_offset(), marker.len());
        assert_eq!(rest.fragment().len(), 0);
    }
}

#[test]
fn a_marker_is_a_name_in_any_case_and_a_colon() {
    let (rest, found) = match_xtag("title:foo bar").unwrap();
    assert_eq!(found, XTag::Title);
    assert_eq!(rest.fragment(), "foo bar".as_bytes());
    let (rest, found) = match_xtag("Title:foo").unwrap();
    assert_eq!(found, XTag::Title);
    assert_eq!(rest.fragment(), "foo".as_bytes());
    assert_eq!(match_xtag("AUTHOR:").unwrap().1, XTag::Author);
    assert_eq!(match_xtag("title").unwrap_err(), Stop::Mismatch);
    assert_eq!(match_xtag("title foo").unwrap_err(), Stop::Mismatch);
    assert_eq!(match_xtag("titl").unwrap_err(), Stop::Mismatch);
    assert_eq!(match_xtag("").unwrap_err(), Stop::Mismatch);
    assert_eq!(match_xtag("foo:bar").unwrap_err(), Stop::Mismatch);
}

#[test]
fn fields_are_shown_between_angle_brackets() {
    assert_eq!(XapianTag::Author.to_string(), "<A>");
    assert_eq!(XapianTag::Date.to_string(), "<D>");
    assert_eq!(XapianTag::Filename.to_string(), "<F>");
    assert_eq!(XapianTag::Fullpath.to_string(), "<F>");
    assert_eq!(XapianTag::Title.to_string(), "<S>");
    assert_eq!(XapianTag::Subtitle.to_string(), "<XS>");
    assert_eq!(XapianTag::Tag.to_string(), "<K>");
}
