use tika::document::TikaDocument;
use tika::field::XapianTag;
use tika::lexer::ParseErrorKind;
use tika::operator::MatchOp;
use tika::query::{ParseError, QueryNode};
use tika::tui_app::{command, Action, Command, Key, LoopState, TerminalApp, PAGE_SIZE};
use tika::util::Event;

fn note(name: &str) -> TikaDocument {
    TikaDocument {
        filename: format!("{}.md", name),
        full_path: format!("/notes/{}.md", name),
        author: String::new(),
        date: "2021-06-22T12:48:16-04:00".to_string(),
        tags: vec![],
        title: name.to_string(),
        subtitle: String::new(),
        body: String::new(),
    }
}

fn notes(count: usize) -> Vec<TikaDocument> {
    (0..count).map(|i| note(&format!("n{}", i))).collect()
}

fn key(key: Key) -> Event<Key> {
    Event::Input(key)
}

fn type_text(app: &mut TerminalApp, text: &str) -> Option<Action> {
    let mut last = None;
    for c in text.chars() {
        last = Some(app.handle(key(Key::Char(c))));
    }
    last
}

fn word(text: &str) -> QueryNode {
    QueryNode::Leaf { field: None, text: text.as_bytes().to_vec() }
}

#[test]
fn the_loop_begins_empty() {
    let app = TerminalApp::default();
    assert_eq!(app.input, "");
    assert!(app.matches.is_empty());
    assert_eq!(app.state.selected(), None);
    assert_eq!(app.mode, LoopState::Editing);
    assert_eq!(app.get_selected(), Vec::<String>::new());
}

#[test]
fn keys_are_read_as_commands() {
    assert_eq!(command(key(Key::Char('a'))), Command::Insert('a'));
    assert_eq!(command(key(Key::Char(' '))), Command::Insert(' '));
    assert_eq!(command(key(Key::Char('\n'))), Command::Accept);
    assert_eq!(command(key(Key::Ctrl('c'))), Command::Cancel);
    assert_eq!(command(key(Key::Ctrl('d'))), Command::Ignore);
    assert_eq!(command(key(Key::Backspace)), Command::Delete);
    assert_eq!(command(key(Key::Down)), Command::Next);
    assert_eq!(command(key(Key::Up)), Command::Previous);
    assert_eq!(command(key(Key::Other)), Command::Ignore);
    assert_eq!(command(Event::Tick), Command::Ignore);
}

#[test]
fn every_typed_character_asks_for_a_search() {
    let mut app = TerminalApp::default();
    assert_eq!(app.handle(key(Key::Char('f'))), Action::Search(word("f")));
    assert_eq!(app.handle(key(Key::Char('o'))), Action::Search(word("fo")));
    assert_eq!(app.input, "fo");
    assert_eq!(app.handle(key(Key::Backspace)), Action::Search(word("f")));
    assert_eq!(app.input, "f");
    assert_eq!(app.handle(key(Key::Backspace)), Action::Search(QueryNode::match_all()));
    assert_eq!(app.handle(key(Key::Backspace)), Action::Search(QueryNode::match_all()));
    assert_eq!(app.input, "");
}

#[test]
fn characters_of_more_than_one_byte_are_typed_and_taken_away_whole() {
    let mut app = TerminalApp::default();
    type_text(&mut app, "'\u{e9}");
    assert_eq!(app.input, "'\u{e9}");
    assert_eq!(
        app.handle(key(Key::Char('\''))),
        Action::Search(word("'\u{e9}'"))
    );
    app.handle(key(Key::Backspace));
    app.handle(key(Key::Backspace));
    assert_eq!(app.input, "'");
}

#[test]
fn a_query_that_cannot_be_read_is_reported_and_the_buffer_stays() {
    let mut app = TerminalApp::default();
    app.show_results(notes(3));
    app.handle(key(Key::Down));
    let action = type_text(&mut app, "title:\"foo").unwrap();
    assert_eq!(
        action,
        Action::Report(ParseError {
            kind: ParseErrorKind::UnterminatedQuote,
            fragment: "\"foo".as_bytes().to_vec(),
            offset: 6,
            line: 1,
            column: 7,
        })
    );
    assert_eq!(app.input, "title:\"foo");
    assert_eq!(app.matches, notes(3));
    assert_eq!(app.state.selected(), Some(0));
    assert_eq!(app.mode, LoopState::Editing);
    assert_eq!(
        app.handle(key(Key::Char('"'))),
        Action::Search(QueryNode::Leaf {
            field: Some(XapianTag::Title),
            text: "\"foo\"".as_bytes().to_vec()
        })
    );
}

#[test]
fn the_query_is_read_as_typed() {
    let mut app = TerminalApp::default();
    let action = type_text(&mut app, "foo AND NOT bar").unwrap();
    assert_eq!(
        action,
        Action::Search(QueryNode::Composite {
            left: Box::new(word("foo")),
            op: MatchOp::AndNot,
            right: Box::new(word("bar")),
        })
    );
    assert_eq!(app.query(), action);
}

#[test]
fn down_past_the_last_selects_the_first() {
    let mut app = TerminalApp::default();
    app.show_results(notes(3));
    assert_eq!(app.handle(key(Key::Down)), Action::Idle);
    assert_eq!(app.state.selected(), Some(0));
    app.handle(key(Key::Down));
    app.handle(key(Key::Down));
    assert_eq!(app.state.selected(), Some(2));
    assert_eq!(app.handle(key(Key::Down)), Action::Idle);
    assert_eq!(app.state.selected(), Some(0));
}

#[test]
fn up_from_the_first_selects_the_last() {
    let mut app = TerminalApp::default();
    app.show_results(notes(3));
    app.handle(key(Key::Down));
    assert_eq!(app.state.selected(), Some(0));
    assert_eq!(app.handle(key(Key::Up)), Action::Idle);
    assert_eq!(app.state.selected(), Some(2));
    app.handle(key(Key::Up));
    assert_eq!(app.state.selected(), Some(1));
}

#[test]
fn moving_the_selection_changes_nothing_else() {
    let mut app = TerminalApp::default();
    type_text(&mut app, "foo");
    app.show_results(notes(2));
    app.next();
    assert_eq!(app.state.selected(), Some(0));
    app.previous();
    assert_eq!(app.state.selected(), Some(1));
    assert_eq!(app.input, "foo");
    assert_eq!(app.matches, notes(2));
}

#[test]
fn without_results_nothing_is_selected() {
    let mut app = TerminalApp::default();
    app.handle(key(Key::Down));
    assert_eq!(app.state.selected(), None);
    app.handle(key(Key::Up));
    assert_eq!(app.state.selected(), None);
    assert_eq!(app.handle(key(Key::Char('\n'))), Action::Finish(vec![]));
}

#[test]
fn enter_leaves_with_the_selected_path() {
    let mut app = TerminalApp::default();
    type_text(&mut app, "n");
    app.show_results(notes(3));
    app.handle(key(Key::Down));
    app.handle(key(Key::Down));
    assert_eq!(app.get_selected(), vec!["/notes/n1.md".to_string()]);
    assert_eq!(
        app.handle(key(Key::Char('\n'))),
        Action::Finish(vec!["/notes/n1.md".to_string()])
    );
    assert_eq!(app.mode, LoopState::Exiting);
    assert_eq!(app.input, "n");
}

#[test]
fn enter_without_a_selection_leaves_with_nothing() {
    let mut app = TerminalApp::default();
    app.show_results(notes(3));
    assert_eq!(app.handle(key(Key::Char('\n'))), Action::Finish(vec![]));
    assert_eq!(app.mode, LoopState::Exiting);
}

#[test]
fn cancel_leaves_with_nothing_and_drops_the_query() {
    let mut app = TerminalApp::default();
    type_text(&mut app, "foo");
    app.show_results(notes(3));
    app.handle(key(Key::Down));
    assert_eq!(app.handle(key(Key::Ctrl('c'))), Action::Finish(vec![]));
    assert_eq!(app.mode, LoopState::Exiting);
    assert_eq!(app.input, "");
}

#[test]
fn after_the_loop_is_left_nothing_happens() {
    let mut app = TerminalApp::default();
    type_text(&mut app, "foo");
    app.show_results(notes(2));
    app.handle(key(Key::Char('\n')));
    for event in [
        key(Key::Char('x')),
        key(Key::Backspace),
        key(Key::Down),
        key(Key::Up),
        key(Key::Char('\n')),
        key(Key::Ctrl('c')),
        Event::Tick,
    ] {
        assert_eq!(app.handle(event), Action::Idle);
    }
    assert_eq!(app.input, "foo");
    assert_eq!(app.state.selected(), None);
    assert_eq!(app.mode, LoopState::Exiting);
}

#[test]
fn ticks_and_other_keys_change_nothing() {
    let mut app = TerminalApp::default();
    type_text(&mut app, "foo");
    app.show_results(notes(2));
    app.handle(key(Key::Down));
    for event in [Event::Tick, key(Key::Other), key(Key::Ctrl('x'))] {
        assert_eq!(app.handle(event), Action::Idle);
        assert_eq!(app.input, "foo");
        assert_eq!(app.state.selected(), Some(0));
        assert_eq!(app.matches.len(), 2);
        assert_eq!(app.mode, LoopState::Editing);
    }
}

#[test]
fn results_fill_one_page_at_most() {
    assert_eq!(PAGE_SIZE, 100);
    let mut app = TerminalApp::default();
    app.show_results(notes(PAGE_SIZE + 5));
    assert_eq!(app.matches, notes(PAGE_SIZE));
    app.show_results(notes(PAGE_SIZE));
    assert_eq!(app.matches.len(), PAGE_SIZE);
}

#[test]
fn the_selection_stays_while_it_points_at_a_result() {
    let mut app = TerminalApp::default();
    app.show_results(notes(5));
    app.handle(key(Key::Up));
    app.handle(key(Key::Up));
    assert_eq!(app.state.selected(), Some(4));
    app.show_results(notes(5));
    assert_eq!(app.state.selected(), Some(4));
    app.show_results(notes(4));
    assert_eq!(app.state.selected(), None);
    app.handle(key(Key::Down));
    app.show_results(notes(1));
    assert_eq!(app.state.selected(), Some(0));
    app.show_results(vec![]);
    assert_eq!(app.state.selected(), None);
}

#[test]
fn a_failed_search_clears_the_results() {
    let mut app = TerminalApp::default();
    type_text(&mut app, "foo");
    app.show_results(notes(3));
    app.handle(key(Key::Down));
    app.search_failed();
    assert!(app.matches.is_empty());
    assert_eq!(app.state.selected(), None);
    assert_eq!(app.input, "foo");
    assert_eq!(app.mode, LoopState::Editing);
    assert_eq!(app.handle(key(Key::Char('d'))), Action::Search(word("food")));
}

#[test]
fn a_selection_beyond_the_results_yields_nothing() {
    let mut app = TerminalApp::default();
    app.show_results(notes(2));
    app.state.select(Some(7));
    assert_eq!(app.get_selected(), Vec::<String>::new());
}
