//! The interactive search loop as a state machine.
//!
//! The machine holds the query buffer, the list of results and the
//! selection. `TerminalApp::handle` takes one input event and answers with
//! the action that the caller is to perform. The caller draws the screen,
//! reads the keys and asks the search engine; it hands the answer of the
//! engine back through `show_results` or `search_failed`.

use crate::document::TikaDocument;
use crate::query::{parse, parse_user_query, ParseError, QueryNode};
use crate::util::{selection_after, selection_before, selection_within, Event, ListState};
use vstd::prelude::*;
use vstd::string::*;
use vstd::utf8::encode_utf8;

verus! {

/// The most results that are shown for one query.
pub const PAGE_SIZE: usize = 100;

/// `String::push` of the standard library appends the character to the text.
pub assume_specification[ String::push ](text: &mut String, ch: char)
    ensures
        final(text)@ == old(text)@.push(ch),
;

/// `String::pop` of the standard library removes the last character of the
/// text and returns it, or returns `None` and leaves an empty text empty.
pub assume_specification[ String::pop ](text: &mut String) -> (ch: Option<char>)
    ensures
        old(text)@.len() == 0 ==> ch is None && final(text)@ == old(text)@,
        old(text)@.len() > 0 ==> ch == Some(old(text)@.last()) && final(text)@ == old(
            text,
        )@.drop_last(),
;

/// A key of the terminal.
#[derive(Clone, Copy, Debug, PartialEq, Eq)]
pub enum Key {
    Char(char),
    Ctrl(char),
    Backspace,
    Up,
    Down,
    /// Any other key.
    Other,
}

/// What an event asks of the loop.
#[derive(Clone, Copy, Debug, PartialEq, Eq)]
pub enum Command {
    /// Put the character at the end of the query.
    Insert(char),
    /// Take the last character of the query away.
    Delete,
    /// Select the next result.
    Next,
    /// Select the previous result.
    Previous,
    /// Leave with the selected result.
    Accept,
    /// Leave with nothing.
    Cancel,
    /// Nothing.
    Ignore,
}

/// The state of the loop.
#[derive(Clone, Copy, Debug, PartialEq, Eq, Structural)]
pub enum LoopState {
    Editing,
    Exiting,
}

/// What the caller is to do after an event.
#[derive(Debug, PartialEq, Eq)]
pub enum Action {
    /// Nothing but to draw the screen again.
    Idle,
    /// Ask the search engine for the notes that match the query.
    Search(QueryNode),
    /// Tell the user that the query cannot be read. No query is submitted and
    /// the results stay.
    Report(ParseError),
    /// Leave the loop with these paths.
    Finish(Vec<String>),
}

/// What `event` asks for: the enter key accepts, control-c cancels, any
/// other character is typed into the query, and a tick asks for nothing.
pub open spec fn command_of(event: Event<Key>) -> Command {
    match event {
        Event::Tick => Command::Ignore,
        Event::Input(key) => match key {
            Key::Char(c) => if c == '\n' {
                Command::Accept
            } else {
                Command::Insert(c)
            },
            Key::Ctrl(c) => if c == 'c' {
                Command::Cancel
            } else {
                Command::Ignore
            },
            Key::Backspace => Command::Delete,
            Key::Down => Command::Next,
            Key::Up => Command::Previous,
            Key::Other => Command::Ignore,
        },
    }
}

/// Reads what `event` asks for.
pub fn command(event: Event<Key>) -> (asked: Command)
    ensures
        asked == command_of(event),
{
    match event {
        Event::Tick => Command::Ignore,
        Event::Input(key) => match key {
            Key::Char(c) => if c == '\n' {
                Command::Accept
            } else {
                Command::Insert(c)
            },
            Key::Ctrl(c) => if c == 'c' {
                Command::Cancel
            } else {
                Command::Ignore
            },
            Key::Backspace => Command::Delete,
            Key::Down => Command::Next,
            Key::Up => Command::Previous,
            Key::Other => Command::Ignore,
        },
    }
}

/// Whether `action` is the answer to the query `query`: the search for what
/// the query is read as, or the report of the fault in it.
pub open spec fn answers(action: Action, query: Seq<u8>) -> bool {
    match parse(query) {
        Ok(tree) => action matches Action::Search(node) && node@ == tree,
        Err(fault) => action matches Action::Report(error) && error.reports(query, fault),
    }
}

/// The texts of `paths`.
pub open spec fn texts(paths: Seq<String>) -> Seq<Seq<char>> {
    paths.map_values(|path: String| path@)
}

/// The state of the search loop.
#[derive(Debug)]
pub struct TerminalApp {
    /// The query as typed so far.
    pub input: String,
    /// The notes that match the last query that was answered.
    pub matches: Vec<TikaDocument>,
    /// Which of the matches is selected.
    pub state: ListState,
    /// Whether the loop goes on.
    pub mode: LoopState,
}

impl Default for TerminalApp {
    fn default() -> (app: TerminalApp)
        ensures
            app.input@.len() == 0,
            app.matches@.len() == 0,
            app.state.selected is None,
            app.mode == LoopState::Editing,
            app.wf(),
    {
        TerminalApp {
            input: String::new(),
            matches: Vec::new(),
            state: ListState { selected: None },
            mode: LoopState::Editing,
        }
    }
}

impl TerminalApp {
    /// The selected match, if there is one, is one of the matches, and the
    /// matches fill no more than a page.
    pub open spec fn wf(self) -> bool {
        &&& selection_within(self.state.selected, self.matches@.len())
        &&& self.matches@.len() <= PAGE_SIZE
    }

    /// The full path of the selected match; nothing where no match is
    /// selected.
    pub open spec fn selected_paths(self) -> Seq<Seq<char>> {
        match self.state.selected {
            Some(i) => if i < self.matches@.len() {
                seq![self.matches@[i as int].full_path@]
            } else {
                Seq::empty()
            },
            None => Seq::empty(),
        }
    }

    /// What one event makes of the state `self`: the state `next` and the
    /// action `action`.
    ///
    /// Once the loop is left, and on a tick or a key without meaning, nothing
    /// changes. A typed character and a backspace change the query and are
    /// answered by the search for the new query, or by the report of its
    /// fault; the results and the selection stay. Up and down move the
    /// selection and ask for no search. Enter leaves the loop with the path of
    /// the selected match. Control-c leaves it with nothing and drops the
    /// query.
    pub open spec fn step(self, event: Event<Key>, next: TerminalApp, action: Action) -> bool {
        let asked = if self.mode == LoopState::Exiting {
            Command::Ignore
        } else {
            command_of(event)
        };
        &&& next.matches == self.matches
        &&& match asked {
            Command::Ignore => next == self && action is Idle,
            Command::Insert(c) => {
                &&& next.input@ == self.input@.push(c)
                &&& next.state == self.state
                &&& next.mode == LoopState::Editing
                &&& answers(action, encode_utf8(next.input@))
            },
            Command::Delete => {
                &&& next.input@ == if self.input@.len() == 0 {
                    self.input@
                } else {
                    self.input@.drop_last()
                }
                &&& next.state == self.state
                &&& next.mode == LoopState::Editing
                &&& answers(action, encode_utf8(next.input@))
            },
            Command::Next => {
                &&& next.input == self.input
                &&& next.state.selected == selection_after(
                    self.state.selected,
                    self.matches@.len(),
                )
                &&& next.mode == LoopState::Editing
                &&& action is Idle
            },
            Command::Previous => {
                &&& next.input == self.input
                &&& next.state.selected == selection_before(
                    self.state.selected,
                    self.matches@.len(),
                )
                &&& next.mode == LoopState::Editing
                &&& action is Idle
            },
            Command::Accept => {
                &&& next.input == self.input
                &&& next.state == self.state
                &&& next.mode == LoopState::Exiting
                &&& action matches Action::Finish(paths) && texts(paths@) == self.selected_paths()
            },
            Command::Cancel => {
                &&& next.input@.len() == 0
                &&& next.state == self.state
                &&& next.mode == LoopState::Exiting
                &&& action matches Action::Finish(paths) && paths@.len() == 0
            },
        }
    }

    /// The full path of the selected match.
    pub fn get_selected(&self) -> (paths: Vec<String>)
        ensures
            texts(paths@) == self.selected_paths(),
    {
        let mut paths: Vec<String> = Vec::new();
        if let Some(i) = self.state.selected() {
            if i < self.matches.len() {
                paths.push(self.matches[i].full_path.clone());
            }
        }
        paths
    }

    /// Selects the next match, the first one after the last.
    pub fn next(&mut self)
        ensures
            final(self).input == old(self).input,
            final(self).matches == old(self).matches,
            final(self).mode == old(self).mode,
            final(self).state.selected == selection_after(
                old(self).state.selected,
                old(self).matches@.len(),
            ),
            selection_within(final(self).state.selected, final(self).matches@.len()),
    {
        let len: usize = self.matches.len();
        self.state.forward(len);
    }

    /// Selects the previous match, the last one before the first.
    pub fn previous(&mut self)
        ensures
            final(self).input == old(self).input,
            final(self).matches == old(self).matches,
            final(self).mode == old(self).mode,
            final(self).state.selected == selection_before(
                old(self).state.selected,
                old(self).matches@.len(),
            ),
            old(self).wf() ==> final(self).wf(),
    {
        let len: usize = self.matches.len();
        self.state.backward(len);
    }

    /// Reads the query in the buffer: the search to make, or the fault to
    /// report.
    pub fn query(&self) -> (action: Action)
        ensures
            answers(action, encode_utf8(self.input@)),
    {
        match parse_user_query(self.input.as_str()) {
            Ok(node) => Action::Search(node),
            Err(error) => Action::Report(error),
        }
    }

    /// Takes one event and says what is to be done.
    pub fn handle(&mut self, event: Event<Key>) -> (action: Action)
        ensures
            old(self).step(event, *final(self), action),
            old(self).wf() ==> final(self).wf(),
    {
        if self.mode == LoopState::Exiting {
            return Action::Idle;
        }
        match command(event) {
            Command::Ignore => Action::Idle,
            Command::Insert(c) => {
                self.input.push(c);
                self.query()
            },
            Command::Delete => {
                let _ = self.input.pop();
                self.query()
            },
            Command::Next => {
                self.next();
                Action::Idle
            },
            Command::Previous => {
                self.previous();
                Action::Idle
            },
            Command::Accept => {
                self.mode = LoopState::Exiting;
                Action::Finish(self.get_selected())
            },
            Command::Cancel => {
                self.mode = LoopState::Exiting;
                self.input = String::new();
                Action::Finish(Vec::new())
            },
        }
    }

    /// The first page of `results`.
    pub open spec fn page(results: Seq<TikaDocument>) -> Seq<TikaDocument> {
        if results.len() > PAGE_SIZE {
            results.take(PAGE_SIZE as int)
        } else {
            results
        }
    }

    /// Shows the notes that the search engine found: the first page of them
    /// takes the place of the matches. The selection stays where it still
    /// points at a match, and else is dropped.
    pub fn show_results(&mut self, results: Vec<TikaDocument>)
        ensures
            final(self).input == old(self).input,
            final(self).mode == old(self).mode,
            final(self).matches@ == Self::page(results@),
            final(self).state.selected == if selection_within(
                old(self).state.selected,
                Self::page(results@).len(),
            ) {
                old(self).state.selected
            } else {
                None
            },
            final(self).wf(),
    {
        let mut results = results;
        if results.len() > PAGE_SIZE {
            results.truncate(PAGE_SIZE);
        }
        let keep = match self.state.selected() {
            Some(i) => i < results.len(),
            None => true,
        };
        if !keep {
            self.state.select(None);
        }
        self.matches = results;
    }

    /// Takes note that the search engine failed on a query: no match is left
    /// and none is selected. The loop goes on.
    pub fn search_failed(&mut self)
        ensures
            final(self).input == old(self).input,
            final(self).mode == old(self).mode,
            final(self).matches@.len() == 0,
            final(self).state.selected is None,
            final(self).wf(),
    {
        self.matches = Vec::new();
        self.state.select(None);
    }
}

} // verus!
