use tika::util::{Config, Event, ListState, StatefulList, TabsState};

#[test]
fn tabs_begin_at_the_first() {
    let tabs = TabsState::new(vec!["a", "b", "c"]);
    assert_eq!(tabs.index, 0);
    assert_eq!(tabs.titles, vec!["a", "b", "c"]);
}

#[test]
fn tabs_go_round_forward() {
    let mut tabs = TabsState::new(vec!["a", "b", "c"]);
    tabs.next();
    assert_eq!(tabs.index, 1);
    tabs.next();
    assert_eq!(tabs.index, 2);
    tabs.next();
    assert_eq!(tabs.index, 0);
    assert_eq!(tabs.titles, vec!["a", "b", "c"]);
}

#[test]
fn tabs_go_round_backward() {
    let mut tabs = TabsState::new(vec!["a", "b", "c"]);
    tabs.previous();
    assert_eq!(tabs.index, 2);
    tabs.previous();
    assert_eq!(tabs.index, 1);
    tabs.previous();
    assert_eq!(tabs.index, 0);
}

#[test]
fn a_single_tab_stays() {
    let mut tabs = TabsState::new(vec!["only"]);
    tabs.next();
    assert_eq!(tabs.index, 0);
    tabs.previous();
    assert_eq!(tabs.index, 0);
}

#[test]
fn an_index_beyond_the_tabs_is_taken_round() {
    let mut tabs = TabsState { titles: vec!["a", "b", "c"], index: 7 };
    tabs.next();
    assert_eq!(tabs.index, 2);
    let mut tabs = TabsState { titles: vec!["a", "b", "c"], index: usize::MAX };
    tabs.next();
    assert_eq!(tabs.index, (usize::MAX % 3 + 1) % 3);
    let mut tabs = TabsState { titles: vec!["a", "b", "c"], index: 7 };
    tabs.previous();
    assert_eq!(tabs.index, 6);
}

#[test]
fn a_list_begins_without_a_selection() {
    let list: StatefulList<u8> = StatefulList::new();
    assert_eq!(list.state.selected(), None);
    assert!(list.items.is_empty());
    let list = StatefulList::with_items(vec![1, 2, 3]);
    assert_eq!(list.state.selected(), None);
    assert_eq!(list.items, vec![1, 2, 3]);
    assert_eq!(ListState::default().selected(), None);
}

#[test]
fn a_list_goes_round_forward() {
    let mut list = StatefulList::with_items(vec!["a", "b", "c"]);
    list.next();
    assert_eq!(list.state.selected(), Some(0));
    list.next();
    assert_eq!(list.state.selected(), Some(1));
    list.next();
    assert_eq!(list.state.selected(), Some(2));
    list.next();
    assert_eq!(list.state.selected(), Some(0));
}

#[test]
fn a_list_goes_round_backward() {
    let mut list = StatefulList::with_items(vec!["a", "b", "c"]);
    list.previous();
    assert_eq!(list.state.selected(), Some(0));
    list.previous();
    assert_eq!(list.state.selected(), Some(2));
    list.previous();
    assert_eq!(list.state.selected(), Some(1));
    list.previous();
    assert_eq!(list.state.selected(), Some(0));
}

#[test]
fn an_empty_list_selects_nothing() {
    let mut list: StatefulList<u8> = StatefulList::new();
    list.next();
    assert_eq!(list.state.selected(), None);
    list.previous();
    assert_eq!(list.state.selected(), None);
    list.state.select(Some(3));
    list.next();
    assert_eq!(list.state.selected(), None);
}

#[test]
fn a_selection_beyond_the_list_goes_to_the_first() {
    let mut list = StatefulList::with_items(vec![1, 2]);
    list.state.select(Some(9));
    list.next();
    assert_eq!(list.state.selected(), Some(0));
}

#[test]
fn a_list_can_be_unselected() {
    let mut list = StatefulList::with_items(vec![1, 2]);
    list.next();
    list.unselect();
    assert_eq!(list.state.selected(), None);
    assert_eq!(list.items, vec![1, 2]);
}

#[test]
fn the_state_of_a_list_steps_on_its_own() {
    let mut state = ListState::default();
    state.forward(2);
    assert_eq!(state.selected(), Some(0));
    state.forward(2);
    assert_eq!(state.selected(), Some(1));
    state.forward(2);
    assert_eq!(state.selected(), Some(0));
    state.backward(2);
    assert_eq!(state.selected(), Some(1));
    state.backward(0);
    assert_eq!(state.selected(), None);
}

#[test]
fn ticks_come_four_times_a_second() {
    assert_eq!(Config::default().tick_rate, 250);
}

#[test]
fn an_event_is_a_key_or_a_tick() {
    let key: Event<char> = Event::Input('a');
    assert_eq!(key, Event::Input('a'));
    assert_ne!(key, Event::Tick);
}

#[test]
fn without_tabs_the_first_index_stays() {
    let mut tabs = TabsState::new(vec![]);
    tabs.next();
    assert_eq!(tabs.index, 0);
    tabs.previous();
    assert_eq!(tabs.index, 0);
    let mut tabs = TabsState { titles: vec![], index: 3 };
    tabs.next();
    assert_eq!(tabs.index, 3);
    tabs.previous();
    assert_eq!(tabs.index, 2);
}
