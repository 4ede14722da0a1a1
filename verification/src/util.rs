//! Small pieces of interface state shared by the terminal front end.

use vstd::prelude::*;

verus! {

/// An input event delivered to the search loop: either a key of type `I`
/// or a periodic tick.
#[derive(Debug, PartialEq, Eq)]
pub enum Event<I> {
    Input(I),
    Tick,
}

/// A row of titled tabs with the index of the one that is shown.
#[derive(Debug)]
pub struct TabsState<'a> {
    pub titles: Vec<&'a str>,
    pub index: usize,
}

impl<'a> TabsState<'a> {
    /// Index of the tab to the right of `index` among `len` tabs, going
    /// round to the first after the last. Without tabs the index stays.
    pub open spec fn index_after(index: int, len: int) -> int {
        if len == 0 {
            index
        } else {
            (index + 1) % len
        }
    }

    /// Index of the tab to the left of `index` among `len` tabs, going
    /// round to the last before the first. Without tabs the first index stays.
    pub open spec fn index_before(index: int, len: int) -> int {
        if index > 0 {
            index - 1
        } else if len > 0 {
            len - 1
        } else {
            0
        }
    }

    pub fn new(titles: Vec<&'a str>) -> (tabs: TabsState<'a>)
        ensures
            tabs.titles == titles,
            tabs.index == 0,
    {
        TabsState { titles, index: 0 }
    }

    /// Shows the next tab, the first one after the last.
    pub fn next(&mut self)
        ensures
            final(self).titles == old(self).titles,
            final(self).index == Self::index_after(
                old(self).index as int,
                old(self).titles@.len() as int,
            ),
    {
        let len: usize = self.titles.len();
        if len == 0 {
            return;
        }
        let at: usize = self.index % len;
        proof {
            // (index + 1) % len is decided by index % len alone.
            vstd::arithmetic::div_mod::lemma_add_mod_noop(self.index as int, 1, len as int);
            if len > 1 {
                vstd::arithmetic::div_mod::lemma_small_mod(1, len as nat);
            }
            if at + 1 < len {
                vstd::arithmetic::div_mod::lemma_small_mod((at + 1) as nat, len as nat);
            } else {
                vstd::arithmetic::div_mod::lemma_mod_self_0(len as int);
            }
        }
        if at + 1 == len {
            self.index = 0;
        } else {
            self.index = at + 1;
        }
    }

    /// Shows the previous tab, the last one before the first.
    pub fn previous(&mut self)
        ensures
            final(self).titles == old(self).titles,
            final(self).index == Self::index_before(
                old(self).index as int,
                old(self).titles@.len() as int,
            ),
    {
        if self.index > 0 {
            self.index = self.index - 1;
        } else if self.titles.len() > 0 {
            self.index = self.titles.len() - 1;
        }
    }
}

/// The item of a list that comes after the selected one among `len` items:
/// the first after the last, and the first where none is selected. A list
/// without items has nothing to select.
pub open spec fn selection_after(selected: Option<usize>, len: nat) -> Option<usize> {
    if len == 0 {
        None
    } else {
        match selected {
            Some(i) => if i + 1 < len {
                Some((i + 1) as usize)
            } else {
                Some(0)
            },
            None => Some(0),
        }
    }
}

/// The item of a list that comes before the selected one among `len` items:
/// the last before the first, and the first where none is selected. A list
/// without items has nothing to select.
pub open spec fn selection_before(selected: Option<usize>, len: nat) -> Option<usize> {
    if len == 0 {
        None
    } else {
        match selected {
            Some(i) => if i == 0 {
                Some((len - 1) as usize)
            } else {
                Some((i - 1) as usize)
            },
            None => Some(0),
        }
    }
}

/// Whether the selected item, if there is one, is one of `len` items.
pub open spec fn selection_within(selected: Option<usize>, len: nat) -> bool {
    selected matches Some(i) ==> i < len
}

/// Which item of a list is selected, if any.
#[derive(Clone, Copy, Debug, PartialEq, Eq, Structural)]
pub struct ListState {
    pub selected: Option<usize>,
}

impl Default for ListState {
    fn default() -> (state: ListState)
        ensures
            state.selected is None,
    {
        ListState { selected: None }
    }
}

impl ListState {
    pub fn selected(&self) -> (index: Option<usize>)
        ensures
            index == self.selected,
    {
        self.selected
    }

    pub fn select(&mut self, index: Option<usize>)
        ensures
            final(self).selected == index,
    {
        self.selected = index;
    }

    /// Selects the item after the selected one among `len` items.
    pub fn forward(&mut self, len: usize)
        ensures
            final(self).selected == selection_after(old(self).selected, len as nat),
            selection_within(final(self).selected, len as nat),
    {
        let index = if len == 0 {
            None
        } else {
            match self.selected {
                Some(i) => if i < len - 1 {
                    Some(i + 1)
                } else {
                    Some(0)
                },
                None => Some(0),
            }
        };
        self.selected = index;
    }

    /// Selects the item before the selected one among `len` items.
    pub fn backward(&mut self, len: usize)
        ensures
            final(self).selected == selection_before(old(self).selected, len as nat),
            selection_within(old(self).selected, len as nat) ==> selection_within(
                final(self).selected,
                len as nat,
            ),
    {
        let index = if len == 0 {
            None
        } else {
            match self.selected {
                Some(i) => if i == 0 {
                    Some(len - 1)
                } else {
                    Some(i - 1)
                },
                None => Some(0),
            }
        };
        self.selected = index;
    }
}

/// A list of items with the one that is selected.
#[derive(Debug)]
pub struct StatefulList<T> {
    pub state: ListState,
    pub items: Vec<T>,
}

impl<T> StatefulList<T> {
    /// Whether the selected item, if there is one, is in the list.
    pub open spec fn wf(self) -> bool {
        selection_within(self.state.selected, self.items@.len())
    }

    pub fn new() -> (list: StatefulList<T>)
        ensures
            list.items@.len() == 0,
            list.state.selected is None,
            list.wf(),
    {
        StatefulList { state: ListState { selected: None }, items: Vec::new() }
    }

    pub fn with_items(items: Vec<T>) -> (list: StatefulList<T>)
        ensures
            list.items == items,
            list.state.selected is None,
            list.wf(),
    {
        StatefulList { state: ListState { selected: None }, items }
    }

    /// Selects the next item, the first one after the last.
    pub fn next(&mut self)
        ensures
            final(self).items == old(self).items,
            final(self).state.selected == selection_after(
                old(self).state.selected,
                old(self).items@.len(),
            ),
            final(self).wf(),
    {
        let len: usize = self.items.len();
        self.state.forward(len);
    }

    /// Selects the previous item, the last one before the first.
    pub fn previous(&mut self)
        ensures
            final(self).items == old(self).items,
            final(self).state.selected == selection_before(
                old(self).state.selected,
                old(self).items@.len(),
            ),
            old(self).wf() ==> final(self).wf(),
    {
        let len: usize = self.items.len();
        self.state.backward(len);
    }

    /// Selects no item.
    pub fn unselect(&mut self)
        ensures
            final(self).items == old(self).items,
            final(self).state.selected is None,
            final(self).wf(),
    {
        self.state.select(None);
    }
}

/// How the event source is set up.
#[derive(Clone, Copy, Debug, PartialEq, Eq, Structural)]
pub struct Config {
    /// Milliseconds between two ticks.
    pub tick_rate: u64,
}

impl Default for Config {
    fn default() -> (config: Config)
        ensures
            config.tick_rate == 250,
    {
        Config { tick_rate: 250 }
    }
}

/// Going forward from the last item selects the first, and going backward
/// from the first selects the last.
pub proof fn lemma_selection_wraps(len: nat)
    requires
        0 < len <= usize::MAX,
    ensures
        selection_after(Some((len - 1) as usize), len) == Some(0usize),
        selection_before(Some(0usize), len) == Some((len - 1) as usize),
{
}

/// Going forward and back again, or back and forward again, returns to the
/// item that was selected.
pub proof fn lemma_selection_returns(selected: usize, len: nat)
    requires
        selected < len <= usize::MAX,
    ensures
        selection_before(selection_after(Some(selected), len), len) == Some(selected),
        selection_after(selection_before(Some(selected), len), len) == Some(selected),
{
}

/// Going forward from nothing visits every item in turn: `steps` steps
/// forward, for `1 <= steps <= len`, select the item `steps - 1`.
pub proof fn lemma_selection_visits(len: nat, steps: nat)
    requires
        1 <= steps <= len <= usize::MAX,
    ensures
        selection_after_steps(None, len, steps) == Some((steps - 1) as usize),
    decreases steps,
{
    reveal_with_fuel(selection_after_steps, 2);
    if steps > 1 {
        lemma_selection_visits(len, (steps - 1) as nat);
    }
}

/// The item that is selected after `steps` steps forward.
pub open spec fn selection_after_steps(selected: Option<usize>, len: nat, steps: nat) -> Option<
    usize,
>
    decreases steps,
{
    if steps == 0 {
        selected
    } else {
        selection_after(selection_after_steps(selected, len, (steps - 1) as nat), len)
    }
}

} // verus!
