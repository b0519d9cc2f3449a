//! `:journal`: what was attempted this session. Newest first, `esc` closes.

use vstd::prelude::*;
use crate::activity::{list_move, list_step};
use crate::key::Key;

verus! {

/// What a key did, for the app to act on.
#[derive(Debug, Clone, Copy, PartialEq, Eq, Structural)]
pub enum Action {
    Moved,
    Closed,
    Ignored,
}

#[derive(Debug)]
pub struct JournalView {
    pub selected: usize,
}

impl Default for JournalView {
    fn default() -> (r: JournalView)
        ensures
            r.selected == 0,
    {
        JournalView { selected: 0 }
    }
}

impl JournalView {
    /// `last` is the index of the last row; the app measures it. The cursor stops at both ends,
    /// and an empty ring is `last = 0`, which every arm survives.
    pub fn key(&mut self, key: Key, last: usize) -> (r: Action)
        ensures
            (key == Key::Esc || key == Key::Char('q')) ==> r == Action::Closed && final(self).selected == old(self).selected,
            !(key == Key::Esc || key == Key::Char('q')) ==> match list_move(key, old(self).selected as int, last as int) {
                Some(x) => r == Action::Moved && final(self).selected == x,
                None => r == Action::Ignored && final(self).selected == old(self).selected,
            },
    {
        match key {
            Key::Esc | Key::Char('q') => return Action::Closed,
            _ => {},
        }
        match list_step(key, self.selected, last) {
            Some(x) => {
                self.selected = x;
                Action::Moved
            },
            None => Action::Ignored,
        }
    }
}

} // verus!
