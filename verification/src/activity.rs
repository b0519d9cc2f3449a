//! `:activity`: what this session is doing to the Prism Central. Two tabs over one question -
//! every request, newest first, and every table the session holds with when it last polled.

use vstd::prelude::*;
use crate::key::Key;

verus! {

#[derive(Debug, Clone, Copy, PartialEq, Eq, Structural)]
pub enum Tab {
    Requests,
    Tables,
}

#[derive(Debug, Clone, Copy, PartialEq, Eq, Structural)]
pub enum Action {
    Moved,
    Closed,
    Ignored,
}

/// Where a list cursor lands after a movement key, over a list whose last index is `last`:
/// `None` for a key that moves nothing.
pub open spec fn list_move(key: Key, selected: int, last: int) -> Option<int> {
    let clamp = |x: int| if x < last { x } else { last };
    let floor = |x: int| if x > 0 { x } else { 0 };
    match key {
        Key::Char(c) => if c == 'j' {
            Some(clamp(selected + 1))
        } else if c == 'k' {
            Some(floor(selected - 1))
        } else if c == 'g' {
            Some(0)
        } else if c == 'G' {
            Some(last)
        } else {
            None
        },
        Key::Down => Some(clamp(selected + 1)),
        Key::Up => Some(floor(selected - 1)),
        Key::Home => Some(0),
        Key::End => Some(last),
        Key::PageDown => Some(clamp(selected + 20)),
        Key::PageUp => Some(floor(selected - 20)),
        _ => None,
    }
}

/// `n` rows down, clamped to `last`.
pub fn step_down(selected: usize, n: usize, last: usize) -> (r: usize)
    ensures
        r == (if selected + n < last { selected + n } else { last as int }),
{
    if selected < last && n < last - selected { selected + n } else { last }
}

/// `n` rows up, clamped to the first.
pub fn step_up(selected: usize, n: usize) -> (r: usize)
    ensures
        r == (if n < selected { selected - n } else { 0 }),
{
    if selected > n { selected - n } else { 0 }
}

/// The movement keys every list view shares: `j`/`k`, the arrows, `g`/`G`, `home`/`end`, and a
/// page of twenty.
pub fn list_step(key: Key, selected: usize, last: usize) -> (r: Option<usize>)
    ensures
        (match list_move(key, selected as int, last as int) {
            Some(x) => r == Some(x as usize),
            None => r is None,
        }),
{
    match key {
        Key::Char('j') | Key::Down => Some(step_down(selected, 1, last)),
        Key::Char('k') | Key::Up => Some(step_up(selected, 1)),
        Key::Char('g') | Key::Home => Some(0),
        Key::Char('G') | Key::End => Some(last),
        Key::PageDown => Some(step_down(selected, 20, last)),
        Key::PageUp => Some(step_up(selected, 20)),
        _ => None,
    }
}

#[derive(Debug)]
pub struct ActivityView {
    pub tab: Tab,
    pub selected: usize,
}

impl Default for ActivityView {
    fn default() -> (r: ActivityView)
        ensures
            r.tab == Tab::Requests,
            r.selected == 0,
    {
        ActivityView { tab: Tab::Requests, selected: 0 }
    }
}

impl ActivityView {
    /// `last` is the index of the last row of the tab showing; the app measures it. `tab`
    /// flips the half and puts the cursor at the top; the cursor stops at both ends.
    pub fn key(&mut self, key: Key, last: usize) -> (r: Action)
        ensures
            (key == Key::Esc || key == Key::Char('q')) ==> r == Action::Closed && final(self).tab == old(self).tab && final(self).selected == old(self).selected,
            (key == Key::Tab || key == Key::BackTab) ==> {
                &&& r == Action::Moved
                &&& final(self).tab == if old(self).tab == Tab::Requests { Tab::Tables } else { Tab::Requests }
                &&& final(self).selected == 0
            },
            !(key == Key::Esc || key == Key::Char('q') || key == Key::Tab || key == Key::BackTab) ==> {
                &&& final(self).tab == old(self).tab
                &&& match list_move(key, old(self).selected as int, last as int) {
                    Some(x) => r == Action::Moved && final(self).selected == x,
                    None => r == Action::Ignored && final(self).selected == old(self).selected,
                }
            },
    {
        match key {
            Key::Esc | Key::Char('q') => return Action::Closed,
            Key::Tab | Key::BackTab => {
                self.tab = match self.tab {
                    Tab::Requests => Tab::Tables,
                    Tab::Tables => Tab::Requests,
                };
                self.selected = 0;
                return Action::Moved;
            },
            _ => {},
        }
        match list_step(key, self.selected, last) {
            Some(x) => {
                self.selected = x;
                Action::Moved
            },
            None => Action::Ignored,
        }
    }
}

} // verus!
