//! `:skin` with no argument: the built-in skins, with the one showing selected.

use vstd::prelude::*;
use crate::catalog::strings_view;
use crate::key::Key;
use crate::palette::{window, window_offset};

verus! {

#[derive(Debug, Clone, PartialEq, Eq)]
pub enum Action {
    Moved,
    Chose(String),
    Cancelled,
    Ignored,
}

/// The built-in skins, in the order the list shows them, and the cursor over them.
#[derive(Debug)]
pub struct Skins {
    pub names: Vec<String>,
    pub selected: usize,
}

/// The index of the first of `names` that is `current`, or 0 when none is.
pub open spec fn position_of(names: Seq<Seq<char>>, current: Seq<char>) -> int {
    if exists|i: int| 0 <= i < names.len() && names[i] == current {
        choose|i: int| 0 <= i < names.len() && names[i] == current && forall|j: int| 0 <= j < i ==> names[j] != current
    } else {
        0
    }
}

impl Skins {
    /// Opens on the skin now showing, so `esc` and `enter` on the same row both change nothing.
    pub fn open(names: Vec<String>, current: &str) -> (r: Skins)
        ensures
            strings_view(r.names@) == strings_view(names@),
            ({
                let nv = strings_view(names@);
                &&& (r.selected < nv.len() && nv[r.selected as int] == current@
                    && forall|j: int| 0 <= j < r.selected ==> nv[j] != current@)
                    || (r.selected == 0 && forall|j: int| 0 <= j < nv.len() ==> nv[j] != current@)
            }),
    {
        let ghost nv = strings_view(names@);
        let mut i: usize = 0;
        while i < names.len()
            invariant
                i <= names@.len(),
                nv == strings_view(names@),
                forall|j: int| 0 <= j < i ==> nv[j] != current@,
            decreases names.len() - i,
        {
            if crate::ascii::str_eq(names[i].as_str(), current) {
                proof {
                    assert(nv[i as int] == names@[i as int]@);
                }
                return Skins { names, selected: i };
            }
            proof {
                assert(nv[i as int] == names@[i as int]@);
            }
            i = i + 1;
        }
        Skins { names, selected: 0 }
    }

    /// `j`/`k` and the arrows move, `enter` chooses the skin under the cursor, `esc` cancels.
    pub fn key(&mut self, key: Key) -> (r: Action)
        requires
            key == Key::Enter ==> old(self).names@.len() > 0,
        ensures
            final(self).names == old(self).names,
            ({
                let last = if old(self).names@.len() > 0 { old(self).names@.len() - 1 } else { 0 };
                let sel = old(self).selected as int;
                match key {
                    Key::Esc => r == Action::Cancelled && final(self).selected == sel,
                    Key::Down | Key::Tab | Key::Char('j') => r == Action::Moved && final(self).selected == if sel + 1 < last { sel + 1 } else { last },
                    Key::Up | Key::BackTab | Key::Char('k') => r == Action::Moved && final(self).selected == if sel > 0 { sel - 1 } else { 0 },
                    Key::Enter => final(self).selected == sel && (r matches Action::Chose(name) && name@ == old(self).names@[if sel < last { sel } else { last }]@),
                    _ => r == Action::Ignored && final(self).selected == sel,
                }
            }),
    {
        let last = if self.names.len() > 0 { self.names.len() - 1 } else { 0 };
        match key {
            Key::Esc => Action::Cancelled,
            Key::Down | Key::Tab | Key::Char('j') => {
                self.selected = if self.selected < last { self.selected + 1 } else { last };
                Action::Moved
            },
            Key::Up | Key::BackTab | Key::Char('k') => {
                self.selected = if self.selected > 0 { self.selected - 1 } else { 0 };
                Action::Moved
            },
            Key::Enter => {
                let at = if self.selected < last { self.selected } else { last };
                Action::Chose(self.names[at].clone())
            },
            _ => Action::Ignored,
        }
    }

    /// The rows to draw and the index the first of them has, framing the selection.
    pub fn window(&self, rows: usize) -> (r: (usize, &[String]))
        requires
            self.selected < usize::MAX,
        ensures
            rows == 0 ==> r.0 == 0 && r.1@.len() == 0,
            rows > 0 ==> {
                let offset = window_offset(self.selected as int, rows as int);
                let end = if offset + rows < self.names@.len() { offset + rows } else { self.names@.len() as int };
                &&& r.0 == offset
                &&& r.1@ == self.names@.subrange(if offset < end { offset } else { end }, end)
            },
    {
        window(self.names.as_slice(), self.selected, rows)
    }
}

} // verus!
