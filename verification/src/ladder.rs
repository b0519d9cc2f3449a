//! `⏎` on a refresh row: the whole ladder at once, with the rung in force marked.

use vstd::prelude::*;
use crate::ascii::{concat, decimal, decimal_string};
use crate::key::Key;
use crate::palette::{window, window_offset};

verus! {

/// How often a view polls.
#[derive(Debug, Clone, Copy, PartialEq, Eq, Structural)]
pub enum Interval {
    /// As often as the Prism Central's advertised rate allows.
    Auto,
    /// Every so many seconds.
    Secs(u64),
    /// Never on its own.
    Off,
}

/// Which level of the refresh configuration a choice is written to.
#[derive(Debug, Clone, PartialEq, Eq)]
pub enum Schedule {
    Everything,
    Namespace(String),
    Kind(String),
}

/// The rungs, in the order the list shows them.
pub open spec fn ladder_spec() -> Seq<Interval> {
    seq![
        Interval::Auto,
        Interval::Secs(5),
        Interval::Secs(10),
        Interval::Secs(30),
        Interval::Secs(60),
        Interval::Secs(300),
        Interval::Off,
    ]
}

/// The refresh ladder: `auto`, `5s`, `10s`, `30s`, `1m`, `5m`, `off`.
pub fn ladder() -> (r: [Interval; 7])
    ensures
        r@ == ladder_spec(),
{
    let r = [
        Interval::Auto,
        Interval::Secs(5),
        Interval::Secs(10),
        Interval::Secs(30),
        Interval::Secs(60),
        Interval::Secs(300),
        Interval::Off,
    ];
    proof {
        assert(r@ =~= ladder_spec());
    }
    r
}

/// How a rung is spelled: `auto`, `off`, whole minutes as `1m`, everything else in seconds.
pub open spec fn show_spec(i: Interval) -> Seq<char> {
    match i {
        Interval::Auto => seq!['a', 'u', 't', 'o'],
        Interval::Off => seq!['o', 'f', 'f'],
        Interval::Secs(n) => if n >= 60 && n % 60 == 0 {
            decimal((n / 60) as nat).push('m')
        } else {
            decimal(n as nat).push('s')
        },
    }
}

/// How a rung is spelled.
pub fn show(i: Interval) -> (r: String)
    ensures
        r@ == show_spec(i),
{
    let r = match i {
        Interval::Auto => "auto".to_string(),
        Interval::Off => "off".to_string(),
        Interval::Secs(n) => {
            if n >= 60 && n % 60 == 0 {
                concat(decimal_string(n / 60).as_str(), "m")
            } else {
                concat(decimal_string(n).as_str(), "s")
            }
        },
    };
    proof {
        reveal_strlit("auto");
        reveal_strlit("off");
        reveal_strlit("m");
        reveal_strlit("s");
    }
    r
}

#[derive(Debug, Clone, PartialEq, Eq)]
pub enum Action {
    Moved,
    Chose(Interval),
    Cancelled,
    Ignored,
}

#[derive(Debug)]
pub struct Ladder {
    /// Which level of the refresh configuration the choice is written to.
    pub at: Schedule,
    /// What the box is titled after: a kind's display name, a namespace, or `every kind`.
    pub label: String,
    /// The rung in force when the list opened, marked in the list.
    pub current: Option<Interval>,
    pub selected: usize,
}

impl Ladder {
    /// Opens on the rung in force, so `esc` and `⏎` on the same row both change nothing; a
    /// value off the ladder opens at the top.
    pub fn open(at: Schedule, label: String, current: Option<Interval>) -> (r: Ladder)
        ensures
            r.at == at,
            r.label == label,
            r.current == current,
            r.selected < 7,
            (match current {
                Some(v) => if ladder_spec().contains(v) { ladder_spec()[r.selected as int] == v } else { r.selected == 0 },
                None => r.selected == 0,
            }),
    {
        let mut selected: usize = 0;
        if let Some(v) = current {
            let rungs = ladder();
            let mut i: usize = 7;
            while i > 0
                invariant
                    i <= 7,
                    rungs@ == ladder_spec(),
                    selected < 7,
                    (exists|j: int| i <= j < 7 && ladder_spec()[j] == v) ==> ladder_spec()[selected as int] == v,
                    !(exists|j: int| i <= j < 7 && ladder_spec()[j] == v) ==> selected == 0,
                decreases i,
            {
                i = i - 1;
                if rungs[i] == v {
                    selected = i;
                }
            }
            proof {
                if ladder_spec().contains(v) {
                    let j = choose|j: int| 0 <= j < ladder_spec().len() && ladder_spec()[j] == v;
                    assert(exists|j: int| 0 <= j < 7 && ladder_spec()[j] == v);
                } else {
                    assert(!(exists|j: int| 0 <= j < 7 && ladder_spec()[j] == v));
                }
            }
        }
        Ladder { at, label, current, selected }
    }

    /// The movement keys move, `⏎` or `space` chooses the rung under the cursor.
    pub fn key(&mut self, key: Key) -> (r: Action)
        ensures
            final(self).at == old(self).at,
            final(self).label == old(self).label,
            final(self).current == old(self).current,
            ({
                let sel = old(self).selected as int;
                match key {
                    Key::Esc => r == Action::Cancelled && final(self).selected == sel,
                    Key::Down | Key::Tab | Key::Char('j') => r == Action::Moved && final(self).selected == if sel + 1 < 6 { sel + 1 } else { 6 },
                    Key::Up | Key::BackTab | Key::Char('k') => r == Action::Moved && final(self).selected == if sel > 0 { sel - 1 } else { 0 },
                    Key::Char('g') | Key::Home => r == Action::Moved && final(self).selected == 0,
                    Key::Char('G') | Key::End => r == Action::Moved && final(self).selected == 6,
                    Key::Enter | Key::Char(' ') => final(self).selected == sel && r == Action::Chose(ladder_spec()[if sel < 6 { sel } else { 6 }]),
                    _ => r == Action::Ignored && final(self).selected == sel,
                }
            }),
    {
        let last: usize = 6;
        let rungs = ladder();
        match key {
            Key::Esc => Action::Cancelled,
            Key::Down | Key::Tab | Key::Char('j') => {
                self.selected = if self.selected < last { self.selected + 1 } else { last };
                Action::Moved
            },
            Key::Up | Key::BackTab | Key::Char('k') => {
                self.selected = if self.selected > 0 { self.selected - 1 } else { 0 };
                Action::Moved
            },
            Key::Char('g') | Key::Home => {
                self.selected = 0;
                Action::Moved
            },
            Key::Char('G') | Key::End => {
                self.selected = last;
                Action::Moved
            },
            Key::Enter | Key::Char(' ') => {
                let at = if self.selected < last { self.selected } else { last };
                Action::Chose(rungs[at])
            },
            _ => Action::Ignored,
        }
    }

    /// The rungs, spelled the way the settings row spells them, each marked when it is the one
    /// in force.
    pub fn rows(&self) -> (r: Vec<(String, bool)>)
        ensures
            r@.len() == 7,
            forall|i: int| 0 <= i < 7 ==> (#[trigger] r@[i]).0@ == show_spec(ladder_spec()[i])
                && r@[i].1 == (self.current == Some(ladder_spec()[i])),
    {
        let rungs = ladder();
        let mut out: Vec<(String, bool)> = Vec::new();
        let mut i: usize = 0;
        while i < 7
            invariant
                i <= 7,
                rungs@ == ladder_spec(),
                out@.len() == i,
                forall|k: int| 0 <= k < i ==> (#[trigger] out@[k]).0@ == show_spec(ladder_spec()[k])
                    && out@[k].1 == (self.current == Some(ladder_spec()[k])),
            decreases 7 - i,
        {
            let r = rungs[i];
            let marked = match self.current {
                Some(c) => c == r,
                None => false,
            };
            out.push((show(r), marked));
            i = i + 1;
        }
        out
    }

    /// The rows to draw and the index the first of them has, framing the selection.
    pub fn window(&self, rows: usize) -> (r: (usize, Vec<Interval>))
        requires
            self.selected < usize::MAX,
        ensures
            rows == 0 ==> r.0 == 0 && r.1@.len() == 0,
            rows > 0 ==> {
                let offset = window_offset(self.selected as int, rows as int);
                let end = if offset + rows < 7 { offset + rows } else { 7 };
                &&& r.0 == offset
                &&& r.1@ == ladder_spec().subrange(if offset < end { offset } else { end }, end)
            },
    {
        let rungs = ladder();
        let (offset, shown) = window(rungs.as_slice(), self.selected, rows);
        let mut out: Vec<Interval> = Vec::new();
        let mut i: usize = 0;
        while i < shown.len()
            invariant
                i <= shown@.len(),
                out@ == shown@.subrange(0, i as int),
            decreases shown.len() - i,
        {
            out.push(shown[i]);
            proof {
                assert(shown@.subrange(0, i + 1) =~= shown@.subrange(0, i as int).push(shown@[i as int]));
            }
            i = i + 1;
        }
        proof {
            assert(shown@.subrange(0, shown@.len() as int) =~= shown@);
        }
        (offset, out)
    }
}

} // verus!
