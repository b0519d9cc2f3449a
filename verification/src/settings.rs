//! `:settings`: what is set, what it is set to, who set it - and the `[nav] hide` list.
//!
//! A setting the screen cannot honestly change is drawn read-only with its reason, never left
//! out: a setting that is on and not listed is one the user will hunt for in the wrong file.

use vstd::prelude::*;
use crate::catalog::{copy_opt, opt_view};
use crate::ascii::{chars_of, str_eq, string_of};
use crate::key::Key;
use crate::palette::{window, window_offset};

verus! {

/// The settings the screen lists.
#[derive(Debug, Clone, Copy, PartialEq, Eq, Structural)]
pub enum SettingId {
    Skin,
    Cache,
    Mouse,
    Readonly,
    HideUnserved,
    Header,
    Log,
    Refresh,
    RefreshKind,
}

/// One setting as the configuration answers it: what it is called, what it is set to, who set
/// it, and why it can only be read when it can only be read.
#[derive(Debug, Clone, PartialEq, Eq)]
pub struct Setting {
    pub id: SettingId,
    pub label: String,
    pub value: String,
    /// Who set it, as the screen prints it: `config file`, `default`.
    pub source: String,
    pub fixed: Option<String>,
}

/// One row of the screen.
#[derive(Debug, Clone, PartialEq, Eq)]
pub enum Row {
    /// One namespace of the refresh section: its own schedule, and the kinds under it when it
    /// is open.
    Namespace { name: String, value: String, source: String, open: bool, custom: usize },
    /// A dim rule with a word on it; never selected, always skipped.
    Heading(String),
    Setting {
        id: SettingId,
        label: String,
        value: String,
        source: String,
        /// Why this row can only be read, when it can only be read.
        fixed: Option<String>,
        /// Which kind this row schedules, for the per-kind refresh rows.
        kind: Option<String>,
        /// How long ago this kind's table last completed a cycle, already rendered.
        age: Option<String>,
    },
    /// One `[nav] hide` entry, as written.
    Hidden { name: String, source: String },
    /// One line standing in for an empty section.
    Note(String),
    /// An action rather than a setting: `enter` runs it.
    Run { label: String },
}

/// A row, as values.
pub enum RowV {
    Namespace { name: Seq<char>, value: Seq<char>, source: Seq<char>, open: bool, custom: nat },
    Heading(Seq<char>),
    Setting {
        id: SettingId,
        label: Seq<char>,
        value: Seq<char>,
        source: Seq<char>,
        fixed: Option<Seq<char>>,
        kind: Option<Seq<char>>,
        age: Option<Seq<char>>,
    },
    Hidden { name: Seq<char>, source: Seq<char> },
    Note(Seq<char>),
    Run { label: Seq<char> },
}

impl View for Row {
    type V = RowV;

    open spec fn view(&self) -> RowV {
        match self {
            Row::Namespace { name, value, source, open, custom } => RowV::Namespace {
                name: name@,
                value: value@,
                source: source@,
                open: *open,
                custom: *custom as nat,
            },
            Row::Heading(t) => RowV::Heading(t@),
            Row::Setting { id, label, value, source, fixed, kind, age } => RowV::Setting {
                id: *id,
                label: label@,
                value: value@,
                source: source@,
                fixed: opt_view(*fixed),
                kind: opt_view(*kind),
                age: opt_view(*age),
            },
            Row::Hidden { name, source } => RowV::Hidden { name: name@, source: source@ },
            Row::Note(t) => RowV::Note(t@),
            Row::Run { label } => RowV::Run { label: label@ },
        }
    }
}

/// The views of a list of rows.
pub open spec fn rows_view(v: Seq<Row>) -> Seq<RowV> {
    v.map_values(|r: Row| r@)
}

impl Row {
    /// A copy of this row.
    pub fn duplicate(&self) -> (r: Row)
        ensures
            r@ == self@,
    {
        match self {
            Row::Namespace { name, value, source, open, custom } => Row::Namespace {
                name: name.clone(),
                value: value.clone(),
                source: source.clone(),
                open: *open,
                custom: *custom,
            },
            Row::Heading(t) => Row::Heading(t.clone()),
            Row::Setting { id, label, value, source, fixed, kind, age } => Row::Setting {
                id: *id,
                label: label.clone(),
                value: value.clone(),
                source: source.clone(),
                fixed: copy_opt(fixed),
                kind: copy_opt(kind),
                age: copy_opt(age),
            },
            Row::Hidden { name, source } => Row::Hidden { name: name.clone(), source: source.clone() },
            Row::Note(t) => Row::Note(t.clone()),
            Row::Run { label } => Row::Run { label: label.clone() },
        }
    }
}

/// What a key did, for the app to act on.
#[derive(Debug, Clone, PartialEq, Eq)]
pub enum Action {
    Moved,
    /// `space`/`enter` on a switch this screen writes itself: the new value.
    Toggled(SettingId, bool),
    /// `enter` on the skin row: the skin list opens over this one.
    Skins,
    /// `space` on a refresh row: a ladder steps rather than a bit flipping.
    Cycled(SettingId, Option<String>),
    /// `space` on a namespace row: the same ladder, for the namespace.
    CycledNamespace(String),
    /// `enter` on a namespace row: show or hide its kinds.
    Expand(String),
    /// `enter` on the refresh-all row.
    RefreshAll,
    /// A setting whose own palette command owns the writer: the screen asks for the command.
    Cycle(SettingId),
    /// `a`: the palette opens on `hide `.
    Add,
    /// `d`: this `[nav] hide` entry goes.
    Remove(String),
    /// A row this screen can only show: its reason, for the status line.
    Fixed(String),
    Cancelled,
    Ignored,
}

/// Whether a row is a heading.
pub open spec fn is_heading(r: RowV) -> bool {
    r is Heading
}

/// What the screen lists.
pub struct Settings {
    pub rows: Vec<Row>,
    pub selected: usize,
}

/// The row for one setting: the skin row shows `skin`, the skin on screen.
pub open spec fn setting_row(s: Setting, skin: Seq<char>) -> RowV {
    RowV::Setting {
        id: s.id,
        label: s.label@,
        value: if s.id == SettingId::Skin { skin } else { s.value@ },
        source: s.source@,
        fixed: opt_view(s.fixed),
        kind: None,
        age: None,
    }
}

/// The rows of the screen, before any key.
pub open spec fn settings_rows(settings: Seq<Setting>, skin: Seq<char>, refresh: Seq<RowV>, hide_list: Seq<Seq<char>>) -> Seq<RowV> {
    let top = settings.map_values(|s: Setting| setting_row(s, skin));
    if settings.len() == 0 {
        seq![RowV::Note("no config file: nothing to change here"@)]
    } else {
        let hidden = if hide_list.len() == 0 {
            seq![RowV::Note("nothing hidden - a:add"@)]
        } else {
            hide_list.map_values(|name: Seq<char>| (RowV::Hidden { name, source: "config file"@ }))
        };
        let tail = if refresh.len() == 0 {
            Seq::empty()
        } else {
            seq![RowV::Heading("REFRESH"@), RowV::Run { label: "refresh everything now"@ }] + refresh
        };
        top + seq![RowV::Heading("HIDDEN"@)] + hidden + tail
    }
}

impl Settings {
    /// The first row and the last are never headings, so a cursor stepping over a heading
    /// always finds a row beyond it.
    pub open spec fn shape_ok(&self) -> bool {
        self.rows@.len() > 0 ==> !is_heading(self.rows@[0]@) && !is_heading(self.rows@.last()@)
    }

    /// The cursor is on a row, and that row is not a heading.
    pub open spec fn cursor_ok(&self) -> bool {
        self.rows@.len() > 0 ==> self.selected < self.rows@.len() && !is_heading(self.rows@[self.selected as int]@)
    }

    /// The screen: one row per setting - the skin row showing `skin`, the skin on screen, over
    /// the file's stale value - then the `[nav] hide` list under its heading, then the refresh
    /// section when there is one. With no settings at all, one line saying so.
    pub fn open(settings: &[Setting], skin: &str, refresh: &[Row], hide_list: &[String]) -> (s: Settings)
        ensures
            s.selected == 0,
            rows_view(s.rows@) == settings_rows(settings@, skin@, rows_view(refresh@), crate::catalog::strings_view(hide_list@)),
            refresh@.len() == 0 || !is_heading(refresh@.last()@) ==> s.shape_ok() && s.cursor_ok(),
    {
        let ghost top = settings@.map_values(|s: Setting| setting_row(s, skin@));
        let mut rows: Vec<Row> = Vec::new();
        let mut i: usize = 0;
        while i < settings.len()
            invariant
                i <= settings@.len(),
                top == settings@.map_values(|s: Setting| setting_row(s, skin@)),
                rows_view(rows@) == top.subrange(0, i as int),
            decreases settings.len() - i,
        {
            let st = &settings[i];
            let value = if st.id == SettingId::Skin { string_of(chars_of(skin).as_slice()) } else { st.value.clone() };
            let ghost before = rows_view(rows@);
            rows.push(Row::Setting {
                id: st.id,
                label: st.label.clone(),
                value,
                source: st.source.clone(),
                fixed: copy_opt(&st.fixed),
                kind: None,
                age: None,
            });
            proof {
                assert(rows_view(rows@) =~= before.push(top[i as int]));
                assert(top.subrange(0, i as int + 1) =~= top.subrange(0, i as int).push(top[i as int]));
            }
            i = i + 1;
        }
        proof {
            assert(top.subrange(0, top.len() as int) =~= top);
        }
        if rows.len() == 0 {
            rows.push(Row::Note("no config file: nothing to change here".to_string()));
            let s = Settings { rows, selected: 0 };
            proof {
                reveal_strlit("no config file: nothing to change here");
                assert(rows_view(s.rows@) =~= seq![RowV::Note("no config file: nothing to change here"@)]);
            }
            return s;
        }
        let ghost hv = crate::catalog::strings_view(hide_list@);
        rows.push(Row::Heading("HIDDEN".to_string()));
        let ghost after_heading = rows_view(rows@);
        if hide_list.len() == 0 {
            rows.push(Row::Note("nothing hidden - a:add".to_string()));
            proof {
                assert(rows_view(rows@) =~= after_heading + seq![RowV::Note("nothing hidden - a:add"@)]);
            }
        } else {
            let ghost hidden = hv.map_values(|name: Seq<char>| (RowV::Hidden { name, source: "config file"@ }));
            let mut k: usize = 0;
            while k < hide_list.len()
                invariant
                    k <= hide_list@.len(),
                    hv == crate::catalog::strings_view(hide_list@),
                    hidden == hv.map_values(|name: Seq<char>| (RowV::Hidden { name, source: "config file"@ })),
                    rows_view(rows@) == after_heading + hidden.subrange(0, k as int),
                decreases hide_list.len() - k,
            {
                let ghost before = rows_view(rows@);
                rows.push(Row::Hidden { name: hide_list[k].clone(), source: "config file".to_string() });
                proof {
                    assert(rows_view(rows@) =~= before.push(hidden[k as int]));
                    assert(hidden.subrange(0, k as int + 1) =~= hidden.subrange(0, k as int).push(hidden[k as int]));
                }
                k = k + 1;
            }
            proof {
                assert(hidden.subrange(0, hidden.len() as int) =~= hidden);
            }
        }
        let ghost middle = rows_view(rows@);
        if refresh.len() > 0 {
            rows.push(Row::Heading("REFRESH".to_string()));
            rows.push(Row::Run { label: "refresh everything now".to_string() });
            let ghost head = rows_view(rows@);
            let ghost rv = rows_view(refresh@);
            let mut k: usize = 0;
            while k < refresh.len()
                invariant
                    k <= refresh@.len(),
                    rv == rows_view(refresh@),
                    rows_view(rows@) == head + rv.subrange(0, k as int),
                decreases refresh.len() - k,
            {
                let ghost before = rows_view(rows@);
                rows.push(refresh[k].duplicate());
                proof {
                    assert(rows_view(rows@) =~= before.push(rv[k as int]));
                    assert(rv.subrange(0, k as int + 1) =~= rv.subrange(0, k as int).push(rv[k as int]));
                }
                k = k + 1;
            }
            proof {
                assert(rv.subrange(0, rv.len() as int) =~= rv);
                assert(head =~= middle + seq![RowV::Heading("REFRESH"@), RowV::Run { label: "refresh everything now"@ }]);
                assert(rows_view(rows@) =~= middle + (seq![RowV::Heading("REFRESH"@), RowV::Run { label: "refresh everything now"@ }] + rv));
            }
        } else {
            proof {
                assert(rows_view(rows@) =~= middle + Seq::<RowV>::empty());
            }
        }
        let s = Settings { rows, selected: 0 };
        proof {
            let rv = rows_view(s.rows@);
            assert(rv[0] == s.rows@[0]@);
            assert(rv.last() == s.rows@.last()@);
            assert(rv[0] == top[0]);
            if refresh@.len() > 0 {
                assert(rv.last() == rows_view(refresh@).last());
            } else if hide_list@.len() > 0 {
                assert(rv.last() is Hidden);
            }
        }
        s
    }
}

/// From `sel`, past any heading the way the cursor is going; at the bottom, with nothing past
/// the heading, one row back up instead.
pub open spec fn skip_spec(rows: Seq<RowV>, sel: int, down: bool) -> int
    decreases (if down { rows.len() - sel } else { sel }),
{
    if !(0 <= sel < rows.len() && is_heading(rows[sel])) {
        sel
    } else if down {
        if sel + 1 > rows.len() - 1 {
            if sel > 0 { sel - 1 } else { 0 }
        } else {
            skip_spec(rows, sel + 1, down)
        }
    } else if sel == 0 {
        0
    } else {
        skip_spec(rows, sel - 1, down)
    }
}

/// The last row's index, or `0` when there is none.
pub open spec fn last_index(len: int) -> int {
    if len == 0 { 0 } else { len - 1 }
}

/// One row the way the cursor is going, kept on the list.
pub open spec fn stepped(sel: int, len: int, down: bool) -> int {
    let moved = if down { if sel < usize::MAX { sel + 1 } else { sel } } else if sel > 0 { sel - 1 } else { 0 };
    if moved < last_index(len) { moved } else { last_index(len) }
}

/// What `space` or `enter` does on the row under the cursor.
pub open spec fn act_spec(row: Option<RowV>, key: Key, r: Action) -> bool {
    match row {
        Some(RowV::Setting { id, value, fixed, kind, .. }) => if fixed is Some {
            r matches Action::Fixed(why) && why@ == fixed->0
        } else if id == SettingId::Skin {
            r == Action::Skins
        } else if id == SettingId::Mouse || id == SettingId::Header || id == SettingId::Log {
            r == Action::Cycle(id)
        } else if id == SettingId::Refresh || id == SettingId::RefreshKind {
            r matches Action::Cycled(i, k) && i == id && opt_view(k) == kind
        } else {
            r == Action::Toggled(id, value != "on"@)
        },
        Some(RowV::Run { .. }) => r == Action::RefreshAll,
        Some(RowV::Namespace { name, .. }) => if key == Key::Enter {
            r matches Action::Expand(n) && n@ == name
        } else {
            r matches Action::CycledNamespace(n) && n@ == name
        },
        _ => r == Action::Ignored,
    }
}

/// What [`Settings::key`] does: `old` and `new` are the screen before and after, `r` what it
/// returns.
pub open spec fn settings_key_spec(old: Settings, key: Key, new: Settings, r: Action) -> bool {
    let rv = rows_view(old.rows@);
    let len = rv.len() as int;
    let sel = old.selected as int;
    let row = if 0 <= sel < len { Some(rv[sel]) } else { None };
    let moved = |at: int, down: bool| r == Action::Moved && new.selected == skip_spec(rv, at, down);
    match key {
        Key::Esc => r == Action::Cancelled && new.selected == old.selected,
        Key::Down | Key::Tab | Key::Char('j') => moved(stepped(sel, len, true), true),
        Key::Up | Key::BackTab | Key::Char('k') => moved(stepped(sel, len, false), false),
        Key::Char('g') | Key::Home => moved(0, true),
        Key::Char('G') | Key::End => moved(last_index(len), false),
        Key::Char('a') => r == Action::Add && new.selected == old.selected,
        Key::Char('d') => new.selected == old.selected && match row {
            Some(RowV::Hidden { name, .. }) => r matches Action::Remove(n) && n@ == name,
            _ => r == Action::Ignored,
        },
        Key::Char(' ') | Key::Enter => new.selected == old.selected && act_spec(row, key, r),
        _ => r == Action::Ignored && new.selected == old.selected,
    }
}

/// On a well-shaped list, skipping headings from a row of it ends on a row that is not one.
pub proof fn lemma_skip_lands(rows: Seq<RowV>, sel: int, down: bool)
    requires
        rows.len() > 0,
        !is_heading(rows[0]),
        !is_heading(rows.last()),
        0 <= sel < rows.len(),
    ensures
        0 <= skip_spec(rows, sel, down) < rows.len(),
        !is_heading(rows[skip_spec(rows, sel, down)]),
    decreases (if down { rows.len() - sel } else { sel }),
{
    if is_heading(rows[sel]) {
        if down {
            lemma_skip_lands(rows, sel + 1, down);
        } else {
            lemma_skip_lands(rows, sel - 1, down);
        }
    }
}

/// Where the cursor stands over `len` rebuilt rows when it stood at `was`: on the same row,
/// held to the last one.
pub open spec fn kept_cursor(was: int, len: int) -> int {
    if len <= 0 { 0 } else if was < len { was } else { len - 1 }
}

impl Settings {
    /// Rebuilt over fresh rows, with the cursor kept where it was - held to the last row - so a
    /// toggle or a `d` shows its effect without the screen closing.
    pub fn keep_cursor(&mut self, was: usize)
        ensures
            final(self).rows == old(self).rows,
            final(self).selected == kept_cursor(was as int, old(self).rows@.len() as int),
    {
        let n = self.rows.len();
        self.selected = if n == 0 { 0 } else if was < n { was } else { n - 1 };
    }
}

impl Settings {
    /// What one key does to the screen. The arrows, `j`/`k`, `g`/`G`, home and end move the
    /// cursor, past any heading in that direction; `a` asks to add a hide entry and `d` to
    /// remove the one under the cursor; `space` and `enter` do the row's own thing. Any screen
    /// takes any key; on one whose first and last rows are not headings, a move lands on a row that is
    /// not a heading.
    pub fn key(&mut self, key: Key) -> (r: Action)
        ensures
            final(self).rows == old(self).rows,
            settings_key_spec(*old(self), key, *final(self), r),
            old(self).shape_ok() && r == Action::Moved ==> final(self).cursor_ok(),
    {
        let n = self.rows.len();
        let last = if n == 0 { 0 } else { n - 1 };
        match key {
            Key::Esc => Action::Cancelled,
            Key::Down | Key::Tab | Key::Char('j') => self.step(true),
            Key::Up | Key::BackTab | Key::Char('k') => self.step(false),
            Key::Char('g') | Key::Home => {
                self.selected = 0;
                self.skip(true);
                Action::Moved
            },
            Key::Char('G') | Key::End => {
                self.selected = last;
                self.skip(false);
                Action::Moved
            },
            Key::Char('a') => Action::Add,
            Key::Char('d') => {
                if self.selected < n {
                    if let Row::Hidden { name, .. } = &self.rows[self.selected] {
                        return Action::Remove(name.clone());
                    }
                }
                Action::Ignored
            },
            Key::Char(' ') | Key::Enter => self.act(key),
            _ => Action::Ignored,
        }
    }

    /// `space` and `enter` do the row's own thing: a switch flips, the skin row opens the
    /// skin list, `mouse`, `header` and `log` ask for the commands that own them, a refresh
    /// row steps its ladder, and a fixed row explains itself instead of lying about writing.
    fn act(&self, key: Key) -> (r: Action)
        ensures
            act_spec(
                if self.selected < self.rows@.len() { Some(self.rows@[self.selected as int]@) } else { None },
                key,
                r,
            ),
    {
        if self.selected >= self.rows.len() {
            return Action::Ignored;
        }
        match &self.rows[self.selected] {
            Row::Setting { id, value, fixed, kind, .. } => {
                if let Some(why) = fixed {
                    return Action::Fixed(why.clone());
                }
                match id {
                    SettingId::Skin => Action::Skins,
                    SettingId::Mouse | SettingId::Header | SettingId::Log => Action::Cycle(*id),
                    SettingId::Refresh | SettingId::RefreshKind => Action::Cycled(*id, copy_opt(kind)),
                    _ => Action::Toggled(*id, !str_eq(value.as_str(), "on")),
                }
            },
            Row::Run { .. } => Action::RefreshAll,
            Row::Namespace { name, .. } => if key == Key::Enter {
                Action::Expand(name.clone())
            } else {
                Action::CycledNamespace(name.clone())
            },
            _ => Action::Ignored,
        }
    }

    /// One row, then past any heading in that direction.
    fn step(&mut self, down: bool) -> (r: Action)
        ensures
            final(self).rows == old(self).rows,
            r == Action::Moved,
            final(self).selected == skip_spec(
                rows_view(old(self).rows@),
                stepped(old(self).selected as int, old(self).rows@.len() as int, down),
                down,
            ),
            old(self).shape_ok() ==> final(self).cursor_ok(),
    {
        let n = self.rows.len();
        let last = if n == 0 { 0 } else { n - 1 };
        let moved = if down { self.selected.saturating_add(1) } else { self.selected.saturating_sub(1) };
        self.selected = if moved < last { moved } else { last };
        self.skip(down);
        Action::Moved
    }

    /// Past any heading under the cursor, in the direction given.
    fn skip(&mut self, down: bool)
        ensures
            final(self).rows == old(self).rows,
            final(self).selected == skip_spec(rows_view(old(self).rows@), old(self).selected as int, down),
            old(self).shape_ok() && old(self).rows@.len() > 0 && old(self).selected < old(self).rows@.len() ==> final(self).cursor_ok(),
            old(self).rows@.len() == 0 ==> final(self).cursor_ok(),
    {
        let ghost rv = rows_view(self.rows@);
        let ghost start = self.selected as int;
        proof {
            if self.shape_ok() && rv.len() > 0 && start < rv.len() {
                lemma_skip_lands(rv, start, down);
                assert(rv[0] == self.rows@[0]@);
                assert(rv.last() == self.rows@.last()@);
            }
        }
        let n = self.rows.len();
        let last = if n == 0 { 0 } else { n - 1 };
        loop
            invariant
                n == self.rows@.len(),
                last == last_index(n as int),
                rv == rows_view(self.rows@),
                self.rows == old(self).rows,
                start == old(self).selected as int,
                self.shape_ok() == old(self).shape_ok(),
                self.shape_ok() && rv.len() > 0 && start < rv.len() ==> 0 <= skip_spec(rv, start, down) < rv.len()
                    && !is_heading(rv[skip_spec(rv, start, down)]),
                skip_spec(rv, start, down) == skip_spec(rv, self.selected as int, down),
            decreases (if down { n - self.selected } else { self.selected as int }),
        {
            if self.selected >= n {
                return;
            }
            assert(rv[self.selected as int] == self.rows@[self.selected as int]@);
            if !self.rows[self.selected].is_heading() {
                return;
            }
            if down {
                if self.selected + 1 > last {
                    self.selected = if self.selected > 0 { self.selected - 1 } else { 0 };
                    return;
                }
                self.selected = self.selected + 1;
            } else {
                if self.selected == 0 {
                    assert(rv[0] == self.rows@[0]@);
                    return;
                }
                self.selected = self.selected - 1;
            }
        }
    }

    /// The `rows` rows to draw and the index the first of them has, framing the selection.
    pub fn window(&self, rows: usize) -> (r: (usize, &[Row]))
        requires
            self.selected < usize::MAX,
        ensures
            rows == 0 ==> r.0 == 0 && r.1@.len() == 0,
            rows > 0 ==> {
                let offset = window_offset(self.selected as int, rows as int);
                let end = if offset + rows < self.rows@.len() { offset + rows } else { self.rows@.len() as int };
                &&& r.0 == offset
                &&& r.1@ == self.rows@.subrange(if offset < end { offset } else { end }, end)
            },
    {
        window(self.rows.as_slice(), self.selected, rows)
    }
}

impl Row {
    /// Whether this row is a heading.
    pub fn is_heading(&self) -> (r: bool)
        ensures
            r == is_heading(self@),
    {
        match self {
            Row::Heading(_) => true,
            _ => false,
        }
    }
}

} // verus!

