//! The keys of a table that only move its cursor, scroll its columns or ask the poller for
//! something: the row under the cursor, the first column shown, and whether its polling is
//! stopped.

use vstd::prelude::*;
use crate::key::Key;

verus! {

/// Where a table view stands.
#[derive(Debug, Clone, Copy, PartialEq, Eq, Structural)]
pub struct TableCursor {
    /// The row under the cursor, among the rows that match the filter.
    pub selected: usize,
    /// The first column shown.
    pub col_offset: usize,
    /// Whether its polling was stopped with `ctrl-x`.
    pub stopped: bool,
}

/// What a table key asks of the poller.
#[derive(Debug, Clone, Copy, PartialEq, Eq, Structural)]
pub enum TableEffect {
    Nothing,
    /// `ctrl-r`: a cycle now.
    Refresh,
    /// `ctrl-x`: stop polling; the answer goes to [`record_stop`].
    Stop,
    /// `ctrl-t`: the next refresh interval.
    Retime,
}

/// The last row of `matching`, or zero when none does.
pub open spec fn last_row(matching: int) -> int {
    if matching <= 0 { 0 } else { matching - 1 }
}

pub open spec fn at_most(a: int, b: int) -> int {
    if a < b { a } else { b }
}

pub open spec fn down_by(a: int, b: int) -> int {
    if a > b { a - b } else { 0 }
}

/// The cursor after `key`, over `matching` rows and `max_offset` as the last column offset.
pub open spec fn moved(c: TableCursor, key: Key, matching: int, max_offset: int) -> TableCursor {
    let last = last_row(matching);
    match key {
        Key::Char('j') | Key::Down => TableCursor { selected: at_most(c.selected + 1, last) as usize, ..c },
        Key::Char('k') | Key::Up => TableCursor { selected: down_by(c.selected as int, 1) as usize, ..c },
        Key::Char('g') | Key::Home => TableCursor { selected: 0, ..c },
        Key::Char('G') | Key::End => TableCursor { selected: last as usize, ..c },
        Key::PageDown => TableCursor { selected: at_most(c.selected + 20, last) as usize, ..c },
        Key::PageUp => TableCursor { selected: down_by(c.selected as int, 20) as usize, ..c },
        Key::Left => TableCursor { col_offset: down_by(c.col_offset as int, 1) as usize, ..c },
        Key::Right => TableCursor { col_offset: at_most(c.col_offset + 1, max_offset) as usize, ..c },
        Key::Ctrl('r') => TableCursor { stopped: false, ..c },
        _ => c,
    }
}

/// What `key` asks of the poller.
pub open spec fn effect_of(key: Key) -> TableEffect {
    match key {
        Key::Ctrl('r') => TableEffect::Refresh,
        Key::Ctrl('x') => TableEffect::Stop,
        Key::Ctrl('t') => TableEffect::Retime,
        _ => TableEffect::Nothing,
    }
}

/// One key of a table. `matching` is how many rows the frame shows under the filter - `G` on a
/// filtered table goes to the last row that matches - and `max_offset` the last column offset
/// the table's columns allow.
pub fn move_in_table(v: &mut TableCursor, key: Key, matching: usize, max_offset: usize) -> (r: TableEffect)
    ensures
        *final(v) == moved(*old(v), key, matching as int, max_offset as int),
        r == effect_of(key),
        old(v).selected <= last_row(matching as int) ==> final(v).selected <= last_row(matching as int),
        old(v).col_offset <= max_offset ==> final(v).col_offset <= max_offset,
{
    let last: usize = if matching == 0 { 0 } else { matching - 1 };
    match key {
        Key::Char('j') | Key::Down => {
            let n = v.selected.saturating_add(1);
            v.selected = if n < last { n } else { last };
            TableEffect::Nothing
        },
        Key::Char('k') | Key::Up => {
            v.selected = if v.selected > 1 { v.selected - 1 } else { 0 };
            TableEffect::Nothing
        },
        Key::Char('g') | Key::Home => {
            v.selected = 0;
            TableEffect::Nothing
        },
        Key::Char('G') | Key::End => {
            v.selected = last;
            TableEffect::Nothing
        },
        Key::PageDown => {
            let n = v.selected.saturating_add(20);
            v.selected = if n < last { n } else { last };
            TableEffect::Nothing
        },
        Key::PageUp => {
            v.selected = if v.selected > 20 { v.selected - 20 } else { 0 };
            TableEffect::Nothing
        },
        Key::Left => {
            v.col_offset = if v.col_offset > 1 { v.col_offset - 1 } else { 0 };
            TableEffect::Nothing
        },
        Key::Right => {
            let n = v.col_offset.saturating_add(1);
            v.col_offset = if n < max_offset { n } else { max_offset };
            TableEffect::Nothing
        },
        Key::Ctrl('r') => {
            v.stopped = false;
            TableEffect::Refresh
        },
        Key::Ctrl('x') => TableEffect::Stop,
        Key::Ctrl('t') => TableEffect::Retime,
        _ => TableEffect::Nothing,
    }
}

/// What the poller answered to `ctrl-x`: the view records it, and the status line says whether
/// anything was stopped.
pub fn record_stop(v: &mut TableCursor, stopped: bool) -> (r: String)
    ensures
        *final(v) == (TableCursor { stopped, ..*old(v) }),
        r@ == if stopped { "stopped"@ } else { "nothing to stop"@ },
{
    v.stopped = stopped;
    proof {
        reveal_strlit("stopped");
        reveal_strlit("nothing to stop");
    }
    if stopped { "stopped".to_string() } else { "nothing to stop".to_string() }
}


/// Where a key on a table goes.
#[derive(Debug, Clone, Copy, PartialEq, Eq, Structural)]
pub enum TableKey {
    /// A page is up: its own, smaller set of keys.
    Page,
    /// A `/` term is being typed: the term's.
    Filter,
    /// `:` - the palette.
    Palette,
    /// `/` - a new term, or the standing one re-opened.
    OpenFilter,
    /// `enter` - into the row.
    Drill,
    /// `esc` - back.
    Back,
    /// `space` - mark the row and move down.
    Mark,
    /// `a` - the action menu.
    Menu,
    /// `q` - quit, or ask first.
    Quit,
    /// `y` - the detail pane.
    Detail,
    /// `S` - the next sort.
    Sort,
    /// `w` - wide columns.
    Wide,
    /// `?` - help, over the table.
    Help,
    /// A key the kind curates an action on: start it.
    Curated,
    /// Anything else: the cursor's and the poller's keys.
    Move,
}

/// Where `key` goes on a table. A page takes the keys first; a term being typed takes them
/// next, because `j` is a letter there; then the keys every table binds, which no kind can
/// curate; then the kind's own actions; the rest move the cursor.
pub open spec fn table_key_spec(key: Key, page_open: bool, filtering: bool, curated: bool) -> TableKey {
    if page_open {
        TableKey::Page
    } else if filtering {
        TableKey::Filter
    } else {
        match key {
            Key::Char(':') => TableKey::Palette,
            Key::Char('/') => TableKey::OpenFilter,
            Key::Enter => TableKey::Drill,
            Key::Esc => TableKey::Back,
            Key::Char(' ') => TableKey::Mark,
            Key::Char('a') => TableKey::Menu,
            Key::Char('q') => TableKey::Quit,
            Key::Char('y') => TableKey::Detail,
            Key::Char('S') => TableKey::Sort,
            Key::Char('w') => TableKey::Wide,
            Key::Char('?') => TableKey::Help,
            _ => if curated { TableKey::Curated } else { TableKey::Move },
        }
    }
}

/// Where a key on a table goes. `curated` is whether the kind on screen binds an action to the
/// key.
pub fn handle_table(key: Key, page_open: bool, filtering: bool, curated: bool) -> (r: TableKey)
    ensures
        r == table_key_spec(key, page_open, filtering, curated),
{
    if page_open {
        return TableKey::Page;
    }
    if filtering {
        return TableKey::Filter;
    }
    match key {
        Key::Char(':') => TableKey::Palette,
        Key::Char('/') => TableKey::OpenFilter,
        Key::Enter => TableKey::Drill,
        Key::Esc => TableKey::Back,
        Key::Char(' ') => TableKey::Mark,
        Key::Char('a') => TableKey::Menu,
        Key::Char('q') => TableKey::Quit,
        Key::Char('y') => TableKey::Detail,
        Key::Char('S') => TableKey::Sort,
        Key::Char('w') => TableKey::Wide,
        Key::Char('?') => TableKey::Help,
        _ => if curated { TableKey::Curated } else { TableKey::Move },
    }
}

/// The keys every table binds win over a kind's curated ones: no kind can take `q` or `/`.
pub proof fn bound_keys_win_over_curated_ones(key: Key, curated: bool)
    requires
        key == Key::Char('q') || key == Key::Char('/') || key == Key::Char(':') || key == Key::Enter || key == Key::Esc,
    ensures
        table_key_spec(key, false, false, curated) != TableKey::Curated,
        table_key_spec(key, false, false, curated) == table_key_spec(key, false, false, false),
{
}


/// After the rows change under it, the cursor cannot point past the end of the `matching` rows
/// the frame shows: a poll that returns a shorter list is the ordinary way this happens.
pub fn clamp_selection(v: &mut TableCursor, matching: usize)
    ensures
        *final(v) == (TableCursor { selected: at_most(old(v).selected as int, last_row(matching as int)) as usize, ..*old(v) }),
        final(v).selected <= last_row(matching as int),
{
    let last: usize = if matching == 0 { 0 } else { matching - 1 };
    if v.selected > last {
        v.selected = last;
    }
}

/// A page's panes after a message moved one of them: each pane's cursor held to its own rows,
/// `lens[i]` being pane `i`'s.
pub fn clamp_panes(selected: &mut Vec<usize>, lens: &Vec<usize>)
    requires
        old(selected)@.len() == lens@.len(),
    ensures
        final(selected)@.len() == old(selected)@.len(),
        forall|i: int| 0 <= i < lens@.len() ==> #[trigger] final(selected)@[i] == at_most(old(selected)@[i] as int, last_row(lens@[i] as int)),
        forall|i: int| 0 <= i < lens@.len() ==> #[trigger] final(selected)@[i] <= last_row(lens@[i] as int),
{
    let ghost was = selected@;
    let mut i: usize = 0;
    while i < selected.len()
        invariant
            i <= selected@.len(),
            selected@.len() == was.len(),
            was.len() == lens@.len(),
            forall|j: int| 0 <= j < i ==> #[trigger] selected@[j] == at_most(was[j] as int, last_row(lens@[j] as int)),
            forall|j: int| i <= j < was.len() ==> #[trigger] selected@[j] == was[j],
        decreases selected.len() - i,
    {
        let n = lens[i];
        let last: usize = if n == 0 { 0 } else { n - 1 };
        if selected[i] > last {
            selected.set(i, last);
        }
        i = i + 1;
    }
}

} // verus!
