//! Input the app understands from a pointer, independent of any terminal library, plus the hit
//! map the last frame recorded as it drew.

use vstd::prelude::*;

verus! {

#[derive(Debug, Clone, Copy, PartialEq, Eq, Structural)]
pub enum MouseKind {
    Click,
    WheelUp,
    WheelDown,
    WheelLeft,
    WheelRight,
}

#[derive(Debug, Clone, Copy, PartialEq, Eq, Structural)]
pub struct Mouse {
    pub kind: MouseKind,
    pub col: u16,
    pub row: u16,
}

/// A pointer button.
#[derive(Debug, Clone, Copy, PartialEq, Eq, Structural)]
pub enum Button {
    Left,
    Right,
    Middle,
}

/// Everything a terminal reports a pointer doing.
#[derive(Debug, Clone, Copy, PartialEq, Eq, Structural)]
pub enum Gesture {
    Down(Button),
    Up(Button),
    Drag(Button),
    Moved,
    ScrollUp,
    ScrollDown,
    ScrollLeft,
    ScrollRight,
}

/// What a gesture is to the app: the kind of pointer input it stands for, when it is one.
pub open spec fn kind_of(g: Gesture) -> Option<MouseKind> {
    match g {
        Gesture::Down(Button::Left) => Some(MouseKind::Click),
        Gesture::ScrollUp => Some(MouseKind::WheelUp),
        Gesture::ScrollDown => Some(MouseKind::WheelDown),
        Gesture::ScrollLeft => Some(MouseKind::WheelLeft),
        Gesture::ScrollRight => Some(MouseKind::WheelRight),
        _ => None,
    }
}

/// The pointer gestures the app understands: a left click and the wheel. Everything else is
/// dropped where it arrives: any-event tracking reports a move per cell the pointer crosses,
/// and a drag one per cell too, and a frame per cell of travel is a frame wasted.
pub fn mouse_of(gesture: Gesture, col: u16, row: u16) -> (r: Option<Mouse>)
    ensures
        r == (match kind_of(gesture) {
            Some(kind) => Some(Mouse { kind, col, row }),
            None => None,
        }),
{
    let kind = match gesture {
        Gesture::Down(Button::Left) => MouseKind::Click,
        Gesture::ScrollUp => MouseKind::WheelUp,
        Gesture::ScrollDown => MouseKind::WheelDown,
        Gesture::ScrollLeft => MouseKind::WheelLeft,
        Gesture::ScrollRight => MouseKind::WheelRight,
        _ => return None,
    };
    Some(Mouse { kind, col, row })
}

/// A rectangle of terminal cells.
#[derive(Debug, Clone, Copy, PartialEq, Eq, Structural, Default)]
pub struct Rect {
    pub x: u16,
    pub y: u16,
    pub width: u16,
    pub height: u16,
}

/// `a + b`, held at `u16::MAX`.
pub open spec fn sat_add(a: u16, b: u16) -> int {
    if a + b > u16::MAX { u16::MAX as int } else { a + b }
}

/// Whether `m` is inside `r`.
pub open spec fn inside(r: Rect, m: Mouse) -> bool {
    m.col >= r.x && m.col < sat_add(r.x, r.width) && m.row >= r.y && m.row < sat_add(r.y, r.height)
}

/// Whether `m` is inside `r`.
pub fn contains(r: Rect, m: Mouse) -> (b: bool)
    ensures
        b == inside(r, m),
{
    m.col >= r.x && m.col < r.x.saturating_add(r.width) && m.row >= r.y && m.row < r.y.saturating_add(
        r.height,
    )
}

/// The index of the entry under `m`: the offset plus the distance from the top row, or `None`
/// outside the rows and past the last one.
pub open spec fn index_spec(rows: Rect, offset: usize, len: usize, m: Mouse) -> Option<usize> {
    if !inside(rows, m) {
        None
    } else {
        let i = offset + (m.row - rows.y);
        if i < len { Some(i as usize) } else { None }
    }
}

/// The index of the entry under `m`, or `None` outside the rows and past the last one - a
/// click in the empty space below the last row selects nothing.
fn index_in(rows: Rect, offset: usize, len: usize, m: Mouse) -> (r: Option<usize>)
    requires
        offset <= usize::MAX - 65535,
    ensures
        r == index_spec(rows, offset, len, m),
{
    if !contains(rows, m) {
        return None;
    }
    let i = offset + ((m.row - rows.y) as usize);
    if i < len { Some(i) } else { None }
}

/// What the last frame laid out: recorded while it drew, never recomputed.
#[derive(Default)]
pub struct Hits {
    pub sidebar: Option<ListHit>,
    /// The table view, or one entry per page pane that drew rows, in draw order.
    pub tables: Vec<TableHit>,
    /// A modal's list, when one is open: everything outside it is inert.
    pub modal: Option<ListHit>,
    /// The header's version line: a click here opens the settings screen.
    pub version: Option<Rect>,
}

/// A drawn list: its rows, its scroll offset, its length.
pub struct ListHit {
    pub rows: Rect,
    pub offset: usize,
    pub len: usize,
}

/// A drawn table.
pub struct TableHit {
    /// `None` for the table view; the pane's index otherwise.
    pub pane: Option<usize>,
    /// The whole bordered area: a click here focuses the pane.
    pub block: Rect,
    /// One row.
    pub header: Rect,
    pub rows: Rect,
    pub offset: usize,
    pub len: usize,
    /// `(x, width, index into the view's full column list)` for each drawn column.
    pub columns: Vec<(u16, u16, usize)>,
}

impl ListHit {
    pub fn index_at(&self, m: Mouse) -> (r: Option<usize>)
        requires
            self.offset <= usize::MAX - 65535,
        ensures
            r == index_spec(self.rows, self.offset, self.len, m),
    {
        index_in(self.rows, self.offset, self.len, m)
    }
}

/// Whether `col` is inside the span that starts at `x` and is `w` cells wide.
pub open spec fn in_span(col: u16, x: u16, w: u16) -> bool {
    col >= x && col < sat_add(x, w)
}

impl TableHit {
    pub fn index_at(&self, m: Mouse) -> (r: Option<usize>)
        requires
            self.offset <= usize::MAX - 65535,
        ensures
            r == index_spec(self.rows, self.offset, self.len, m),
    {
        index_in(self.rows, self.offset, self.len, m)
    }

    /// The index into the view's full column list of the first drawn column whose span holds
    /// the pointer; `None` over a gap between columns or past the last.
    pub fn column_at(&self, m: Mouse) -> (r: Option<usize>)
        ensures
            r matches Some(i) ==> exists|k: int|
                0 <= k < self.columns@.len() && in_span(m.col, self.columns@[k].0, self.columns@[k].1)
                    && self.columns@[k].2 == i && forall|j: int| 0 <= j < k ==> !in_span(
                    m.col,
                    #[trigger] self.columns@[j].0,
                    self.columns@[j].1,
                ),
            r is None ==> forall|k: int|
                0 <= k < self.columns@.len() ==> !in_span(m.col, #[trigger] self.columns@[k].0, self.columns@[k].1),
            r == first_column(self.columns@, m.col, 0),
    {
        let mut k: usize = 0;
        while k < self.columns.len()
            invariant
                k <= self.columns@.len(),
                forall|j: int| 0 <= j < k ==> !in_span(m.col, #[trigger] self.columns@[j].0, self.columns@[j].1),
                first_column(self.columns@, m.col, 0) == first_column(self.columns@, m.col, k as int),
            decreases self.columns.len() - k,
        {
            let (x, w, i) = self.columns[k];
            if m.col >= x && m.col < x.saturating_add(w) {
                return Some(i);
            }
            k = k + 1;
        }
        None
    }
}


/// The index into the full column list of the first drawn column, from the `k`th on, whose
/// span holds `col`.
pub open spec fn first_column(cols: Seq<(u16, u16, usize)>, col: u16, k: int) -> Option<usize>
    decreases cols.len() - k,
{
    if k < 0 || k >= cols.len() {
        None
    } else if in_span(col, cols[k].0, cols[k].1) {
        Some(cols[k].2)
    } else {
        first_column(cols, col, k + 1)
    }
}

/// Which table a landing is in.
#[derive(Debug, Clone, Copy, PartialEq, Eq, Structural)]
pub enum Target {
    /// The table view.
    Table,
    /// A pane of the open page, by its index.
    Pane(usize),
}

/// What the pointer landed on, read off the last frame's hit map before anything moves.
#[derive(Debug, Clone, Copy, PartialEq, Eq, Structural)]
pub enum Landed {
    Nothing,
    /// The header's version line.
    Version,
    /// An entry of the open modal's list.
    Modal(usize),
    ModalWheel(bool),
    /// A row of the menu, which `enter` would open.
    Menu(usize),
    MenuWheel(bool),
    /// A row of a table or a pane.
    Row { target: Target, row: usize },
    /// A header of a table or a pane, naming a column of the view's full list.
    Header { target: Target, column: usize },
    /// A table's block but not its rows: its border, its title, its empty area.
    Block { target: Target },
    /// The wheel over a table or a pane; `down` says which way.
    Wheel { target: Target, down: bool },
    /// The sideways wheel over the table view: scroll its columns.
    Columns { right: bool },
}

/// Whether every list in the hit map scrolls within what an index can hold.
pub open spec fn hits_ok(h: Hits) -> bool {
    &&& (h.modal matches Some(l) ==> l.offset <= usize::MAX - 65535)
    &&& (h.sidebar matches Some(l) ==> l.offset <= usize::MAX - 65535)
    &&& forall|i: int| 0 <= i < h.tables@.len() ==> #[trigger] h.tables@[i].offset <= usize::MAX - 65535
}

/// The first table, from the `k`th on, whose block holds `m`.
pub open spec fn first_block(tables: Seq<TableHit>, m: Mouse, k: int) -> Option<int>
    decreases tables.len() - k,
{
    if k < 0 || k >= tables.len() {
        None
    } else if inside(tables[k].block, m) {
        Some(k)
    } else {
        first_block(tables, m, k + 1)
    }
}

/// Where `m` lands in a table whose block holds it. A click on the header names the column
/// under it; a click on a row selects it; anything else in the block only focuses it. The
/// sideways wheel scrolls the table view's columns, and a pane has none to scroll.
pub open spec fn table_landing(t: TableHit, m: Mouse) -> Landed {
    let target = match t.pane {
        None => Target::Table,
        Some(p) => Target::Pane(p),
    };
    match m.kind {
        MouseKind::Click => if inside(t.header, m) {
            match first_column(t.columns@, m.col, 0) {
                Some(column) => Landed::Header { target, column },
                None => Landed::Block { target },
            }
        } else {
            match index_spec(t.rows, t.offset, t.len, m) {
                Some(row) => Landed::Row { target, row },
                None => Landed::Block { target },
            }
        },
        MouseKind::WheelDown => Landed::Wheel { target, down: true },
        MouseKind::WheelUp => Landed::Wheel { target, down: false },
        MouseKind::WheelLeft => if target == Target::Table { Landed::Columns { right: false } } else { Landed::Nothing },
        MouseKind::WheelRight => if target == Target::Table { Landed::Columns { right: true } } else { Landed::Nothing },
    }
}

/// Where `m` lands. Over anything but the table a modal owns the pointer, and everything
/// outside its list is inert: a stray click must not throw away a half-typed command. Over
/// the table: the version line, then the menu, then the first table whose block holds the
/// pointer; the header box, the prompt and the status line are nothing.
pub open spec fn landed_spec(h: Hits, table_up: bool, m: Mouse) -> Landed {
    if !table_up {
        match h.modal {
            Some(l) => match m.kind {
                MouseKind::Click => match index_spec(l.rows, l.offset, l.len, m) {
                    Some(i) => Landed::Modal(i),
                    None => Landed::Nothing,
                },
                MouseKind::WheelDown => if inside(l.rows, m) { Landed::ModalWheel(true) } else { Landed::Nothing },
                MouseKind::WheelUp => if inside(l.rows, m) { Landed::ModalWheel(false) } else { Landed::Nothing },
                _ => Landed::Nothing,
            },
            None => Landed::Nothing,
        }
    } else if m.kind == MouseKind::Click && (h.version matches Some(v) && inside(v, m)) {
        Landed::Version
    } else if h.sidebar matches Some(l) && inside(l.rows, m) {
        let l = h.sidebar->0;
        match m.kind {
            MouseKind::Click => match index_spec(l.rows, l.offset, l.len, m) {
                Some(i) => Landed::Menu(i),
                None => Landed::Nothing,
            },
            MouseKind::WheelDown => Landed::MenuWheel(true),
            MouseKind::WheelUp => Landed::MenuWheel(false),
            _ => Landed::Nothing,
        }
    } else {
        match first_block(h.tables@, m, 0) {
            Some(i) => table_landing(h.tables@[i], m),
            None => Landed::Nothing,
        }
    }
}

/// Where a table's own landing goes.
fn land_in_table(t: &TableHit, m: Mouse) -> (r: Landed)
    requires
        t.offset <= usize::MAX - 65535,
        inside(t.block, m),
    ensures
        r == table_landing(*t, m),
{
    let target = match t.pane {
        None => Target::Table,
        Some(p) => Target::Pane(p),
    };
    match m.kind {
        MouseKind::Click => if contains(t.header, m) {
            match t.column_at(m) {
                Some(column) => Landed::Header { target, column },
                None => Landed::Block { target },
            }
        } else {
            match t.index_at(m) {
                Some(row) => Landed::Row { target, row },
                None => Landed::Block { target },
            }
        },
        MouseKind::WheelDown => Landed::Wheel { target, down: true },
        MouseKind::WheelUp => Landed::Wheel { target, down: false },
        MouseKind::WheelLeft => if target == Target::Table { Landed::Columns { right: false } } else { Landed::Nothing },
        MouseKind::WheelRight => if target == Target::Table { Landed::Columns { right: true } } else { Landed::Nothing },
    }
}

/// Where a pointer event landed, read off the hit map and nothing else. `table_up` is whether
/// the table is the screen that is up.
pub fn landed(h: &Hits, table_up: bool, m: Mouse) -> (r: Landed)
    requires
        hits_ok(*h),
    ensures
        r == landed_spec(*h, table_up, m),
{
    if !table_up {
        return match &h.modal {
            Some(l) => match m.kind {
                MouseKind::Click => match l.index_at(m) {
                    Some(i) => Landed::Modal(i),
                    None => Landed::Nothing,
                },
                MouseKind::WheelDown => if contains(l.rows, m) { Landed::ModalWheel(true) } else { Landed::Nothing },
                MouseKind::WheelUp => if contains(l.rows, m) { Landed::ModalWheel(false) } else { Landed::Nothing },
                _ => Landed::Nothing,
            },
            None => Landed::Nothing,
        };
    }
    if m.kind == MouseKind::Click {
        if let Some(v) = h.version {
            if contains(v, m) {
                return Landed::Version;
            }
        }
    }
    if let Some(l) = &h.sidebar {
        if contains(l.rows, m) {
            return match m.kind {
                MouseKind::Click => match l.index_at(m) {
                    Some(i) => Landed::Menu(i),
                    None => Landed::Nothing,
                },
                MouseKind::WheelDown => Landed::MenuWheel(true),
                MouseKind::WheelUp => Landed::MenuWheel(false),
                _ => Landed::Nothing,
            };
        }
    }
    let mut k: usize = 0;
    while k < h.tables.len()
        invariant
            k <= h.tables@.len(),
            hits_ok(*h),
            table_up,
            !(m.kind == MouseKind::Click && (h.version matches Some(v) && inside(v, m))),
            !(h.sidebar matches Some(l) && inside(l.rows, m)),
            first_block(h.tables@, m, 0) == first_block(h.tables@, m, k as int),
        decreases h.tables.len() - k,
    {
        let t = &h.tables[k];
        if contains(t.block, m) {
            return land_in_table(t, m);
        }
        k = k + 1;
    }
    Landed::Nothing
}

} // verus!
