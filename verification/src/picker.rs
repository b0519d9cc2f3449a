//! `enter` on a row: what can be opened **under** it, and what can be **done to** it. It owns
//! its filter and its scroll window, and it knows which of either the row cannot reach.
//!
//! The two groups are captioned, and a caption is a row of the list rather than a decoration on
//! the box: the filter can empty a group, the window can start halfway down one, and a caption
//! that lived outside the list would go on naming rows that are no longer under it.

use vstd::prelude::*;
use crate::ascii::{chars_of, contains_chars, contains_spec, fold_chars, fold_seq, push_char, slice_chars, string_of};
use crate::catalog::{copy_opt, opt_view, KindRef, KindV, Reach};
use crate::key::Key;
use crate::menu::{self, boundary, boundary_spec, rows_view, ActionRef, ActionV, RowV};
use crate::palette::{window, window_offset};

verus! {

/// The groups the box lists, in the order it lists them.
#[derive(Debug, Clone, Copy, PartialEq, Eq, Structural)]
pub enum Group {
    /// The child kinds this row can be drilled into.
    Related,
    /// The actions that run on this row, as somebody curated them.
    Actions,
    /// The rest of the actions, under the names the generator lifted out of the spec.
    Raw,
}

/// How deeply a group's caption is nested.
pub open spec fn level_spec(g: Group) -> u8 {
    match g {
        Group::Related | Group::Actions => 0,
        Group::Raw => 1,
    }
}

impl Group {
    /// What the caption reads. Lower case with its own spaces: it is a rule through the list,
    /// not a heading over a page.
    pub fn caption(self) -> (r: &'static str)
        ensures
            r@ == (match self {
                Group::Related => " related "@,
                Group::Actions => " actions "@,
                Group::Raw => " raw API names "@,
            }),
    {
        match self {
            Group::Related => " related ",
            Group::Actions => " actions ",
            Group::Raw => crate::menu::RAW_CAPTION,
        }
    }

    /// How deeply a caption is nested: a group's own rule, or a rule *inside* a group.
    /// `related` and `actions` are siblings; `raw API names` sits inside `actions`.
    pub fn level(self) -> (r: u8)
        ensures
            r == level_spec(self),
    {
        match self {
            Group::Related | Group::Actions => 0,
            Group::Raw => 1,
        }
    }
}

/// A row of the picker.
#[derive(Debug, Clone, PartialEq, Eq)]
pub enum Entry {
    /// The rule that names the group below it. Never selectable, and never last.
    Caption(Group),
    /// A child kind, with the reason it cannot be opened under this row when there is one.
    Child { kind: KindRef, reason: Option<String> },
    /// An action on this row, with the reason it cannot run when there is one.
    Act { action: ActionRef, reason: Option<String> },
}

/// A row of the picker, as values.
pub enum EntryV {
    Caption(Group),
    Child { kind: KindV, reason: Option<Seq<char>> },
    Act { action: ActionV, reason: Option<Seq<char>> },
}

impl View for Entry {
    type V = EntryV;

    open spec fn view(&self) -> EntryV {
        match self {
            Entry::Caption(g) => EntryV::Caption(*g),
            Entry::Child { kind, reason } => EntryV::Child { kind: kind@, reason: opt_view(*reason) },
            Entry::Act { action, reason } => EntryV::Act { action: action@, reason: opt_view(*reason) },
        }
    }
}

/// The views of a list of rows.
pub open spec fn entries_view(v: Seq<Entry>) -> Seq<EntryV> {
    v.map_values(|e: Entry| e@)
}

/// Whether a row is a caption.
pub open spec fn is_caption(e: EntryV) -> bool {
    e is Caption
}

/// Whether typing `needle` (already folded) keeps a row. A caption never answers.
pub open spec fn entry_matches(e: EntryV, needle: Seq<char>) -> bool {
    match e {
        EntryV::Caption(_) => false,
        EntryV::Child { kind, .. } => contains_spec(fold_seq(kind.display), needle) || contains_spec(fold_seq(kind.id), needle),
        EntryV::Act { action, .. } => contains_spec(fold_seq(action.title), needle) || contains_spec(action.name, needle),
    }
}

impl Entry {
    /// A copy of this row.
    pub fn duplicate(&self) -> (r: Entry)
        ensures
            r@ == self@,
    {
        match self {
            Entry::Caption(g) => Entry::Caption(*g),
            Entry::Child { kind, reason } => Entry::Child { kind: kind.duplicate(), reason: copy_opt(reason) },
            Entry::Act { action, reason } => Entry::Act { action: action.duplicate(), reason: copy_opt(reason) },
        }
    }

    /// Why this row cannot be taken, when it cannot.
    pub fn reason(&self) -> (r: Option<&str>)
        ensures
            match self@ {
                EntryV::Caption(_) => r is None,
                EntryV::Child { reason, .. } | EntryV::Act { reason, .. } => match r {
                    Some(s) => reason == Some(s@),
                    None => reason is None,
                },
            },
    {
        match self {
            Entry::Caption(_) => None,
            Entry::Child { reason, .. } | Entry::Act { reason, .. } => match reason {
                Some(s) => Some(s.as_str()),
                None => None,
            },
        }
    }

    /// Whether this row is a caption.
    pub fn is_caption(&self) -> (r: bool)
        ensures
            r == is_caption(self@),
    {
        match self {
            Entry::Caption(_) => true,
            _ => false,
        }
    }

    /// Whether typing `needle` (already folded) keeps this row.
    fn matches(&self, needle: &[char]) -> (r: bool)
        ensures
            r == entry_matches(self@, needle@),
    {
        match self {
            Entry::Caption(_) => false,
            Entry::Child { kind, .. } => {
                let display = chars_of(kind.display.as_str());
                let display = fold_chars(display.as_slice());
                if contains_chars(display.as_slice(), needle) {
                    true
                } else {
                    let id = chars_of(kind.id.as_str());
                    let id = fold_chars(id.as_slice());
                    contains_chars(id.as_slice(), needle)
                }
            },
            Entry::Act { action, .. } => {
                let title = chars_of(action.title.as_str());
                let title = fold_chars(title.as_slice());
                if contains_chars(title.as_slice(), needle) {
                    true
                } else {
                    let name = chars_of(action.name.as_str());
                    contains_chars(name.as_slice(), needle)
                }
            },
        }
    }
}

/// What a key did, for the app to act on.
#[derive(Debug, Clone, PartialEq, Eq)]
pub enum Event {
    Filtered,
    Moved,
    /// Open this child kind under the row.
    Chose(KindRef),
    /// Run this action on the row.
    Run(ActionRef),
    Cancelled,
    Ignored,
}

/// The actions group: its caption, then every action, with the raw-names rule before the first
/// uncurated one when there are some of each.
pub open spec fn action_rows_upto(acts: Seq<RowV>, at: Option<int>, n: int) -> Seq<EntryV>
    decreases n,
{
    if n <= 0 {
        Seq::empty()
    } else {
        let before = action_rows_upto(acts, at, n - 1);
        let with_rule = if at == Some(n - 1) { before.push(EntryV::Caption(Group::Raw)) } else { before };
        with_rule.push(EntryV::Act { action: acts[n - 1].action, reason: acts[n - 1].reason })
    }
}

/// The child kinds, each with its reason.
pub open spec fn child_rows(children: Seq<KindV>, reasons: Seq<Option<Seq<char>>>) -> Seq<EntryV> {
    Seq::new(children.len(), |i: int| EntryV::Child { kind: children[i], reason: reasons[i] })
}

/// Every row the picker lists, before any filter: the related group when there are children,
/// then the actions group when there are actions.
pub open spec fn picker_rows(children: Seq<KindV>, reasons: Seq<Option<Seq<char>>>, acts: Seq<RowV>) -> Seq<EntryV> {
    let related = if children.len() > 0 {
        seq![EntryV::Caption(Group::Related)] + child_rows(children, reasons)
    } else {
        Seq::empty()
    };
    let actions = if acts.len() > 0 {
        seq![EntryV::Caption(Group::Actions)] + action_rows_upto(acts, boundary_spec(acts), acts.len() as int)
    } else {
        Seq::empty()
    };
    related + actions
}

/// The reason a child kind is greyed with: the session's answer for a kind listed under its
/// parent, the catalog's own note otherwise.
pub open spec fn child_reason_ok<F: Fn(&KindRef) -> Option<String>>(unavailable: F, kind: KindRef, reason: Option<Seq<char>>) -> bool {
    if kind.reach == Reach::FromParent {
        exists|r: Option<String>| #[trigger] call_ensures(unavailable, (&kind,), r) && reason == opt_view(r)
    } else {
        reason == opt_view(kind.note)
    }
}

/// The `enter` picker over one row.
pub struct Picker {
    pub parent: KindRef,
    pub parent_ext_id: String,
    pub parent_name: String,
    /// Every child of the parent kind and every action on the row, captions included, in the
    /// order the box lists them.
    pub rows: Vec<Entry>,
    pub input: String,
    pub selected: usize,
    /// The rows the input matches; what the box shows and `selected` indexes.
    pub entries: Vec<Entry>,
}

/// Whether typing `needle` (already folded) keeps a row that is not a caption.
pub open spec fn kept(e: EntryV, needle: Seq<char>) -> bool {
    needle.len() == 0 || entry_matches(e, needle)
}

/// The pending captions that sit outside a caption of nesting `level`: the ones a new caption
/// at that level keeps.
pub open spec fn outer(pending: Seq<EntryV>, level: u8) -> Seq<EntryV>
    decreases pending.len(),
{
    if pending.len() == 0 {
        Seq::empty()
    } else {
        let rest = outer(pending.drop_last(), level);
        let p = pending.last();
        if p matches EntryV::Caption(g) && level_spec(g) < level { rest.push(p) } else { rest }
    }
}

/// The filter over the first `n` rows: what has been listed, and the captions still waiting
/// for a row under them. A caption drops the waiting captions it is not nested in and waits;
/// a row the needle keeps is listed after the captions waiting above it.
pub open spec fn refresh_upto(rows: Seq<EntryV>, needle: Seq<char>, n: int) -> (Seq<EntryV>, Seq<EntryV>)
    decreases n,
{
    if n <= 0 {
        (Seq::empty(), Seq::empty())
    } else {
        let (listed, pending) = refresh_upto(rows, needle, n - 1);
        let row = rows[n - 1];
        match row {
            EntryV::Caption(g) => (listed, outer(pending, level_spec(g)).push(row)),
            _ => if kept(row, needle) {
                ((listed + pending).push(row), Seq::empty())
            } else {
                (listed, pending)
            },
        }
    }
}

/// What the box lists under `needle`.
pub open spec fn refreshed(rows: Seq<EntryV>, needle: Seq<char>) -> Seq<EntryV> {
    refresh_upto(rows, needle, rows.len() as int).0
}

/// Whether entry `i` takes the cursor: anything but a caption, or no entry at all.
pub open spec fn takes(e: Seq<EntryV>, i: int) -> bool {
    !(0 <= i < e.len() && is_caption(e[i]))
}

/// The first index from `i` up to `last` that takes the cursor.
pub open spec fn forward(e: Seq<EntryV>, i: int, last: int) -> Option<int>
    decreases last + 1 - i,
{
    if i > last {
        None
    } else if takes(e, i) {
        Some(i)
    } else {
        forward(e, i + 1, last)
    }
}

/// The last index below `i` that takes the cursor.
pub open spec fn backward(e: Seq<EntryV>, i: int) -> Option<int>
    decreases i,
{
    if i <= 0 {
        None
    } else if takes(e, i - 1) {
        Some(i - 1)
    } else {
        backward(e, i - 1)
    }
}

/// `index` unless it is a caption, in which case the nearest row the way the cursor was going,
/// or - at the end of the list - the other way.
pub open spec fn past_caption_spec(e: Seq<EntryV>, index: int, down: bool) -> int {
    if takes(e, index) {
        index
    } else {
        let last = if e.len() == 0 { 0 } else { e.len() - 1 };
        let first = if down { forward(e, index, last) } else { backward(e, index) };
        let second = if down { backward(e, index) } else { forward(e, index, last) };
        match first {
            Some(j) => j,
            None => match second {
                Some(j) => j,
                None => index,
            },
        }
    }
}

/// Where the cursor stands among `len` entries after it is pulled back onto them.
pub open spec fn clamp(selected: int, len: int) -> int {
    if len == 0 { 0 } else if selected < len - 1 { selected } else { len - 1 }
}

impl Picker {
    /// The entries are the rows the input keeps, and the cursor is on one of them that is not a
    /// caption, or at `0` when there is none.
    pub open spec fn wf(&self) -> bool {
        &&& entries_view(self.entries@) == refreshed(entries_view(self.rows@), fold_seq(self.input@))
        &&& (self.entries@.len() == 0 ==> self.selected == 0)
        &&& (self.entries@.len() > 0 ==> self.selected < self.entries@.len()
            && !is_caption(entries_view(self.entries@)[self.selected as int]))
    }

    /// `index` unless it is a caption, in which case the nearest row the way the cursor was
    /// going, or - at the end of the list - the other way.
    fn past_caption(&self, index: usize, down: bool) -> (r: usize)
        ensures
            r == past_caption_spec(entries_view(self.entries@), index as int, down),
    {
        let ghost e = entries_view(self.entries@);
        let n = self.entries.len();
        if index >= n || !self.entries[index].is_caption() {
            return index;
        }
        assert(e[index as int] == self.entries@[index as int]@);
        let last = if n == 0 { 0 } else { n - 1 };
        let fwd = self.forward_from(index, last);
        let back = self.backward_from(index);
        if down {
            match fwd {
                Some(j) => j,
                None => match back {
                    Some(j) => j,
                    None => index,
                },
            }
        } else {
            match back {
                Some(j) => j,
                None => match fwd {
                    Some(j) => j,
                    None => index,
                },
            }
        }
    }

    /// The first index from `i` up to `last` that takes the cursor.
    fn forward_from(&self, i: usize, last: usize) -> (r: Option<usize>)
        requires
            last < self.entries@.len(),
        ensures
            forward(entries_view(self.entries@), i as int, last as int) == (match r {
                Some(j) => Some(j as int),
                None => None::<int>,
            }),
            r matches Some(j) ==> i <= j <= last,
    {
        let ghost e = entries_view(self.entries@);
        let n = self.entries.len();
        let mut k: usize = i;
        while k <= last
            invariant
                i <= k,
                n == self.entries@.len(),
                last < n,
                e == entries_view(self.entries@),
                forward(e, i as int, last as int) == forward(e, k as int, last as int),
            decreases last + 1 - k,
        {
            if !self.entries[k].is_caption() {
                return Some(k);
            }
            k = k + 1;
        }
        None
    }

    /// The last index below `i` that takes the cursor.
    fn backward_from(&self, i: usize) -> (r: Option<usize>)
        requires
            i <= self.entries@.len(),
        ensures
            backward(entries_view(self.entries@), i as int) == (match r {
                Some(j) => Some(j as int),
                None => None::<int>,
            }),
            r matches Some(j) ==> j < i,
    {
        let ghost e = entries_view(self.entries@);
        let mut k: usize = i;
        while k > 0
            invariant
                k <= i,
                i <= self.entries@.len(),
                e == entries_view(self.entries@),
                backward(e, i as int) == backward(e, k as int),
            decreases k,
        {
            if !self.entries[k - 1].is_caption() {
                return Some(k - 1);
            }
            k = k - 1;
        }
        None
    }
}

/// The captions of `pending` that sit outside a caption at `level`.
fn keep_outer(pending: &Vec<Entry>, level: u8) -> (r: Vec<Entry>)
    ensures
        entries_view(r@) == outer(entries_view(pending@), level),
{
    let ghost pv = entries_view(pending@);
    let mut r: Vec<Entry> = Vec::new();
    let mut i: usize = 0;
    while i < pending.len()
        invariant
            i <= pending@.len(),
            pv == entries_view(pending@),
            entries_view(r@) == outer(pv.subrange(0, i as int), level),
        decreases pending.len() - i,
    {
        let ghost before = entries_view(r@);
        let keep = match &pending[i] {
            Entry::Caption(g) => g.level() < level,
            _ => false,
        };
        if keep {
            r.push(pending[i].duplicate());
        }
        proof {
            let pre = pv.subrange(0, i as int + 1);
            assert(pre.drop_last() =~= pv.subrange(0, i as int));
            assert(pre.last() == pending@[i as int]@);
            if keep {
                assert(entries_view(r@) =~= before.push(pv[i as int]));
            } else {
                assert(entries_view(r@) =~= before);
            }
        }
        i = i + 1;
    }
    proof {
        assert(pv.subrange(0, pv.len() as int) =~= pv);
    }
    r
}

/// Appends copies of every row of `more` to `to`.
fn append_copies(to: &mut Vec<Entry>, more: &Vec<Entry>)
    ensures
        entries_view(final(to)@) == entries_view(old(to)@) + entries_view(more@),
{
    let ghost start = entries_view(to@);
    let mut i: usize = 0;
    while i < more.len()
        invariant
            i <= more@.len(),
            entries_view(to@) == start + entries_view(more@.subrange(0, i as int)),
        decreases more.len() - i,
    {
        let ghost before = entries_view(to@);
        to.push(more[i].duplicate());
        proof {
            assert(entries_view(to@) =~= before.push(more@[i as int]@));
            assert(entries_view(more@.subrange(0, i as int + 1)) =~= entries_view(more@.subrange(0, i as int)).push(more@[i as int]@));
            assert(entries_view(to@) =~= start + entries_view(more@.subrange(0, i as int + 1)));
        }
        i = i + 1;
    }
    proof {
        assert(more@.subrange(0, more@.len() as int) =~= more@);
    }
}

impl Picker {
    /// Recomputes the entries from the rows and the input; a caption survives only when
    /// something under it did. The cursor is pulled back onto the entries and off any caption.
    fn refresh(&mut self)
        ensures
            final(self).parent == old(self).parent,
            final(self).parent_ext_id == old(self).parent_ext_id,
            final(self).parent_name == old(self).parent_name,
            final(self).rows == old(self).rows,
            final(self).input == old(self).input,
            entries_view(final(self).entries@) == refreshed(entries_view(old(self).rows@), fold_seq(old(self).input@)),
            final(self).selected == past_caption_spec(
                entries_view(final(self).entries@),
                clamp(old(self).selected as int, final(self).entries@.len() as int),
                true,
            ),
    {
        let typed = chars_of(self.input.as_str());
        let needle = fold_chars(typed.as_slice());
        let ghost rv = entries_view(self.rows@);
        let mut listed: Vec<Entry> = Vec::new();
        let mut pending: Vec<Entry> = Vec::new();
        let mut i: usize = 0;
        while i < self.rows.len()
            invariant
                i <= self.rows@.len(),
                rv == entries_view(self.rows@),
                needle@ == fold_seq(self.input@),
                (entries_view(listed@), entries_view(pending@)) == refresh_upto(rv, needle@, i as int),
            decreases self.rows.len() - i,
        {
            let row = &self.rows[i];
            assert(rv[i as int] == row@);
            match row {
                Entry::Caption(g) => {
                    let mut kept_captions = keep_outer(&pending, g.level());
                    kept_captions.push(row.duplicate());
                    pending = kept_captions;
                },
                _ => {
                    if needle.len() == 0 || row.matches(needle.as_slice()) {
                        append_copies(&mut listed, &pending);
                        listed.push(row.duplicate());
                        pending = Vec::new();
                        proof {
                            assert(entries_view(pending@) =~= Seq::<EntryV>::empty());
                        }
                    }
                },
            }
            i = i + 1;
        }
        self.entries = listed;
        let n = self.entries.len();
        let last = if n == 0 { 0 } else { n - 1 };
        if self.selected > last {
            self.selected = last;
        }
        self.selected = self.past_caption(self.selected, true);
    }
}

/// What the filter has listed never ends on a caption, and what waits is only captions.
pub proof fn lemma_refresh_shape(rows: Seq<EntryV>, needle: Seq<char>, n: int)
    requires
        0 <= n <= rows.len(),
    ensures
        refresh_upto(rows, needle, n).0.len() > 0 ==> !is_caption(refresh_upto(rows, needle, n).0.last()),
        forall|k: int| 0 <= k < refresh_upto(rows, needle, n).1.len() ==> is_caption(#[trigger] refresh_upto(rows, needle, n).1[k]),
    decreases n,
{
    if n > 0 {
        lemma_refresh_shape(rows, needle, n - 1);
        let (listed, pending) = refresh_upto(rows, needle, n - 1);
        let row = rows[n - 1];
        if let EntryV::Caption(g) = row {
            lemma_outer_captions(pending, level_spec(g));
        }
    }
}

/// `outer` keeps only captions.
proof fn lemma_outer_captions(pending: Seq<EntryV>, level: u8)
    ensures
        forall|k: int| 0 <= k < outer(pending, level).len() ==> is_caption(#[trigger] outer(pending, level)[k]),
    decreases pending.len(),
{
    if pending.len() > 0 {
        lemma_outer_captions(pending.drop_last(), level);
        let rest = outer(pending.drop_last(), level);
        let p = pending.last();
        assert forall|k: int| 0 <= k < outer(pending, level).len() implies is_caption(#[trigger] outer(pending, level)[k]) by {
            if k < rest.len() {
                assert(is_caption(rest[k]));
            }
        }
    }
}

/// Searching forward to an index that takes the cursor finds one, no later than it.
proof fn lemma_forward_finds(e: Seq<EntryV>, i: int, last: int)
    requires
        i <= last,
        takes(e, last),
    ensures
        forward(e, i, last) matches Some(j) && i <= j <= last && takes(e, j),
    decreases last + 1 - i,
{
    if !takes(e, i) {
        lemma_forward_finds(e, i + 1, last);
    }
}

/// Whatever `forward` finds is in its range and takes the cursor.
proof fn lemma_forward_range(e: Seq<EntryV>, i: int, last: int)
    ensures
        forward(e, i, last) matches Some(j) ==> i <= j <= last && takes(e, j),
    decreases last + 1 - i,
{
    if i <= last && !takes(e, i) {
        lemma_forward_range(e, i + 1, last);
    }
}

/// Whatever `backward` finds is below its start and takes the cursor.
proof fn lemma_backward_range(e: Seq<EntryV>, i: int)
    ensures
        backward(e, i) matches Some(j) ==> 0 <= j < i && takes(e, j),
    decreases i,
{
    if i > 0 && !takes(e, i - 1) {
        lemma_backward_range(e, i - 1);
    }
}

/// On a list that does not end on a caption, stepping past captions from any entry lands on an
/// entry that is not one.
pub proof fn lemma_past_caption_lands(e: Seq<EntryV>, index: int, down: bool)
    requires
        e.len() > 0,
        !is_caption(e.last()),
        0 <= index < e.len(),
    ensures
        0 <= past_caption_spec(e, index, down) < e.len(),
        !is_caption(e[past_caption_spec(e, index, down)]),
{
    let last = e.len() - 1;
    lemma_forward_finds(e, index, last);
    lemma_backward_range(e, index);
}

/// The views of a list of kinds.
pub open spec fn kinds_view(v: Seq<KindRef>) -> Seq<KindV> {
    v.map_values(|k: KindRef| k@)
}

/// The input with its last character taken off, when it has one.
pub open spec fn backspaced(s: Seq<char>) -> Seq<char> {
    if s.len() == 0 { s } else { s.drop_last() }
}

impl Picker {
    /// The picker over a row of `parent`: its `children` - the catalog's child kinds of the
    /// parent - greyed by the catalog's note for a kind this row cannot reach, and by
    /// `unavailable` for one listed under its parent that this Prism Central does not serve;
    /// then `actions`, which the caller has already sorted and greyed.
    pub fn open(
        parent: KindRef,
        parent_ext_id: String,
        parent_name: String,
        children: Vec<KindRef>,
        unavailable: impl Fn(&KindRef) -> Option<String>,
        actions: Vec<menu::Row>,
    ) -> (p: Picker)
        requires
            forall|k: &KindRef| #[trigger] call_requires(unavailable, (k,)),
        ensures
            p.wf(),
            p.parent@ == parent@,
            p.parent_ext_id@ == parent_ext_id@,
            p.parent_name@ == parent_name@,
            p.input@.len() == 0,
            exists|reasons: Seq<Option<Seq<char>>>| {
                &&& reasons.len() == children@.len()
                &&& forall|i: int| 0 <= i < children@.len() ==> child_reason_ok(unavailable, children@[i], #[trigger] reasons[i])
                &&& entries_view(p.rows@) == picker_rows(kinds_view(children@), reasons, rows_view(actions@))
            },
    {
        let ghost kv = kinds_view(children@);
        let ghost mut reasons: Seq<Option<Seq<char>>> = Seq::empty();
        let mut child_entries: Vec<Entry> = Vec::new();
        let mut i: usize = 0;
        while i < children.len()
            invariant
                i <= children@.len(),
                kv == kinds_view(children@),
                reasons.len() == i,
                forall|j: int| 0 <= j < i ==> child_reason_ok(unavailable, children@[j], #[trigger] reasons[j]),
                entries_view(child_entries@) == child_rows(kv.subrange(0, i as int), reasons),
                forall|k: &KindRef| #[trigger] call_requires(unavailable, (k,)),
            decreases children.len() - i,
        {
            let kind = &children[i];
            let reason = match kind.reach {
                Reach::FromParent => unavailable(kind),
                _ => copy_opt(&kind.note),
            };
            proof {
                if kind.reach == Reach::FromParent {
                    assert(call_ensures(unavailable, (kind,), reason));
                }
                assert(child_reason_ok(unavailable, children@[i as int], opt_view(reason)));
            }
            let ghost before = entries_view(child_entries@);
            let ghost rv = opt_view(reason);
            child_entries.push(Entry::Child { kind: kind.duplicate(), reason });
            proof {
                let old_reasons = reasons;
                reasons = reasons.push(rv);
                assert forall|j: int| 0 <= j < i + 1 implies child_reason_ok(unavailable, children@[j], #[trigger] reasons[j]) by {
                    if j < i {
                        assert(reasons[j] == old_reasons[j]);
                    }
                }
                assert(entries_view(child_entries@) =~= before.push(EntryV::Child { kind: children@[i as int]@, reason: rv }));
                assert(kv[i as int] == children@[i as int]@);
                assert(before =~= child_rows(kv.subrange(0, i as int), old_reasons));
                assert(child_rows(kv.subrange(0, i as int + 1), reasons) =~= child_rows(kv.subrange(0, i as int), old_reasons).push(EntryV::Child { kind: kv[i as int], reason: rv }));
                assert(entries_view(child_entries@) =~= child_rows(kv.subrange(0, i as int + 1), reasons));
            }
            i = i + 1;
        }
        proof {
            assert(kv.subrange(0, kv.len() as int) =~= kv);
        }
        let mut rows: Vec<Entry> = Vec::new();
        if child_entries.len() > 0 {
            rows.push(Entry::Caption(Group::Related));
            append_copies(&mut rows, &child_entries);
        }
        let ghost related = entries_view(rows@);
        proof {
            if kv.len() > 0 {
                assert(related =~= seq![EntryV::Caption(Group::Related)] + child_rows(kv, reasons));
            } else {
                assert(related =~= Seq::<EntryV>::empty());
            }
        }
        let ghost av = rows_view(actions@);
        if actions.len() > 0 {
            let raw = boundary(actions.as_slice());
            rows.push(Entry::Caption(Group::Actions));
            let ghost head = entries_view(rows@);
            let mut j: usize = 0;
            while j < actions.len()
                invariant
                    j <= actions@.len(),
                    av == rows_view(actions@),
                    raw matches Some(b) ==> boundary_spec(av) == Some(b as int),
                    raw is None ==> boundary_spec(av) is None,
                    entries_view(rows@) == head + action_rows_upto(av, boundary_spec(av), j as int),
                decreases actions.len() - j,
            {
                let ghost before = entries_view(rows@);
                let mark = match raw {
                    Some(b) => b == j,
                    None => false,
                };
                if mark {
                    rows.push(Entry::Caption(Group::Raw));
                }
                let row = &actions[j];
                rows.push(Entry::Act { action: row.action.duplicate(), reason: copy_opt(&row.reason) });
                proof {
                    let act = EntryV::Act { action: av[j as int].action, reason: av[j as int].reason };
                    if mark {
                        assert(entries_view(rows@) =~= before.push(EntryV::Caption(Group::Raw)).push(act));
                    } else {
                        assert(entries_view(rows@) =~= before.push(act));
                    }
                }
                j = j + 1;
            }
            proof {
                assert(entries_view(rows@) =~= related + (seq![EntryV::Caption(Group::Actions)] + action_rows_upto(av, boundary_spec(av), av.len() as int)));
            }
        } else {
            proof {
                assert(entries_view(rows@) =~= related + Seq::<EntryV>::empty());
            }
        }
        let mut picker = Picker {
            parent,
            parent_ext_id,
            parent_name,
            rows,
            input: String::new(),
            selected: 0,
            entries: Vec::new(),
        };
        picker.refresh();
        proof {
            picker.lemma_refresh_keeps_wf();
            assert(entries_view(picker.rows@) == picker_rows(kv, reasons, av));
        }
        picker
    }

    /// After a refresh the cursor stands where [`Picker::wf`] wants it.
    proof fn lemma_refresh_keeps_wf(&self)
        requires
            entries_view(self.entries@) == refreshed(entries_view(self.rows@), fold_seq(self.input@)),
            exists|s: int| self.selected == past_caption_spec(entries_view(self.entries@), clamp(s, self.entries@.len() as int), true),
        ensures
            self.wf(),
    {
        let e = entries_view(self.entries@);
        let rv = entries_view(self.rows@);
        lemma_refresh_shape(rv, fold_seq(self.input@), rv.len() as int);
        let s = choose|s: int| self.selected == past_caption_spec(e, clamp(s, self.entries@.len() as int), true);
        if e.len() > 0 {
            lemma_past_caption_lands(e, clamp(s, e.len() as int), true);
        }
    }
}

impl Picker {
    /// The entry under the cursor, if any.
    pub fn current(&self) -> (r: Option<&Entry>)
        ensures
            self.selected < self.entries@.len() ==> r == Some(&self.entries@[self.selected as int]),
            self.selected >= self.entries@.len() ==> r is None,
    {
        if self.selected < self.entries.len() {
            Some(&self.entries[self.selected])
        } else {
            None
        }
    }

    /// The `rows` entries to draw and the index the first of them has, framing the selection.
    pub fn window(&self, rows: usize) -> (r: (usize, &[Entry]))
        requires
            self.wf(),
        ensures
            rows == 0 ==> r.0 == 0 && r.1@.len() == 0,
            rows > 0 ==> {
                let offset = window_offset(self.selected as int, rows as int);
                let end = if offset + rows < self.entries@.len() { offset + rows } else { self.entries@.len() as int };
                &&& r.0 == offset
                &&& r.1@ == self.entries@.subrange(if offset < end { offset } else { end }, end)
            },
    {
        let n = self.entries.len();
        assert(self.selected <= n);
        window(self.entries.as_slice(), self.selected, rows)
    }

    /// Puts the cursor on row `index`, for the mouse. `false` when there is no such row, or when
    /// it is a caption: a click on a rule selects nothing.
    pub fn select(&mut self, index: usize) -> (r: bool)
        ensures
            r == (index < old(self).entries@.len() && !is_caption(old(self).entries@[index as int]@)),
            final(self).selected == (if r { index } else { old(self).selected }),
            final(self).entries == old(self).entries,
            final(self).rows == old(self).rows,
            final(self).input == old(self).input,
            final(self).parent == old(self).parent,
            final(self).parent_ext_id == old(self).parent_ext_id,
            final(self).parent_name == old(self).parent_name,
            old(self).wf() ==> final(self).wf(),
    {
        if index < self.entries.len() && !self.entries[index].is_caption() {
            self.selected = index;
            proof {
                assert(entries_view(self.entries@)[index as int] == self.entries@[index as int]@);
            }
            true
        } else {
            false
        }
    }

    /// Whether the parent kind has no children at all; `enter` then means the detail pane,
    /// whose own actions section lists what this box would have listed under `actions`.
    pub fn is_empty(&self) -> (r: bool)
        ensures
            r == !(exists|i: int| 0 <= i < self.rows@.len() && #[trigger] self.rows@[i]@ is Child),
    {
        let mut i: usize = 0;
        while i < self.rows.len()
            invariant
                i <= self.rows@.len(),
                forall|j: int| 0 <= j < i ==> !(#[trigger] self.rows@[j]@ is Child),
            decreases self.rows.len() - i,
        {
            if let Entry::Child { .. } = &self.rows[i] {
                assert(self.rows@[i as int]@ is Child);
                return false;
            }
            i = i + 1;
        }
        true
    }

    /// What one key does to the picker. Typing narrows and puts the cursor back on top; `esc`
    /// cancels; the arrows move within the entries, stepping over captions; `enter` opens the
    /// child kind or runs the action under the cursor.
    pub fn key(&mut self, key: Key) -> (r: Event)
        requires
            old(self).wf(),
        ensures
            final(self).wf(),
            final(self).rows == old(self).rows,
            final(self).parent == old(self).parent,
            final(self).parent_ext_id == old(self).parent_ext_id,
            final(self).parent_name == old(self).parent_name,
            picker_key_spec(*old(self), key, *final(self), r),
    {
        match key {
            Key::Esc => Event::Cancelled,
            Key::Char(c) => {
                push_char(&mut self.input, c);
                self.selected = 0;
                self.refresh();
                proof {
                    self.lemma_refresh_keeps_wf();
                }
                Event::Filtered
            },
            Key::Backspace => {
                let typed = chars_of(self.input.as_str());
                if typed.len() > 0 {
                    let kept = slice_chars(typed.as_slice(), 0, typed.len() - 1);
                    self.input = string_of(kept.as_slice());
                }
                self.selected = 0;
                self.refresh();
                proof {
                    self.lemma_refresh_keeps_wf();
                }
                Event::Filtered
            },
            Key::Down | Key::Tab => {
                let n = self.entries.len();
                let last = if n == 0 { 0 } else { n - 1 };
                let next = if self.selected + 1 < last { self.selected + 1 } else { last };
                self.selected = self.past_caption(next, true);
                proof {
                    self.lemma_moved_keeps_wf(next as int, true);
                }
                Event::Moved
            },
            Key::Up | Key::BackTab => {
                let next = if self.selected > 0 { self.selected - 1 } else { 0 };
                self.selected = self.past_caption(next, false);
                proof {
                    self.lemma_moved_keeps_wf(next as int, false);
                }
                Event::Moved
            },
            Key::Enter => match self.current() {
                Some(Entry::Child { kind, .. }) => Event::Chose(kind.duplicate()),
                Some(Entry::Act { action, .. }) => Event::Run(action.duplicate()),
                _ => Event::Ignored,
            },
            _ => Event::Ignored,
        }
    }

    /// A step of the cursor to `next`, then past any caption, keeps [`Picker::wf`].
    proof fn lemma_moved_keeps_wf(&self, next: int, down: bool)
        requires
            entries_view(self.entries@) == refreshed(entries_view(self.rows@), fold_seq(self.input@)),
            self.entries@.len() == 0 ==> next == 0,
            self.entries@.len() > 0 ==> 0 <= next < self.entries@.len(),
            self.selected == past_caption_spec(entries_view(self.entries@), next, down),
        ensures
            self.wf(),
    {
        let e = entries_view(self.entries@);
        let rv = entries_view(self.rows@);
        lemma_refresh_shape(rv, fold_seq(self.input@), rv.len() as int);
        if e.len() > 0 {
            lemma_past_caption_lands(e, next, down);
        }
    }
}

/// What [`Picker::key`] does: `old` and `new` are the picker before and after, `r` what it
/// returns.
pub open spec fn picker_key_spec(old: Picker, key: Key, new: Picker, r: Event) -> bool {
    let e = entries_view(old.entries@);
    let len = e.len() as int;
    let same = new.input@ == old.input@ && new.entries == old.entries;
    match key {
        Key::Esc => r == Event::Cancelled && same && new.selected == old.selected,
        Key::Char(c) => r == Event::Filtered && new.input@ == old.input@.push(c)
            && new.selected == past_caption_spec(entries_view(new.entries@), 0, true),
        Key::Backspace => r == Event::Filtered && new.input@ == backspaced(old.input@)
            && new.selected == past_caption_spec(entries_view(new.entries@), 0, true),
        Key::Down | Key::Tab => r == Event::Moved && same
            && new.selected == past_caption_spec(e, clamp(old.selected + 1, len), true),
        Key::Up | Key::BackTab => r == Event::Moved && same
            && new.selected == past_caption_spec(e, if old.selected > 0 { old.selected - 1 } else { 0 }, false),
        Key::Enter => same && new.selected == old.selected && match (if old.selected < len { Some(e[old.selected as int]) } else { None }) {
            Some(EntryV::Child { kind, .. }) => r matches Event::Chose(k) && k@ == kind,
            Some(EntryV::Act { action, .. }) => r matches Event::Run(a) && a@ == action,
            _ => r == Event::Ignored,
        },
        _ => r == Event::Ignored && same && new.selected == old.selected,
    }
}

} // verus!

