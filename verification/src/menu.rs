//! `a`: which action to run on the row or the marks. Rows come ordered: the curated actions in
//! their curated order, then by danger, safe first, then by label - so a mistyped `enter` lands
//! on something harmless - and the uncurated names the generator lifted out of the spec sink
//! below them all.

use vstd::prelude::*;
use crate::ascii::{chars_of, contains_chars, contains_spec, fold_chars, fold_seq, push_char, slice_chars, string_of};
use crate::catalog::{copy_opt, opt_view};
use crate::key::Key;
use crate::palette::{lex_le, lex_le_exec, window, window_offset};

verus! {

/// One action of the catalog, as the menus read it.
#[derive(Debug, Clone, PartialEq, Eq)]
pub struct ActionRef {
    /// The catalog's name for it: `power-on`.
    pub name: String,
    /// What the menus print: `Power on`.
    pub title: String,
    /// The key that runs it directly from a table.
    pub key: String,
    /// Its place in the curated order; `0` for an action nobody curated.
    pub order: u32,
    /// How destructive it is; `None` for an action nobody curated.
    pub danger: Option<u8>,
}

/// An action, as values.
pub struct ActionV {
    pub name: Seq<char>,
    pub title: Seq<char>,
    pub key: Seq<char>,
    pub order: u32,
    pub danger: Option<u8>,
}

impl View for ActionRef {
    type V = ActionV;

    open spec fn view(&self) -> ActionV {
        ActionV { name: self.name@, title: self.title@, key: self.key@, order: self.order, danger: self.danger }
    }
}

impl ActionRef {
    /// A copy of this action.
    pub fn duplicate(&self) -> (r: ActionRef)
        ensures
            r@ == self@,
    {
        ActionRef {
            name: self.name.clone(),
            title: self.title.clone(),
            key: self.key.clone(),
            order: self.order,
            danger: self.danger,
        }
    }
}

/// An action, with the reason it cannot run when there is one. Greyed rows stay listed: "the
/// action is gone" is a worse bug report than "the action says why".
#[derive(Debug, Clone, PartialEq, Eq)]
pub struct Row {
    pub action: ActionRef,
    pub reason: Option<String>,
}

/// A row, as values.
pub struct RowV {
    pub action: ActionV,
    pub reason: Option<Seq<char>>,
}

impl View for Row {
    type V = RowV;

    open spec fn view(&self) -> RowV {
        RowV { action: self.action@, reason: opt_view(self.reason) }
    }
}

impl Row {
    /// A copy of this row.
    pub fn duplicate(&self) -> (r: Row)
        ensures
            r@ == self@,
    {
        Row { action: self.action.duplicate(), reason: copy_opt(&self.reason) }
    }
}

/// The views of a list of rows.
pub open spec fn rows_view(v: Seq<Row>) -> Seq<RowV> {
    v.map_values(|r: Row| r@)
}

/// What a key did, for the app to act on.
#[derive(Debug, Clone, PartialEq, Eq)]
pub enum Event {
    Filtered,
    Moved,
    Chose(ActionRef),
    Cancelled,
    Ignored,
}

/// The caption every action surface draws where the curated workflows give way to the names
/// the generator lifted straight out of the spec.
pub const RAW_CAPTION: &'static str = " raw API names ";

/// Where the uncurated names begin: the index of the first action with no curated order, when
/// the list holds some of each.
pub open spec fn boundary_spec(rows: Seq<RowV>) -> Option<int> {
    if exists|i: int| 0 <= i < rows.len() && rows[i].action.order == 0 {
        let first = choose|i: int| 0 <= i < rows.len() && rows[i].action.order == 0 && forall|j: int| 0 <= j < i ==> rows[j].action.order != 0;
        if first > 0 { Some(first) } else { None }
    } else {
        None
    }
}

/// Where the uncurated names begin in `rows`: `None` when the list is all one or all the
/// other, because a box with nothing to separate draws no rule.
pub fn boundary(rows: &[Row]) -> (r: Option<usize>)
    ensures
        match r {
            Some(i) => boundary_spec(rows_view(rows@)) == Some(i as int),
            None => boundary_spec(rows_view(rows@)) is None,
        },
{
    let ghost rv = rows_view(rows@);
    let mut i: usize = 0;
    while i < rows.len()
        invariant
            i <= rows@.len(),
            rv == rows_view(rows@),
            forall|j: int| 0 <= j < i ==> rv[j].action.order != 0,
        decreases rows.len() - i,
    {
        if rows[i].action.order == 0 {
            proof {
                assert(rv[i as int].action.order == 0);
                let f = choose|k: int| 0 <= k < rv.len() && rv[k].action.order == 0 && forall|j: int| 0 <= j < k ==> rv[j].action.order != 0;
                if f < i {
                } else if f > i {
                    assert(rv[i as int].action.order == 0);
                }
            }
            return if i > 0 { Some(i) } else { None };
        }
        i = i + 1;
    }
    None
}

/// The order every action surface lists in: curated first, by their order, then by danger
/// (none before any), then by title.
pub open spec fn row_le(a: RowV, b: RowV) -> bool {
    let ka = a.action.order == 0;
    let kb = b.action.order == 0;
    if ka != kb {
        !ka
    } else if a.action.order != b.action.order {
        a.action.order < b.action.order
    } else if a.action.danger != b.action.danger {
        match (a.action.danger, b.action.danger) {
            (None, _) => true,
            (_, None) => false,
            (Some(x), Some(y)) => x < y,
        }
    } else {
        lex_le(a.action.title, b.action.title)
    }
}

/// Whether `a` sorts no later than `b`.
fn row_le_exec(a: &Row, b: &Row) -> (r: bool)
    ensures
        r == row_le(a@, b@),
{
    let ka = a.action.order == 0;
    let kb = b.action.order == 0;
    if ka != kb {
        return !ka;
    }
    if a.action.order != b.action.order {
        return a.action.order < b.action.order;
    }
    if a.action.danger != b.action.danger {
        return match (a.action.danger, b.action.danger) {
            (None, _) => true,
            (_, None) => false,
            (Some(x), Some(y)) => x < y,
        };
    }
    let ta = chars_of(a.action.title.as_str());
    let tb = chars_of(b.action.title.as_str());
    lex_le_exec(ta.as_slice(), tb.as_slice())
}

/// The rows are in [`row_le`] order.
pub open spec fn sorted_rows(s: Seq<RowV>) -> bool {
    forall|i: int, j: int| 0 <= i < j < s.len() ==> row_le(s[i], s[j])
}

/// Some place of `p` holds `k`.
pub open spec fn placed(p: Seq<int>, k: int) -> bool {
    exists|i: int| 0 <= i < p.len() && #[trigger] p[i] == k
}

/// `r` is `v` sorted stably by `le`: `p` says where each item of `r` stood in `v`, each place
/// once; the items are in `le` order; and items that tie - each no later than the other - keep
/// the order they came in. What the standard library's stable sort makes of `v`.
pub open spec fn stable_order<T>(v: Seq<T>, r: Seq<T>, p: Seq<int>, le: spec_fn(T, T) -> bool) -> bool {
    &&& p.len() == r.len() == v.len()
    &&& forall|i: int| 0 <= i < p.len() ==> 0 <= #[trigger] p[i] < v.len() && r[i] == v[p[i]]
    &&& forall|i: int, j: int| 0 <= i < j < p.len() ==> p[i] != p[j]
    &&& forall|k: int| 0 <= k < v.len() ==> #[trigger] placed(p, k)
    &&& forall|i: int, j: int| 0 <= i < j < r.len() ==> le(r[i], r[j])
    &&& forall|i: int, j: int| 0 <= i < j < r.len() && le(r[j], r[i]) ==> p[i] < p[j]
}

/// A stable order is determined: two arrangements of the same items that are both in `le`
/// order and keep ties in their input order are the same list.
pub proof fn lemma_stable_order_determined<T>(v: Seq<T>, r1: Seq<T>, p1: Seq<int>, r2: Seq<T>, p2: Seq<int>, le: spec_fn(T, T) -> bool)
    requires
        stable_order(v, r1, p1, le),
        stable_order(v, r2, p2, le),
    ensures
        r1 == r2,
{
    lemma_stable_prefix(v, r1, p1, r2, p2, le, p1.len() as int);
    assert forall|i: int| 0 <= i < r1.len() implies r1[i] == r2[i] by {
        assert(p1[i] == p2[i]);
        assert(r1[i] == v[p1[i]] && r2[i] == v[p2[i]]);
    }
    assert(r1 =~= r2);
}

/// The first `m` places of two stable arrangements agree.
proof fn lemma_stable_prefix<T>(v: Seq<T>, r1: Seq<T>, p1: Seq<int>, r2: Seq<T>, p2: Seq<int>, le: spec_fn(T, T) -> bool, m: int)
    requires
        stable_order(v, r1, p1, le),
        stable_order(v, r2, p2, le),
        0 <= m <= p1.len(),
    ensures
        forall|t: int| 0 <= t < m ==> p1[t] == p2[t],
    decreases m,
{
    if m > 0 {
        lemma_stable_prefix(v, r1, p1, r2, p2, le, m - 1);
        let i = m - 1;
        let a = p1[i];
        let b = p2[i];
        if a != b {
            assert(placed(p2, a));
            assert(placed(p1, b));
            let j = choose|j: int| 0 <= j < p2.len() && #[trigger] p2[j] == a;
            let l = choose|l: int| 0 <= l < p1.len() && #[trigger] p1[l] == b;
            if j < i {
                assert(p1[j] == p2[j]);
            }
            if l < i {
                assert(p1[l] == p2[l]);
            }
            assert(j > i);
            assert(l > i);
            assert(r2[i] == v[b] && r2[j] == v[a] && r1[i] == v[a] && r1[l] == v[b]);
            assert(le(r2[i], r2[j]));
            assert(le(r1[i], r1[l]));
        }
    }
}

/// The order every action surface lists in, as a relation.
pub open spec fn by_row() -> spec_fn(RowV, RowV) -> bool {
    |a: RowV, b: RowV| row_le(a, b)
}

/// The rows of `v`, in [`row_le`] order: a permutation of them that is sorted, and - like the
/// standard library's stable sort - keeps rows that tie in the order they came in.
pub fn sort(v: Vec<Row>) -> (r: Vec<Row>)
    ensures
        sorted_rows(rows_view(r@)),
        rows_view(r@).to_multiset() == rows_view(v@).to_multiset(),
        exists|p: Seq<int>| stable_order(rows_view(v@), rows_view(r@), p, by_row()),
{
    broadcast use vstd::seq_lib::group_to_multiset_ensures;
    let ghost orig = rows_view(v@);
    let ghost n = orig.len();
    let mut out: Vec<Row> = Vec::new();
    let mut rest = v;
    let ghost mut p: Seq<int> = Seq::empty();
    proof {
        assert(rows_view(out@) =~= Seq::<RowV>::empty());
        assert(rows_view(out@).to_multiset() =~= vstd::multiset::Multiset::empty());
        assert(rows_view(rest@) =~= orig.subrange(0, n as int));
    }
    while rest.len() > 0
        invariant
            n == orig.len(),
            rest@.len() <= n,
            rows_view(rest@) == orig.subrange(n - rest@.len(), n as int),
            sorted_rows(rows_view(out@)),
            rows_view(out@).to_multiset().add(rows_view(rest@).to_multiset()) == orig.to_multiset(),
            p.len() == out@.len() == n - rest@.len(),
            forall|i: int| 0 <= i < p.len() ==> 0 <= #[trigger] p[i] < p.len() && rows_view(out@)[i] == orig[p[i]],
            forall|i: int, j: int| 0 <= i < j < p.len() ==> p[i] != p[j],
            forall|k: int| 0 <= k < p.len() ==> #[trigger] placed(p, k),
            forall|i: int, j: int| 0 <= i < j < p.len() && row_le(rows_view(out@)[j], rows_view(out@)[i]) ==> p[i] < p[j],
        decreases rest.len(),
    {
        let ghost k = n - rest@.len();
        let ghost old_rest = rows_view(rest@);
        let ghost rb = rest@;
        let x = rest.remove(0);
        let ghost xv = x@;
        proof {
            assert(x == rb[0]);
            assert(old_rest[0] == xv);
            assert(old_rest[0] == orig[k]);
            assert(old_rest.drop_first() =~= rows_view(rest@));
            assert(old_rest =~= old_rest.drop_first().insert(0, xv));
            lemma_seq_insert_multiset(old_rest.drop_first(), 0, xv);
            assert(xv == orig[k]);
            assert(rows_view(rest@) =~= orig.subrange(n - rest@.len(), n as int));
        }
        // Insert after every row that sorts no later than `x`, which keeps equal rows in the
        // order they came.
        let mut at: usize = out.len();
        while at > 0 && !row_le_exec(&out[at - 1], &x)
            invariant
                at <= out@.len(),
                xv == x@,
                forall|k: int| at <= k < out@.len() ==> !row_le(#[trigger] rows_view(out@)[k], xv),
            decreases at,
        {
            at = at - 1;
        }
        let ghost before = rows_view(out@);
        let ghost pb = p;
        proof {
            assert forall|k: int| at <= k < before.len() implies row_le(xv, before[k]) by {
                lemma_row_le_total(xv, before[k]);
            }
        }
        out.insert(at, x);
        proof {
            let after = rows_view(out@);
            assert(after =~= before.insert(at as int, xv));
            assert forall|i: int, j: int| 0 <= i < j < after.len() implies row_le(after[i], after[j]) by {
                lemma_sorted_pair(before, after, at as int, xv, i, j);
            }
            lemma_seq_insert_multiset(before, at as int, xv);
            p = pb.insert(at as int, k);
            assert forall|i: int| 0 <= i < p.len() implies 0 <= #[trigger] p[i] < p.len() && after[i] == orig[p[i]] by {
                if i < at {
                    assert(p[i] == pb[i]);
                } else if i > at {
                    assert(p[i] == pb[i - 1]);
                }
            }
            assert forall|i: int, j: int| 0 <= i < j < p.len() implies p[i] != p[j] by {
                if i < at && j > at {
                    assert(p[j] == pb[j - 1]);
                } else if i > at {
                    assert(p[i] == pb[i - 1] && p[j] == pb[j - 1]);
                } else if j < at {
                } else if i == at {
                    assert(p[j] == pb[j - 1]);
                }
            }
            assert forall|m: int| 0 <= m < p.len() implies #[trigger] placed(p, m) by {
                if m == k {
                    assert(p[at as int] == k);
                } else {
                    assert(placed(pb, m));
                    let i0 = choose|i: int| 0 <= i < pb.len() && #[trigger] pb[i] == m;
                    if i0 < at {
                        assert(p[i0] == m);
                    } else {
                        assert(p[i0 + 1] == m);
                    }
                }
            }
            assert forall|i: int, j: int| 0 <= i < j < p.len() && row_le(after[j], after[i]) implies p[i] < p[j] by {
                if j < at {
                } else if i < at && j == at {
                } else if i < at && j > at {
                    assert(p[j] == pb[j - 1]);
                    assert(after[j] == before[j - 1]);
                } else if i == at {
                    assert(after[j] == before[j - 1]);
                    assert(!row_le(before[j - 1], xv));
                } else {
                    assert(p[i] == pb[i - 1] && p[j] == pb[j - 1]);
                    assert(after[i] == before[i - 1] && after[j] == before[j - 1]);
                }
            }
        }
    }
    proof {
        assert(rows_view(rest@) =~= Seq::<RowV>::empty());
        assert(rows_view(rest@).to_multiset() =~= vstd::multiset::Multiset::empty());
        assert(stable_order(orig, rows_view(out@), p, by_row()));
    }
    out
}

/// Of two rows, one sorts no later than the other.
proof fn lemma_row_le_total(a: RowV, b: RowV)
    ensures
        row_le(a, b) || row_le(b, a),
{
    crate::palette::lemma_lex_le_total(a.action.title, b.action.title);
}

/// The row order is transitive.
proof fn lemma_row_le_trans(a: RowV, b: RowV, c: RowV)
    requires
        row_le(a, b),
        row_le(b, c),
    ensures
        row_le(a, c),
{
    if a.action.order == b.action.order && b.action.order == c.action.order && a.action.danger == b.action.danger && b.action.danger == c.action.danger {
        crate::palette::lemma_lex_le_trans(a.action.title, b.action.title, c.action.title);
    }
}

/// Inserting `x` into a sorted list where it belongs keeps any pair of it sorted.
proof fn lemma_sorted_pair(before: Seq<RowV>, after: Seq<RowV>, at: int, x: RowV, i: int, j: int)
    requires
        0 <= at <= before.len(),
        after == before.insert(at, x),
        sorted_rows(before),
        at > 0 ==> row_le(before[at - 1], x),
        forall|k: int| at <= k < before.len() ==> row_le(x, before[k]),
        0 <= i < j < after.len(),
    ensures
        row_le(after[i], after[j]),
{
    if i < at && j < at {
        assert(after[i] == before[i] && after[j] == before[j]);
    } else if i < at && j == at {
        if i < at - 1 {
            lemma_row_le_trans(before[i], before[at - 1], x);
        }
    } else if i < at && j > at {
        assert(after[j] == before[j - 1]);
        assert(row_le(before[i], before[j - 1]));
    } else if i == at {
        assert(after[j] == before[j - 1]);
    } else {
        assert(after[i] == before[i - 1] && after[j] == before[j - 1]);
    }
}

/// Inserting an element adds it to the multiset.
pub proof fn lemma_seq_insert_multiset<T>(s: Seq<T>, at: int, x: T)
    requires
        0 <= at <= s.len(),
    ensures
        s.insert(at, x).to_multiset() == s.to_multiset().insert(x),
{
    broadcast use vstd::seq_lib::group_to_multiset_ensures;
    let l = s.subrange(0, at);
    let r = s.subrange(at, s.len() as int);
    assert(s =~= l + r);
    assert(s.insert(at, x) =~= l.push(x) + r);
    vstd::seq_lib::lemma_multiset_commutative(l.push(x), r);
    vstd::seq_lib::lemma_multiset_commutative(l, r);
}

/// Whether a row stays listed under the (already folded) `needle`: an empty needle keeps
/// everything; otherwise the needle occurs in the folded title or in the catalog name.
pub open spec fn matches(r: RowV, needle: Seq<char>) -> bool {
    ||| needle.len() == 0
    ||| contains_spec(fold_seq(r.action.title), needle)
    ||| contains_spec(r.action.name, needle)
}

/// The rows that `needle` keeps, in their order.
pub open spec fn filtered(rows: Seq<RowV>, needle: Seq<char>) -> Seq<RowV>
    decreases rows.len(),
{
    if rows.len() == 0 {
        Seq::empty()
    } else {
        let rest = filtered(rows.drop_last(), needle);
        if matches(rows.last(), needle) { rest.push(rows.last()) } else { rest }
    }
}

/// Where the cursor stands among `len` entries after it is pulled back onto them.
pub open spec fn clamp(selected: int, len: int) -> int {
    if len == 0 { 0 } else if selected < len - 1 { selected } else { len - 1 }
}

/// The action menu over one subject.
pub struct Menu {
    /// What the action would run on: one row's name, or `7 Virtual Machines`.
    pub subject: String,
    /// Every action, in [`row_le`] order.
    pub rows: Vec<Row>,
    /// What has been typed to narrow the list.
    pub input: String,
    pub selected: usize,
    /// The rows the input matches; what the box shows and `selected` indexes.
    pub entries: Vec<Row>,
}

impl Menu {
    /// The rows, sorted, are what the menu lists; the entries are the ones the input keeps; the
    /// cursor is on an entry, or at `0` when there is none.
    pub open spec fn wf(&self) -> bool {
        &&& sorted_rows(rows_view(self.rows@))
        &&& rows_view(self.entries@) == filtered(rows_view(self.rows@), fold_seq(self.input@))
        &&& self.selected == clamp(self.selected as int, self.entries@.len() as int)
    }

    /// The menu over `rows`, sorted, with nothing typed and the first entry selected.
    pub fn open(subject: String, rows: Vec<Row>) -> (m: Menu)
        ensures
            m.wf(),
            m.subject@ == subject@,
            m.input@.len() == 0,
            m.selected == 0,
            sorted_rows(rows_view(m.rows@)),
            rows_view(m.rows@).to_multiset() == rows_view(rows@).to_multiset(),
            exists|p: Seq<int>| stable_order(rows_view(rows@), rows_view(m.rows@), p, by_row()),
            rows_view(m.entries@) == rows_view(m.rows@),
    {
        let rows = sort(rows);
        let mut menu = Menu { subject, rows, input: String::new(), selected: 0, entries: Vec::new() };
        menu.refresh();
        proof {
            lemma_filtered_empty_needle(rows_view(menu.rows@), fold_seq(menu.input@));
        }
        menu
    }

    /// Recomputes the entries from the rows and the input, and pulls the cursor back onto them.
    fn refresh(&mut self)
        ensures
            final(self).subject == old(self).subject,
            final(self).rows == old(self).rows,
            final(self).input == old(self).input,
            rows_view(final(self).entries@) == filtered(rows_view(old(self).rows@), fold_seq(old(self).input@)),
            final(self).selected == clamp(old(self).selected as int, final(self).entries@.len() as int),
    {
        let typed = chars_of(self.input.as_str());
        let needle = fold_chars(typed.as_slice());
        let ghost rv = rows_view(self.rows@);
        let mut entries: Vec<Row> = Vec::new();
        let mut i: usize = 0;
        while i < self.rows.len()
            invariant
                i <= self.rows@.len(),
                rv == rows_view(self.rows@),
                needle@ == fold_seq(self.input@),
                rows_view(entries@) == filtered(rv.subrange(0, i as int), needle@),
            decreases self.rows.len() - i,
        {
            let row = &self.rows[i];
            let keep = if needle.len() == 0 {
                true
            } else {
                let title = chars_of(row.action.title.as_str());
                let folded = fold_chars(title.as_slice());
                if contains_chars(folded.as_slice(), needle.as_slice()) {
                    true
                } else {
                    let name = chars_of(row.action.name.as_str());
                    contains_chars(name.as_slice(), needle.as_slice())
                }
            };
            let ghost before = rows_view(entries@);
            if keep {
                entries.push(row.duplicate());
            }
            proof {
                let pre = rv.subrange(0, i as int + 1);
                assert(pre.drop_last() =~= rv.subrange(0, i as int));
                assert(pre.last() == rv[i as int]);
                assert(keep == matches(rv[i as int], needle@));
                if keep {
                    assert(rows_view(entries@) =~= before.push(rv[i as int]));
                } else {
                    assert(rows_view(entries@) =~= before);
                }
            }
            i = i + 1;
        }
        proof {
            assert(rv.subrange(0, rv.len() as int) =~= rv);
        }
        self.entries = entries;
        let last = if self.entries.len() == 0 { 0 } else { self.entries.len() - 1 };
        if self.selected > last {
            self.selected = last;
        }
    }

    /// The entry under the cursor, if any.
    pub fn current(&self) -> (r: Option<&Row>)
        ensures
            r matches Some(row) ==> self.selected < self.entries@.len() && row@ == self.entries@[self.selected as int]@,
            r is None ==> self.selected >= self.entries@.len(),
    {
        if self.selected < self.entries.len() {
            Some(&self.entries[self.selected])
        } else {
            None
        }
    }

    /// The `rows` entries to draw and the index the first of them has, framing the selection.
    pub fn window(&self, rows: usize) -> (r: (usize, &[Row]))
        requires
            self.wf(),
        ensures
            rows == 0 ==> r.0 == 0 && r.1@.len() == 0,
            rows > 0 ==> {
                let offset = window_offset(self.selected as int, rows as int);
                let end = if offset + rows < self.entries@.len() { offset + rows } else { self.entries@.len() as int };
                &&& r.0 == offset
                &&& r.1@ == self.entries@.subrange(if offset < end { offset } else { end }, end)
            },
    {
        let n = self.entries.len();
        assert(self.selected <= n);
        window(self.entries.as_slice(), self.selected, rows)
    }

    /// What one key does to the menu. Typing narrows on the label and the catalog name and puts
    /// the cursor back on top; `esc` cancels; the arrows move within the entries; `enter`
    /// chooses the entry under the cursor, and does nothing when the filter left none.
    pub fn key(&mut self, key: Key) -> (r: Event)
        requires
            old(self).wf(),
        ensures
            final(self).wf(),
            final(self).subject == old(self).subject,
            final(self).rows == old(self).rows,
            menu_key_spec(*old(self), key, *final(self), r),
    {
        match key {
            Key::Esc => Event::Cancelled,
            Key::Char(c) => {
                push_char(&mut self.input, c);
                self.selected = 0;
                self.refresh();
                Event::Filtered
            },
            Key::Backspace => {
                let typed = chars_of(self.input.as_str());
                if typed.len() > 0 {
                    let kept = slice_chars(typed.as_slice(), 0, typed.len() - 1);
                    self.input = string_of(kept.as_slice());
                }
                self.selected = 0;
                self.refresh();
                Event::Filtered
            },
            Key::Down | Key::Tab => {
                let last = if self.entries.len() == 0 { 0 } else { self.entries.len() - 1 };
                self.selected = if self.selected + 1 < last { self.selected + 1 } else { last };
                Event::Moved
            },
            Key::Up | Key::BackTab => {
                self.selected = if self.selected > 0 { self.selected - 1 } else { 0 };
                Event::Moved
            },
            Key::Enter => match self.current() {
                Some(row) => Event::Chose(row.action.duplicate()),
                None => Event::Ignored,
            },
            _ => Event::Ignored,
        }
    }
}

impl Menu {
    /// What the box draws, and where the cursor is in it: the entries with [`RAW_CAPTION`]
    /// inserted where the curated workflows give way to the generated names. `None` for the
    /// cursor when the filter matched nothing.
    pub fn shown(&self) -> (r: (Vec<Shown<'_>>, Option<usize>))
        ensures
            shown_view(r.0@) == shown_spec(rows_view(self.entries@)),
            r.1 == shown_cursor(rows_view(self.entries@), self.selected as int),
    {
        let at = boundary(self.entries.as_slice());
        let ghost ev = rows_view(self.entries@);
        let mut rows: Vec<Shown<'_>> = Vec::new();
        let mut cursor: Option<usize> = None;
        let mut i: usize = 0;
        while i < self.entries.len()
            invariant
                i <= self.entries@.len(),
                ev == rows_view(self.entries@),
                at matches Some(b) ==> boundary_spec(ev) == Some(b as int),
                at is None ==> boundary_spec(ev) is None,
                shown_view(rows@) == shown_upto(ev, boundary_spec(ev), i as int),
                cursor == (if self.selected < i { Some(shown_index(boundary_spec(ev), self.selected as int) as usize) } else { None::<usize> }),
                rows@.len() == shown_upto(ev, boundary_spec(ev), i as int).len(),
                rows@.len() <= 2 * i,
            decreases self.entries.len() - i,
        {
            let ghost before = shown_view(rows@);
            let mark = match at {
                Some(b) => b == i,
                None => false,
            };
            if mark {
                rows.push(Shown::Boundary);
            }
            proof {
                lemma_shown_upto_len(ev, boundary_spec(ev), i as int);
            }
            if i == self.selected {
                cursor = Some(rows.len());
            }
            rows.push(Shown::Row(&self.entries[i]));
            proof {
                if mark {
                    assert(shown_view(rows@) =~= before.push(None).push(Some(ev[i as int])));
                } else {
                    assert(shown_view(rows@) =~= before.push(Some(ev[i as int])));
                }
            }
            i = i + 1;
        }
        (rows, cursor)
    }
}

/// A row of the drawn box: an action, or the rule under the last curated workflow.
pub enum Shown<'a> {
    Row(&'a Row),
    Boundary,
}

/// A drawn box as values: `None` is the rule.
pub open spec fn shown_view(v: Seq<Shown>) -> Seq<Option<RowV>> {
    v.map_values(|s: Shown| match s {
        Shown::Row(r) => Some(r@),
        Shown::Boundary => None,
    })
}

/// The box for the first `n` entries, with the rule before the entry at `at`.
pub open spec fn shown_upto(entries: Seq<RowV>, at: Option<int>, n: int) -> Seq<Option<RowV>>
    decreases n,
{
    if n <= 0 {
        Seq::empty()
    } else {
        let before = shown_upto(entries, at, n - 1);
        let with_rule = if at == Some(n - 1) { before.push(None) } else { before };
        with_rule.push(Some(entries[n - 1]))
    }
}

/// How long the box for the first `n` entries is: one row more once the rule is above them.
proof fn lemma_shown_upto_len(entries: Seq<RowV>, at: Option<int>, n: int)
    requires
        n >= 0,
    ensures
        shown_upto(entries, at, n).len() == n + (if at matches Some(b) && 0 <= b < n { 1int } else { 0int }),
    decreases n,
{
    if n > 0 {
        lemma_shown_upto_len(entries, at, n - 1);
    }
}

/// The drawn box: every entry in order, with the rule before the first uncurated one when the
/// list holds some of each.
pub open spec fn shown_spec(entries: Seq<RowV>) -> Seq<Option<RowV>> {
    shown_upto(entries, boundary_spec(entries), entries.len() as int)
}

/// Where entry `i` lands in the drawn box: one further down when it is at or past the rule.
pub open spec fn shown_index(at: Option<int>, i: int) -> int {
    match at {
        Some(b) => if i >= b { i + 1 } else { i },
        None => i,
    }
}

/// Where the cursor is in the drawn box, or `None` when no entry carries it.
pub open spec fn shown_cursor(entries: Seq<RowV>, selected: int) -> Option<usize> {
    if 0 <= selected < entries.len() {
        Some(shown_index(boundary_spec(entries), selected) as usize)
    } else {
        None
    }
}

/// The input with its last character taken off, when it has one.
pub open spec fn backspaced(s: Seq<char>) -> Seq<char> {
    if s.len() == 0 { s } else { s.drop_last() }
}

/// What [`Menu::key`] does: `old` and `new` are the menu before and after, `r` what it returns.
pub open spec fn menu_key_spec(old: Menu, key: Key, new: Menu, r: Event) -> bool {
    let len = old.entries@.len() as int;
    match key {
        Key::Esc => r == Event::Cancelled && new.input@ == old.input@ && new.selected == old.selected
            && rows_view(new.entries@) == rows_view(old.entries@),
        Key::Char(c) => r == Event::Filtered && new.input@ == old.input@.push(c) && new.selected == 0,
        Key::Backspace => r == Event::Filtered && new.input@ == backspaced(old.input@) && new.selected == 0,
        Key::Down | Key::Tab => r == Event::Moved && new.input@ == old.input@
            && rows_view(new.entries@) == rows_view(old.entries@)
            && new.selected == clamp(old.selected + 1, len),
        Key::Up | Key::BackTab => r == Event::Moved && new.input@ == old.input@
            && rows_view(new.entries@) == rows_view(old.entries@)
            && new.selected == (if old.selected > 0 { old.selected - 1 } else { 0 }),
        Key::Enter => new.input@ == old.input@ && new.selected == old.selected
            && rows_view(new.entries@) == rows_view(old.entries@)
            && if old.selected < len {
                r matches Event::Chose(a) && a@ == old.entries@[old.selected as int].action@
            } else {
                r == Event::Ignored
            },
        _ => r == Event::Ignored && new.input@ == old.input@ && new.selected == old.selected
            && rows_view(new.entries@) == rows_view(old.entries@),
    }
}

/// With nothing typed, every row is listed.
pub proof fn lemma_filtered_empty_needle(rows: Seq<RowV>, needle: Seq<char>)
    requires
        needle.len() == 0,
    ensures
        filtered(rows, needle) == rows,
    decreases rows.len(),
{
    if rows.len() > 0 {
        lemma_filtered_empty_needle(rows.drop_last(), needle);
        assert(rows.drop_last().push(rows.last()) =~= rows);
    }
}

/// In the order every action surface lists in, the curated actions lead in their curated order
/// and no curated action comes after an uncurated one.
pub proof fn lemma_curated_lead(rows: Seq<RowV>)
    requires
        sorted_rows(rows),
    ensures
        forall|i: int, j: int| 0 <= i < j < rows.len() && rows[j].action.order != 0 ==> {
            &&& rows[i].action.order != 0
            &&& rows[i].action.order <= rows[j].action.order
        },
{
    assert forall|i: int, j: int| 0 <= i < j < rows.len() && rows[j].action.order != 0 implies {
        &&& rows[i].action.order != 0
        &&& rows[i].action.order <= rows[j].action.order
    } by {
        assert(row_le(rows[i], rows[j]));
    }
}

/// A needle that occurs somewhere has each of its prefixes occurring there too.
pub proof fn lemma_contains_shorter(hay: Seq<char>, needle: Seq<char>, c: char)
    requires
        contains_spec(hay, needle.push(c)),
    ensures
        contains_spec(hay, needle),
{
    let at = choose|at: int| crate::ascii::occurs_at(hay, needle.push(c), at);
    assert(hay.subrange(at, at + needle.len()) =~= needle.push(c).subrange(0, needle.len() as int));
    assert(needle.push(c).subrange(0, needle.len() as int) =~= needle);
    assert(crate::ascii::occurs_at(hay, needle, at));
}

/// Typing one more character only narrows the list: what the longer needle keeps is what it
/// keeps of the rows the shorter one kept.
pub proof fn lemma_typing_narrows(rows: Seq<RowV>, needle: Seq<char>, c: char)
    ensures
        filtered(rows, needle.push(c)) == filtered(filtered(rows, needle), needle.push(c)),
    decreases rows.len(),
{
    if rows.len() > 0 {
        let last = rows.last();
        lemma_typing_narrows(rows.drop_last(), needle, c);
        if matches(last, needle.push(c)) {
            if contains_spec(fold_seq(last.action.title), needle.push(c)) {
                lemma_contains_shorter(fold_seq(last.action.title), needle, c);
            }
            if contains_spec(last.action.name, needle.push(c)) {
                lemma_contains_shorter(last.action.name, needle, c);
            }
            assert(matches(last, needle));
        }
        let kept = filtered(rows.drop_last(), needle);
        if matches(last, needle) {
            assert(filtered(rows, needle) == kept.push(last));
            assert(filtered(rows, needle).drop_last() =~= kept);
        } else {
            assert(filtered(rows, needle) == kept);
        }
    }
}

/// A typed character narrows the open menu: its entries are the ones it listed before that the
/// longer input still matches, in the same order.
pub proof fn lemma_key_narrows(before: Menu, c: char, after: Menu, r: Event)
    requires
        before.wf(),
        after.wf(),
        after.rows == before.rows,
        menu_key_spec(before, Key::Char(c), after, r),
    ensures
        rows_view(after.entries@) == filtered(rows_view(before.entries@), fold_seq(after.input@)),
{
    assert(fold_seq(after.input@) =~= fold_seq(before.input@).push(crate::ascii::fold(c)));
    lemma_typing_narrows(rows_view(before.rows@), fold_seq(before.input@), crate::ascii::fold(c));
}

} // verus!
