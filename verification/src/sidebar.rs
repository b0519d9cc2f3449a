//! The left menu: every major Nutanix feature, and a way to it that needs no kind id.
//!
//! It owns its selection, its collapse set and its filter; the app applies the effects a key
//! asks for. Its scroll window is not state: the frame is drawn against the pane it actually
//! has, so the highlight can never name a row the frame is not showing.

use vstd::prelude::*;
use crate::ascii::{chars_of, contains_chars, contains_spec, fold_chars, fold_seq, push_char, slice_chars, str_eq, string_of};
use crate::catalog::{copy_opt, nav_view, opt_view, strings_view, NavGroup, NavGroupV, NavItem, NavItemV, NavTarget, NavTargetV};
use crate::key::Key;

verus! {

/// One row of the flattened menu.
#[derive(Debug, Clone, Copy, PartialEq, Eq, Structural)]
pub enum Row {
    Group { group: usize },
    Item { group: usize, item: usize },
    /// The caption between the curated menu and the namespaces under it. Not a place to stand,
    /// and drawn only when a namespace group actually follows it.
    Separator,
}

/// The Dashboard's group, as the menu draws it.
pub const DASHBOARD_GROUP: &'static str = "Dashboard";
/// The page behind the Dashboard's only item.
pub const DASHBOARD_PAGE: &'static str = "dashboard";

/// Never hidden, whatever the user types: the Dashboard is the way back to a screen that
/// works, and it is what a bare launch opens onto. Both its names are refused.
pub fn protected(id: &str) -> (r: bool)
    ensures
        r == (id@ == DASHBOARD_GROUP@ || id@ == DASHBOARD_PAGE@),
{
    str_eq(id, DASHBOARD_GROUP) || str_eq(id, DASHBOARD_PAGE)
}

/// What a key did, for the app to act on: the sidebar cannot reach the session or the store.
#[derive(Debug, Clone, PartialEq, Eq)]
pub enum Action {
    Moved,
    Filtered,
    Toggled,
    /// `enter` on an item: the item itself, so its note travels with it.
    Open(NavItem),
    /// `tab` or `esc`: the body takes the keys back.
    Blur,
    /// A key the menu does not claim, which the body still binds.
    Passthrough(Key),
    Ignored,
}

/// The menu.
pub struct Sidebar {
    /// The groups the menu draws, curated ones first.
    pub nav: Vec<NavGroup>,
    /// How many of the groups are curated; the rest are the API's namespaces.
    pub curated_groups: usize,
    /// The user's answer to "should there be a menu": `ctrl-b` flips it.
    pub visible: bool,
    /// Whether `ctrl-b` was ever pressed.
    pub toggled: bool,
    pub selected: usize,
    /// Whether `/` is taking characters.
    pub filtering: bool,
    /// What the body is showing, so the menu can mark it.
    pub open: Option<NavTarget>,
    /// The groups that are collapsed.
    pub collapsed: Vec<usize>,
    pub filter: String,
    /// The flattening of the groups under the collapse set, the filter and the hidden set.
    pub rows: Vec<Row>,
    /// Ids and group names the app has computed as hidden.
    pub hidden: Vec<String>,
    /// Why a kind cannot be opened on this Prism Central, by kind id.
    pub unserved: Vec<(String, String)>,
    /// Per group, how many of its items the last flattening dropped.
    pub dropped: Vec<usize>,
}

/// Whether a hidden set hides `item` of the group named `group_name`. Never the item that is
/// open, nor `Contexts` or `Settings`, the ways back out of hiding; then everything in a hidden
/// group; then a kind or page hidden by its id.
pub open spec fn hides_spec(open: Option<NavTargetV>, hidden: Seq<Seq<char>>, group_name: Seq<char>, item: NavItemV) -> bool {
    if open == Some(item.target) || item.target is Contexts || item.target is Settings {
        false
    } else if hidden.contains(group_name) {
        true
    } else {
        match item.target {
            NavTargetV::Kind(id) => hidden.contains(id),
            NavTargetV::Page(id) => hidden.contains(id),
            _ => false,
        }
    }
}

/// Whether a (folded) filter keeps an item: an empty filter keeps everything.
pub open spec fn item_matches(item: NavItemV, needle: Seq<char>) -> bool {
    needle.len() == 0 || contains_spec(fold_seq(item.label), needle)
}

impl NavState {
    /// Whether item `item` of group `g` is hidden.
    pub open spec fn hides_at(&self, g: int, item: NavItemV) -> bool {
        hides_spec(self.open, self.hidden, self.groups[g].name, item)
    }

    /// Every item of group `g` is hidden.
    pub open spec fn all_hidden(&self, g: int) -> bool {
        forall|i: int| 0 <= i < self.groups[g].items.len() ==> #[trigger] self.hides_at(g, self.groups[g].items[i])
    }

    /// Some item of group `g` matches the filter.
    pub open spec fn any_match(&self, g: int) -> bool {
        exists|i: int| 0 <= i < self.groups[g].items.len() && #[trigger] item_matches(self.groups[g].items[i], self.needle)
    }

    /// Whether group `g` is drawn: a group named in the hidden set goes whole when everything
    /// in it is hidden and nothing is typed; under a filter, a group with no match goes.
    pub open spec fn shown(&self, g: int) -> bool {
        &&& !(self.hidden.contains(self.groups[g].name) && self.all_hidden(g) && self.needle.len() == 0)
        &&& !(self.needle.len() > 0 && !self.any_match(g))
    }

    /// The rows for the first `n` items of group `g`, and how many of them were dropped as
    /// hidden. A filter always shows a matching hidden item; without one it is dropped and
    /// counted.
    pub open spec fn items_upto(&self, g: int, n: int) -> (Seq<Row>, nat)
        decreases n,
    {
        if n <= 0 {
            (Seq::empty(), 0)
        } else {
            let (rows, d) = self.items_upto(g, n - 1);
            let it = self.groups[g].items[n - 1];
            if !item_matches(it, self.needle) {
                (rows, d)
            } else if self.hides_at(g, it) && self.needle.len() == 0 {
                (rows, d + 1)
            } else {
                (rows.push(Row::Item { group: g as usize, item: (n - 1) as usize }), d)
            }
        }
    }

    /// How many of the first `n` items of group `g` are hidden.
    pub open spec fn hidden_count(&self, g: int, n: int) -> nat
        decreases n,
    {
        if n <= 0 {
            0
        } else {
            self.hidden_count(g, n - 1) + if self.hides_at(g, self.groups[g].items[n - 1]) { 1nat } else { 0nat }
        }
    }

    /// A drawn group's rows and dropped count: its header, then its items unless it is
    /// collapsed with nothing typed, in which case the header carries the count.
    pub open spec fn group_body(&self, g: int) -> (Seq<Row>, nat) {
        let n = self.groups[g].items.len() as int;
        if self.needle.len() == 0 && self.collapsed.contains(g as usize) {
            (seq![Row::Group { group: g as usize }], self.hidden_count(g, n))
        } else {
            let (rows, d) = self.items_upto(g, n);
            (seq![Row::Group { group: g as usize }] + rows, d)
        }
    }

    /// The flattening of the first `n` groups: the rows, the dropped count of each group, and
    /// whether the caption has been written. The caption goes before the first namespace group
    /// that is drawn.
    pub open spec fn flatten_upto(&self, n: int) -> (Seq<Row>, Seq<nat>, bool)
        decreases n,
    {
        if n <= 0 {
            (Seq::empty(), Seq::empty(), false)
        } else {
            let (rows, dropped, captioned) = self.flatten_upto(n - 1);
            let g = n - 1;
            if !self.shown(g) {
                (rows, dropped.push(0), captioned)
            } else {
                let sep = g >= self.curated && !captioned;
                let (body, d) = self.group_body(g);
                (
                    (if sep { rows.push(Row::Separator) } else { rows }) + body,
                    dropped.push(d),
                    captioned || sep,
                )
            }
        }
    }


}

impl NavState {
    /// Under a filter, the first `n` items' rows hold every one of them whose folded label the
    /// filter occurs in.
    proof fn lemma_items_keep_matches(&self, g: int, n: int, i: usize)
        requires
            self.needle.len() > 0,
            0 <= g < self.groups.len(),
            0 <= i < n <= self.groups[g].items.len(),
            n <= usize::MAX,
            contains_spec(fold_seq(self.groups[g].items[i as int].label), self.needle),
        ensures
            self.items_upto(g, n).0.contains(Row::Item { group: g as usize, item: i }),
        decreases n,
    {
        let (rows, d) = self.items_upto(g, n - 1);
        let x = Row::Item { group: g as usize, item: i };
        if i as int == n - 1 {
            assert(item_matches(self.groups[g].items[n - 1], self.needle));
            assert(self.items_upto(g, n).0 == rows.push(x));
            assert(self.items_upto(g, n).0[rows.len() as int] == x);
        } else {
            self.lemma_items_keep_matches(g, n - 1, i);
            let w = choose|w: int| 0 <= w < rows.len() && rows[w] == x;
            let cur = self.items_upto(g, n).0;
            assert(cur == rows || cur == rows.push(Row::Item { group: g as usize, item: (n - 1) as usize }));
            assert(cur[w] == x);
        }
    }

    /// The flattening only ever grows: the rows of the first `k` groups lead those of the first
    /// `m`.
    proof fn lemma_flatten_grows(&self, k: int, m: int)
        requires
            0 <= k <= m,
        ensures
            self.flatten_upto(k).0.len() <= self.flatten_upto(m).0.len(),
            forall|j: int| 0 <= j < self.flatten_upto(k).0.len() ==> #[trigger] self.flatten_upto(m).0[j] == self.flatten_upto(k).0[j],
        decreases m - k,
    {
        if k < m {
            self.lemma_flatten_grows(k, m - 1);
            let (rows, dropped, captioned) = self.flatten_upto(m - 1);
            let g = m - 1;
            if self.shown(g) {
                let sep = g >= self.curated && !captioned;
                let pre = if sep { rows.push(Row::Separator) } else { rows };
                let (body, d) = self.group_body(g);
                assert(self.flatten_upto(m).0 == pre + body);
                assert forall|j: int| 0 <= j < rows.len() implies #[trigger] self.flatten_upto(m).0[j] == rows[j] by {
                    assert(pre[j] == rows[j]);
                }
            }
        }
    }

    /// Under a filter, the menu lists every item whose folded label the filter occurs in -
    /// anywhere in the label, not only at its start - and whatever the hidden set or the
    /// collapsed groups say.
    pub proof fn a_filter_lists_every_item_it_occurs_in(&self, g: usize, i: usize)
        requires
            self.needle.len() > 0,
            g < self.groups.len(),
            i < self.groups[g as int].items.len(),
            self.groups[g as int].items.len() <= usize::MAX,
            contains_spec(fold_seq(self.groups[g as int].items[i as int].label), self.needle),
        ensures
            self.flatten_upto(self.groups.len() as int).0.contains(Row::Item { group: g, item: i }),
    {
        let x = Row::Item { group: g, item: i };
        let n = self.groups[g as int].items.len() as int;
        self.lemma_items_keep_matches(g as int, n, i);
        assert(item_matches(self.groups[g as int].items[i as int], self.needle));
        assert(self.any_match(g as int));
        assert(self.shown(g as int));
        let items = self.items_upto(g as int, n).0;
        let (body, d) = self.group_body(g as int);
        assert(body == seq![Row::Group { group: g }] + items);
        let wi = choose|w: int| 0 <= w < items.len() && items[w] == x;
        assert(body[wi + 1] == x);
        let (rows, dropped, captioned) = self.flatten_upto(g as int);
        let sep = g >= self.curated && !captioned;
        let pre = if sep { rows.push(Row::Separator) } else { rows };
        let out = self.flatten_upto(g as int + 1).0;
        assert(out == pre + body);
        assert(out[pre.len() + wi + 1] == x);
        self.lemma_flatten_grows(g as int + 1, self.groups.len() as int);
        assert(self.flatten_upto(self.groups.len() as int).0[pre.len() + wi + 1] == x);
    }
}

/// What the flattening of the menu reads: the groups, how many are curated, what is open, the
/// collapse set, the filter (folded) and the hidden set.
pub struct NavState {
    pub groups: Seq<NavGroupV>,
    pub curated: usize,
    pub open: Option<NavTargetV>,
    pub collapsed: Seq<usize>,
    pub needle: Seq<char>,
    pub hidden: Seq<Seq<char>>,
}

impl Sidebar {
    /// What the flattening reads of this menu.
    pub open spec fn state(&self) -> NavState {
        NavState {
            groups: nav_view(self.nav@),
            curated: self.curated_groups,
            open: match self.open {
                Some(t) => Some(t@),
                None => None,
            },
            collapsed: self.collapsed@,
            needle: fold_seq(self.filter@),
            hidden: strings_view(self.hidden@),
        }
    }

    /// The flattening of every group.
    pub open spec fn flattened(&self) -> (Seq<Row>, Seq<nat>, bool) {
        self.state().flatten_upto(self.nav@.len() as int)
    }

    /// Whether item `item` of group `g` is hidden by the current hidden set.
    fn hides(&self, g: usize, item: &NavItem) -> (r: bool)
        requires
            g < self.nav@.len(),
        ensures
            r == self.state().hides_at(g as int, item@),
    {
        let is_open = match &self.open {
            Some(t) => t.same(&item.target),
            None => false,
        };
        let way_out = match &item.target {
            NavTarget::Contexts | NavTarget::Settings => true,
            _ => false,
        };
        if is_open || way_out {
            return false;
        }
        assert(self.state().groups[g as int].name == self.nav@[g as int].name@);
        if self.is_hidden_name(self.nav[g].name.as_str()) {
            return true;
        }
        match &item.target {
            NavTarget::Kind(id) => self.is_hidden_name(id.as_str()),
            NavTarget::Page(id) => self.is_hidden_name(id.as_str()),
            _ => false,
        }
    }

    /// Whether `name` is in the hidden set.
    fn is_hidden_name(&self, name: &str) -> (r: bool)
        ensures
            r == strings_view(self.hidden@).contains(name@),
    {
        let ghost hv = strings_view(self.hidden@);
        let mut i: usize = 0;
        while i < self.hidden.len()
            invariant
                i <= self.hidden@.len(),
                hv == strings_view(self.hidden@),
                forall|j: int| 0 <= j < i ==> hv[j] != name@,
            decreases self.hidden.len() - i,
        {
            if str_eq(self.hidden[i].as_str(), name) {
                assert(hv[i as int] == name@);
                return true;
            }
            i = i + 1;
        }
        false
    }
}

/// Whether `needle` (already folded) keeps `item`.
fn matches_item(item: &NavItem, needle: &[char]) -> (r: bool)
    ensures
        r == item_matches(item@, needle@),
{
    if needle.len() == 0 {
        return true;
    }
    let label = chars_of(item.label.as_str());
    let label = fold_chars(label.as_slice());
    contains_chars(label.as_slice(), needle)
}

/// Whether row `i` is the caption.
pub open spec fn is_sep(rows: Seq<Row>, i: int) -> bool {
    0 <= i < rows.len() && rows[i] == Row::Separator
}

/// `index` unless it is the caption, in which case the next row the way the cursor was going,
/// or - at the end of the list - the other way.
pub open spec fn past_separator_spec(rows: Seq<Row>, index: int, down: bool) -> int {
    if !is_sep(rows, index) {
        index
    } else {
        let last = if rows.len() == 0 { 0 } else { rows.len() - 1 };
        let forward = if index + 1 < last { index + 1 } else { last };
        let back = if index > 0 { index - 1 } else { 0 };
        let first = if down { forward } else { back };
        let second = if down { back } else { forward };
        if !is_sep(rows, first) {
            first
        } else if !is_sep(rows, second) {
            second
        } else {
            index
        }
    }
}

/// The first row from the top that is not the caption.
pub open spec fn top_row(rows: Seq<Row>) -> int {
    past_separator_spec(rows, 0, true)
}

/// The dropped counts, as naturals.
pub open spec fn counts_view(v: Seq<usize>) -> Seq<nat> {
    v.map_values(|d: usize| d as nat)
}

impl Sidebar {
    /// Whether group `g` is drawn under the current filter and hidden set.
    fn group_shown(&self, g: usize, needle: &Vec<char>) -> (r: bool)
        requires
            g < self.nav@.len(),
            needle@ == self.state().needle,
        ensures
            r == self.state().shown(g as int),
    {
        let ghost gv = self.state().groups[g as int];
        assert(gv == self.nav@[g as int]@);
        let name_hidden = self.is_hidden_name(self.nav[g].name.as_str());
        let items = &self.nav[g].items;
        let mut all = true;
        let mut any = false;
        let mut i: usize = 0;
        while i < items.len()
            invariant
                i <= items@.len(),
                g < self.nav@.len(),
                items == self.nav@[g as int].items,
                gv == self.state().groups[g as int],
                gv.items == crate::catalog::items_view(items@),
                needle@ == self.state().needle,
                all == (forall|j: int| 0 <= j < i ==> #[trigger] self.state().hides_at(g as int, gv.items[j])),
                any == (exists|j: int| 0 <= j < i && #[trigger] item_matches(gv.items[j], self.state().needle)),
            decreases items.len() - i,
        {
            assert(gv.items[i as int] == items@[i as int]@);
            let h = self.hides(g, &items[i]);
            let m = matches_item(&items[i], needle.as_slice());
            if !h {
                all = false;
            }
            if m {
                any = true;
            }
            i = i + 1;
        }
        !(name_hidden && all && needle.len() == 0) && !(needle.len() > 0 && !any)
    }

    /// Reflattens the groups under the current collapse set, filter and hidden set, then pulls
    /// the cursor back onto the list it now describes, and off the caption.
    fn refresh(&mut self)
        ensures
            final(self).nav == old(self).nav,
            final(self).curated_groups == old(self).curated_groups,
            final(self).open == old(self).open,
            final(self).collapsed == old(self).collapsed,
            final(self).filter == old(self).filter,
            final(self).hidden == old(self).hidden,
            final(self).unserved == old(self).unserved,
            final(self).visible == old(self).visible,
            final(self).toggled == old(self).toggled,
            final(self).filtering == old(self).filtering,
            final(self).state() == old(self).state(),
            final(self).rows@ == old(self).flattened().0,
            counts_view(final(self).dropped@) == old(self).flattened().1,
            final(self).selected == past_separator_spec(
                final(self).rows@,
                if old(self).selected < final(self).rows@.len() { old(self).selected as int }
                    else if final(self).rows@.len() == 0 { 0 } else { final(self).rows@.len() - 1 },
                false,
            ),
    {
        let typed = chars_of(self.filter.as_str());
        let needle = fold_chars(typed.as_slice());
        let mut rows: Vec<Row> = Vec::new();
        let mut dropped: Vec<usize> = Vec::new();
        let mut captioned = false;
        let mut g: usize = 0;
        while g < self.nav.len()
            invariant
                g <= self.nav@.len(),
                needle@ == self.state().needle,
                (rows@, counts_view(dropped@), captioned) == self.state().flatten_upto(g as int),
            decreases self.nav.len() - g,
        {
            let ghost prev = self.state().flatten_upto(g as int);
            let ghost gv = self.state().groups[g as int];
            assert(gv == self.nav@[g as int]@);
            if !self.group_shown(g, &needle) {
                dropped.push(0);
                proof {
                    assert(counts_view(dropped@) =~= prev.1.push(0));
                }
                g = g + 1;
                continue;
            }
            let sep = g >= self.curated_groups && !captioned;
            if sep {
                rows.push(Row::Separator);
                captioned = true;
            }
            let ghost base = rows@;
            rows.push(Row::Group { group: g });
            let items = &self.nav[g].items;
            let collapsed = needle.len() == 0 && self.is_collapsed(g);
            if collapsed {
                let mut c: usize = 0;
                let mut i: usize = 0;
                while i < items.len()
                    invariant
                        i <= items@.len(),
                        g < self.nav@.len(),
                        items == self.nav@[g as int].items,
                        gv == self.state().groups[g as int],
                        gv.items == crate::catalog::items_view(items@),
                        c == self.state().hidden_count(g as int, i as int),
                        c <= i,
                    decreases items.len() - i,
                {
                    assert(gv.items[i as int] == items@[i as int]@);
                    if self.hides(g, &items[i]) {
                        c = c + 1;
                    }
                    i = i + 1;
                }
                dropped.push(c);
                proof {
                    assert(counts_view(dropped@) =~= prev.1.push(c as nat));
                    assert(rows@ =~= base + seq![Row::Group { group: g }]);
                }
            } else {
                let ghost head = rows@;
                let mut d: usize = 0;
                let mut i: usize = 0;
                while i < items.len()
                    invariant
                        i <= items@.len(),
                        g < self.nav@.len(),
                        items == self.nav@[g as int].items,
                        gv == self.state().groups[g as int],
                        gv.items == crate::catalog::items_view(items@),
                        needle@ == self.state().needle,
                        rows@ == head + self.state().items_upto(g as int, i as int).0,
                        d == self.state().items_upto(g as int, i as int).1,
                        d <= i,
                    decreases items.len() - i,
                {
                    assert(gv.items[i as int] == items@[i as int]@);
                    let ghost before = rows@;
                    if matches_item(&items[i], needle.as_slice()) {
                        if self.hides(g, &items[i]) && needle.len() == 0 {
                            d = d + 1;
                        } else {
                            rows.push(Row::Item { group: g, item: i });
                            proof {
                                assert(rows@ =~= before.push(Row::Item { group: g, item: i }));
                            }
                        }
                    }
                    i = i + 1;
                }
                dropped.push(d);
                proof {
                    assert(counts_view(dropped@) =~= prev.1.push(d as nat));
                    assert(head =~= base + seq![Row::Group { group: g }]);
                }
            }
            proof {
                let (body, dd) = self.state().group_body(g as int);
                assert(rows@ =~= (if sep { prev.0.push(Row::Separator) } else { prev.0 }) + body);
            }
            g = g + 1;
        }
        self.rows = rows;
        self.dropped = dropped;
        let n = self.rows.len();
        let last = if n == 0 { 0 } else { n - 1 };
        if self.selected > last {
            self.selected = last;
        }
        self.selected = self.past_separator(self.selected, false);
    }

    /// Whether group `g` is collapsed.
    pub fn is_collapsed(&self, g: usize) -> (r: bool)
        ensures
            r == self.collapsed@.contains(g),
    {
        let mut i: usize = 0;
        while i < self.collapsed.len()
            invariant
                i <= self.collapsed@.len(),
                forall|j: int| 0 <= j < i ==> self.collapsed@[j] != g,
            decreases self.collapsed.len() - i,
        {
            if self.collapsed[i] == g {
                assert(self.collapsed@[i as int] == g);
                return true;
            }
            i = i + 1;
        }
        false
    }

    /// `index` unless it is the caption, in which case the next row the way the cursor was
    /// going, or - at the end of the list - the other way.
    fn past_separator(&self, index: usize, down: bool) -> (r: usize)
        ensures
            r == past_separator_spec(self.rows@, index as int, down),
    {
        let n = self.rows.len();
        if index >= n || self.rows[index] != Row::Separator {
            return index;
        }
        let last = if n == 0 { 0 } else { n - 1 };
        let forward = if index + 1 < last { index + 1 } else { last };
        let back = if index > 0 { index - 1 } else { 0 };
        let first = if down { forward } else { back };
        let second = if down { back } else { forward };
        if first >= n || self.rows[first] != Row::Separator {
            first
        } else if second >= n || self.rows[second] != Row::Separator {
            second
        } else {
            index
        }
    }
}

/// The first index at or after `k` where `s` holds `x`.
pub open spec fn index_from(s: Seq<Row>, x: Row, k: int) -> Option<int>
    decreases s.len() - k,
{
    if k < 0 || k >= s.len() {
        None
    } else if s[k] == x {
        Some(k)
    } else {
        index_from(s, x, k + 1)
    }
}

/// Where `x` first stands in `s`.
pub fn position(s: &Vec<Row>, x: Row) -> (r: Option<usize>)
    ensures
        index_from(s@, x, 0) == (match r {
            Some(i) => Some(i as int),
            None => None::<int>,
        }),
        r matches Some(i) ==> i < s@.len() && s@[i as int] == x,
{
    let mut i: usize = 0;
    while i < s.len()
        invariant
            i <= s@.len(),
            index_from(s@, x, 0) == index_from(s@, x, i as int),
        decreases s.len() - i,
    {
        if s[i] == x {
            return Some(i);
        }
        i = i + 1;
    }
    None
}

/// The group a row belongs to; `None` for the caption and past the end.
pub open spec fn group_of(rows: Seq<Row>, index: int) -> Option<usize> {
    if 0 <= index < rows.len() {
        match rows[index] {
            Row::Group { group } => Some(group),
            Row::Item { group, .. } => Some(group),
            Row::Separator => None,
        }
    } else {
        None
    }
}

/// The caption is written at most once, and only right above a group header.
pub open spec fn caption_ok(rows: Seq<Row>) -> bool {
    &&& forall|i: int| #[trigger] is_sep(rows, i) ==> i + 1 < rows.len() && rows[i + 1] is Group
    &&& forall|i: int, j: int| #[trigger] is_sep(rows, i) && #[trigger] is_sep(rows, j) ==> i == j
}

impl Sidebar {
    /// The rows are the flattening of the groups, the counts are its counts, and there is a
    /// curated group for the digits to jump to.
    pub open spec fn wf(&self) -> bool {
        &&& self.rows@ == self.flattened().0
        &&& counts_view(self.dropped@) == self.flattened().1
        &&& self.curated_groups > 0
        &&& self.rows@.len() == 0 ==> self.selected == 0
        &&& self.rows@.len() > 0 ==> self.selected < self.rows@.len()
    }

    /// The cursor is on a row, and not on the caption.
    pub open spec fn cursor_ok(&self) -> bool {
        self.rows@.len() > 0 ==> self.selected < self.rows@.len() && !is_sep(self.rows@, self.selected as int)
    }

}

impl NavState {
    /// The flattening writes the caption at most once, and only right above a group header;
    /// it is written exactly when it has been.
    pub proof fn lemma_caption(&self, n: int)
        requires
            0 <= n <= self.groups.len(),
        ensures
            caption_ok(self.flatten_upto(n).0),
            self.flatten_upto(n).2 <==> exists|i: int| #[trigger] is_sep(self.flatten_upto(n).0, i),
            self.flatten_upto(n).1.len() == n,
        decreases n,
    {
        if n > 0 {
            self.lemma_caption(n - 1);
            let (rows, dropped, captioned) = self.flatten_upto(n - 1);
            let g = n - 1;
            if self.shown(g) {
                let sep = g >= self.curated && !captioned;
                let (body, d) = self.group_body(g);
                let pre = if sep { rows.push(Row::Separator) } else { rows };
                let out = pre + body;
                assert(body[0] is Group);
                if self.needle.len() == 0 && self.collapsed.contains(g as usize) {
                } else {
                    self.lemma_items_no_sep(g, self.groups[g].items.len() as int);
                }
                let items_n = self.groups[g].items.len() as int;
                assert forall|i: int| #[trigger] is_sep(out, i) implies i < pre.len() && (i < rows.len() ==> is_sep(rows, i)) && (i >= rows.len() ==> sep && i == rows.len()) by {
                    if i >= pre.len() {
                        assert(out[i] == body[i - pre.len()]);
                        if i > pre.len() {
                            assert(body[i - pre.len()] == self.items_upto(g, items_n).0[i - pre.len() - 1]);
                        }
                    } else {
                        assert(out[i] == pre[i]);
                        if i < rows.len() {
                            assert(pre[i] == rows[i]);
                        }
                    }
                }
                assert forall|i: int| #[trigger] is_sep(out, i) implies i + 1 < out.len() && out[i + 1] is Group by {
                    if i < rows.len() {
                        assert(is_sep(rows, i));
                        assert(out[i + 1] == pre[i + 1]);
                        assert(pre[i + 1] == rows[i + 1]);
                    } else {
                        assert(out[i + 1] == body[0]);
                    }
                }
                assert forall|i: int, j: int| #[trigger] is_sep(out, i) && #[trigger] is_sep(out, j) implies i == j by {
                    if i < rows.len() && j < rows.len() {
                        assert(is_sep(rows, i) && is_sep(rows, j));
                    } else if i < rows.len() {
                        assert(is_sep(rows, i));
                    } else if j < rows.len() {
                        assert(is_sep(rows, j));
                    }
                }
                if sep {
                    assert(out[rows.len() as int] == pre[rows.len() as int]);
                    assert(is_sep(out, rows.len() as int));
                } else if captioned {
                    let w = choose|i: int| is_sep(rows, i);
                    assert(out[w] == pre[w]);
                    assert(is_sep(out, w));
                }
                assert forall|i: int| #[trigger] is_sep(out, i) implies (captioned || sep) by {
                    if i < rows.len() {
                        assert(is_sep(rows, i));
                    }
                }
            } else {
                if captioned {
                    let w = choose|i: int| is_sep(rows, i);
                    assert(is_sep(rows, w));
                }
            }
        }
    }

    /// An item list holds no caption.
    proof fn lemma_items_no_sep(&self, g: int, n: int)
        ensures
            forall|i: int| 0 <= i < self.items_upto(g, n).0.len() ==> (#[trigger] self.items_upto(g, n).0[i]) is Item,
        decreases n,
    {
        if n > 0 {
            self.lemma_items_no_sep(g, n - 1);
        }
    }
}

/// On rows whose caption is well placed, stepping past it from a row of the list lands on a
/// row that is not the caption.
pub proof fn lemma_past_separator_lands(rows: Seq<Row>, index: int, down: bool)
    requires
        caption_ok(rows),
        0 <= index < rows.len(),
    ensures
        0 <= past_separator_spec(rows, index, down) < rows.len(),
        !is_sep(rows, past_separator_spec(rows, index, down)),
{
    if is_sep(rows, index) {
        assert(index + 1 < rows.len());
        assert(!is_sep(rows, index + 1));
        if index > 0 {
            if is_sep(rows, index - 1) {
                assert(index - 1 == index);
            }
        }
    }
}

/// The cursor after a reflattening: pulled back onto the list, and off the caption.
pub open spec fn refresh_cursor(rows: Seq<Row>, selected: int) -> int {
    past_separator_spec(
        rows,
        if selected < rows.len() { selected } else if rows.len() == 0 { 0 } else { rows.len() - 1 },
        false,
    )
}

/// Whether `new` is the collapse set `old` with group `g` collapsed (`on`) or expanded.
pub open spec fn collapsed_after(old: Seq<usize>, new: Seq<usize>, g: usize, on: bool) -> bool {
    forall|x: usize| #[trigger] new.contains(x) <==> (if x == g { on } else { old.contains(x) })
}

/// Every row of the flattening names a group, or an item of a group, that exists.
pub open spec fn rows_valid(rows: Seq<Row>, groups: Seq<NavGroupV>) -> bool {
    forall|i: int| 0 <= i < rows.len() ==> match #[trigger] rows[i] {
        Row::Group { group } => group < groups.len(),
        Row::Item { group, item } => group < groups.len() && item < groups[group as int].items.len(),
        Row::Separator => true,
    }
}

impl NavState {
    /// The flattening names only groups and items that exist.
    pub proof fn lemma_rows_valid(&self, n: int)
        requires
            0 <= n <= self.groups.len(),
            self.groups.len() <= usize::MAX,
            forall|k: int| 0 <= k < self.groups.len() ==> #[trigger] self.groups[k].items.len() <= usize::MAX,
        ensures
            rows_valid(self.flatten_upto(n).0, self.groups),
        decreases n,
    {
        if n > 0 {
            self.lemma_rows_valid(n - 1);
            let (rows, dropped, captioned) = self.flatten_upto(n - 1);
            let g = n - 1;
            if self.shown(g) {
                let sep = g >= self.curated && !captioned;
                let (body, d) = self.group_body(g);
                let pre = if sep { rows.push(Row::Separator) } else { rows };
                let out = pre + body;
                let items_n = self.groups[g].items.len() as int;
                self.lemma_items_valid(g, items_n);
                assert forall|i: int| 0 <= i < out.len() implies match #[trigger] out[i] {
                    Row::Group { group } => group < self.groups.len(),
                    Row::Item { group, item } => group < self.groups.len() && item < self.groups[group as int].items.len(),
                    Row::Separator => true,
                } by {
                    if i < rows.len() {
                        assert(out[i] == rows[i]);
                    } else if i < pre.len() {
                        assert(out[i] == Row::Separator);
                    } else if i == pre.len() {
                        assert(out[i] == body[0]);
                    } else {
                        assert(out[i] == body[i - pre.len()]);
                        if !(self.needle.len() == 0 && self.collapsed.contains(g as usize)) {
                            assert(body[i - pre.len()] == self.items_upto(g, items_n).0[i - pre.len() - 1]);
                        }
                    }
                }
            }
        }
    }

    /// The items of group `g` name items that exist.
    proof fn lemma_items_valid(&self, g: int, n: int)
        requires
            0 <= g < self.groups.len(),
            g <= usize::MAX,
            n <= self.groups[g].items.len(),
            self.groups[g].items.len() <= usize::MAX,
        ensures
            forall|i: int| 0 <= i < self.items_upto(g, n).0.len() ==> ((#[trigger] self.items_upto(g, n).0[i]) matches Row::Item { group, item }
                && group == g && item < self.groups[g].items.len()),
        decreases n,
    {
        if n > 0 {
            self.lemma_items_valid(g, n - 1);
        }
    }
}

impl Sidebar {
    /// A menu over `nav`, whose first `curated_groups` groups are the curated ones, with every
    /// group collapsed: the headers already fill the pane, and an expanded group would push
    /// the rest off the bottom before the user asked for anything.
    pub fn over(nav: Vec<NavGroup>, curated_groups: usize) -> (s: Sidebar)
        requires
            curated_groups > 0,
        ensures
            s.wf(),
            s.cursor_ok(),
            s.nav == nav,
            s.curated_groups == curated_groups,
            s.visible,
            !s.toggled,
            !s.filtering,
            s.open is None,
            s.filter@.len() == 0,
            s.hidden@.len() == 0,
            s.unserved@.len() == 0,
            forall|g: usize| #[trigger] s.collapsed@.contains(g) <==> g < nav@.len(),
    {
        let n = nav.len();
        let mut collapsed: Vec<usize> = Vec::new();
        let mut g: usize = 0;
        while g < n
            invariant
                g <= n,
                collapsed@ == Seq::new(g as nat, |i: int| i as usize),
            decreases n - g,
        {
            collapsed.push(g);
            proof {
                assert(collapsed@ =~= Seq::new((g + 1) as nat, |i: int| i as usize));
            }
            g = g + 1;
        }
        proof {
            assert forall|x: usize| #[trigger] collapsed@.contains(x) <==> x < n by {
                if x < n {
                    assert(collapsed@[x as int] == x);
                }
            }
        }
        let mut s = Sidebar {
            nav,
            curated_groups,
            visible: true,
            toggled: false,
            selected: 0,
            filtering: false,
            open: None,
            collapsed,
            filter: String::new(),
            rows: Vec::new(),
            hidden: Vec::new(),
            unserved: Vec::new(),
            dropped: Vec::new(),
        };
        s.refresh();
        proof {
            assert(s.selected == refresh_cursor(s.rows@, 0));
            s.lemma_settled();
        }
        s
    }

    /// With a filter typed, the menu lists every item whose label holds the filter anywhere,
    /// ASCII case aside: `/policies` finds "Storage Policies".
    pub proof fn the_filter_finds_a_word_inside_a_label(&self, g: usize, i: usize)
        requires
            self.wf(),
            self.filter@.len() > 0,
            g < self.nav@.len(),
            i < self.nav@[g as int].items@.len(),
            contains_spec(fold_seq(self.nav@[g as int].items@[i as int].label@), fold_seq(self.filter@)),
        ensures
            self.rows@.contains(Row::Item { group: g, item: i }),
    {
        let st = self.state();
        assert(st.groups[g as int] == self.nav@[g as int]@);
        assert(st.groups[g as int].items[i as int] == self.nav@[g as int].items@[i as int]@);
        assert(st.groups[g as int].items.len() == self.nav@[g as int].items@.len());
        assert(self.nav@[g as int].items@.len() == self.nav@[g as int].items.len());
        assert(st.needle.len() == self.filter@.len());
        st.a_filter_lists_every_item_it_occurs_in(g, i);
    }

    /// On a well-formed menu the top row that is not the caption is a row of it: the caption
    /// always has a group header under it.
    proof fn lemma_top_not_caption(&self)
        requires
            self.wf(),
        ensures
            self.rows@.len() > 0 ==> top_row(self.rows@) < self.rows@.len() && !is_sep(self.rows@, top_row(self.rows@)),
            self.rows@.len() == 0 ==> top_row(self.rows@) == 0,
    {
        self.state().lemma_caption(self.nav@.len() as int);
        let rows = self.rows@;
        if rows.len() > 0 && is_sep(rows, 0) {
            assert(rows[1] is Group);
            assert(!is_sep(rows, 1));
        }
    }

    /// After a reflattening the menu is well formed and the cursor stands on a row.
    proof fn lemma_settled(&self)
        requires
            self.curated_groups > 0,
            self.rows@ == self.flattened().0,
            counts_view(self.dropped@) == self.flattened().1,
            exists|sel: int| self.selected == refresh_cursor(self.rows@, sel),
        ensures
            self.wf(),
            self.cursor_ok(),
    {
        let st = self.state();
        st.lemma_caption(self.nav@.len() as int);
        let sel = choose|sel: int| self.selected == refresh_cursor(self.rows@, sel);
        let rows = self.rows@;
        if rows.len() > 0 {
            let at = if sel < rows.len() { sel } else { rows.len() - 1 };
            if 0 <= at {
                lemma_past_separator_lands(rows, at, false);
            } else {
                assert(refresh_cursor(rows, sel) == at);
            }
        }
    }

    /// The flattened rows.
    pub fn rows(&self) -> (r: &[Row])
        ensures
            r@ == self.rows@,
    {
        self.rows.as_slice()
    }

    /// What has been typed into the filter.
    pub fn filter(&self) -> (r: &str)
        ensures
            r@ == self.filter@,
    {
        self.filter.as_str()
    }

    /// Collapses (`on`) or expands group `group` in the collapse set, without reflattening.
    fn edit_collapsed(&mut self, group: usize, collapsed: bool)
        ensures
            collapsed_after(old(self).collapsed@, final(self).collapsed@, group, collapsed),
            final(self).nav == old(self).nav,
            final(self).curated_groups == old(self).curated_groups,
            final(self).open == old(self).open,
            final(self).filter == old(self).filter,
            final(self).hidden == old(self).hidden,
            final(self).unserved == old(self).unserved,
            final(self).filtering == old(self).filtering,
            final(self).visible == old(self).visible,
            final(self).toggled == old(self).toggled,
            final(self).selected == old(self).selected,
            final(self).rows == old(self).rows,
            final(self).dropped == old(self).dropped,
    {
        let ghost before = self.collapsed@;
        if collapsed {
            if !self.is_collapsed(group) {
                self.collapsed.push(group);
            }
            proof {
                assert forall|x: usize| #[trigger] self.collapsed@.contains(x) <==> (if x == group { collapsed } else { before.contains(x) }) by {
                    if before.contains(x) {
                        let k = choose|k: int| 0 <= k < before.len() && before[k] == x;
                        assert(self.collapsed@[k] == x);
                    }
                    if x == group && !before.contains(x) {
                        assert(self.collapsed@[before.len() as int] == x);
                    }
                }
            }
        } else {
            let ghost keep = |x: usize| x != group;
            let mut kept: Vec<usize> = Vec::new();
            let mut i: usize = 0;
            proof {
                assert(before.subrange(0, 0).filter(keep) =~= Seq::<usize>::empty()) by {
                    reveal(Seq::filter);
                }
            }
            while i < self.collapsed.len()
                invariant
                    i <= self.collapsed@.len(),
                    before == self.collapsed@,
                    keep == (|x: usize| x != group),
                    kept@ == before.subrange(0, i as int).filter(keep),
                decreases self.collapsed.len() - i,
            {
                let x = self.collapsed[i];
                if x != group {
                    kept.push(x);
                }
                proof {
                    assert(before.subrange(0, i as int + 1) =~= before.subrange(0, i as int).push(x));
                    before.subrange(0, i as int).lemma_filter_push(x, keep);
                }
                i = i + 1;
            }
            proof {
                assert(before.subrange(0, before.len() as int) =~= before);
                assert forall|x: usize| #[trigger] kept@.contains(x) <==> (if x == group { collapsed } else { before.contains(x) }) by {
                    if kept@.contains(x) {
                        before.lemma_filter_contains_rev(keep, x);
                        let k = choose|k: int| 0 <= k < kept@.len() && kept@[k] == x;
                        before.lemma_filter_pred(keep, k);
                    }
                    if x != group && before.contains(x) {
                        let k = choose|k: int| 0 <= k < before.len() && before[k] == x;
                        before.lemma_filter_contains(keep, k);
                    }
                }
            }
            self.collapsed = kept;
        }
    }

    /// Expands or collapses a group, and reflattens. The cursor is only pulled back onto the
    /// list: the callers that have to move it do so themselves.
    pub fn set_collapsed(&mut self, group: usize, collapsed: bool)
        requires
            old(self).curated_groups > 0,
        ensures
            final(self).wf(),
            final(self).cursor_ok(),
            collapsed_after(old(self).collapsed@, final(self).collapsed@, group, collapsed),
            final(self).nav == old(self).nav,
            final(self).curated_groups == old(self).curated_groups,
            final(self).open == old(self).open,
            final(self).filter == old(self).filter,
            final(self).hidden == old(self).hidden,
            final(self).unserved == old(self).unserved,
            final(self).filtering == old(self).filtering,
            final(self).visible == old(self).visible,
            final(self).toggled == old(self).toggled,
            final(self).selected == refresh_cursor(final(self).rows@, old(self).selected as int),
    {
        self.edit_collapsed(group, collapsed);
        let ghost sel = self.selected as int;
        self.refresh();
        proof {
            assert(self.selected == refresh_cursor(self.rows@, sel));
            self.lemma_settled();
        }
    }

    /// Replaces the filter and reflattens.
    pub fn set_filter(&mut self, filter: &str)
        requires
            old(self).curated_groups > 0,
        ensures
            final(self).wf(),
            final(self).cursor_ok(),
            final(self).filter@ == filter@,
            final(self).nav == old(self).nav,
            final(self).curated_groups == old(self).curated_groups,
            final(self).open == old(self).open,
            final(self).collapsed == old(self).collapsed,
            final(self).hidden == old(self).hidden,
            final(self).unserved == old(self).unserved,
            final(self).filtering == old(self).filtering,
            final(self).visible == old(self).visible,
            final(self).toggled == old(self).toggled,
            final(self).selected == refresh_cursor(final(self).rows@, old(self).selected as int),
    {
        self.filter = string_of(chars_of(filter).as_slice());
        let ghost sel = self.selected as int;
        self.refresh();
        proof {
            assert(self.selected == refresh_cursor(self.rows@, sel));
            self.lemma_settled();
        }
    }

    /// Replaces the greyed set. No reflattening: greying moves nothing.
    pub fn set_unserved(&mut self, unserved: Vec<(String, String)>)
        ensures
            final(self).unserved == unserved,
            final(self).rows == old(self).rows,
            final(self).selected == old(self).selected,
            final(self).state() == old(self).state(),
            final(self).dropped == old(self).dropped,
            final(self).curated_groups == old(self).curated_groups,
            old(self).wf() ==> final(self).wf(),
    {
        self.unserved = unserved;
    }

    /// How many items of `group` the last flattening dropped; `0` when none.
    pub fn dropped(&self, group: usize) -> (r: usize)
        ensures
            r == (if group < self.dropped@.len() { self.dropped@[group as int] } else { 0 }),
    {
        if group < self.dropped.len() { self.dropped[group] } else { 0 }
    }

    /// Whether this item is hidden, and on screen only because the filter matched it.
    pub fn is_hidden(&self, group: usize, item: usize) -> (r: bool)
        requires
            group < self.nav@.len(),
            item < self.nav@[group as int].items@.len(),
        ensures
            r == self.state().hides_at(group as int, self.state().groups[group as int].items[item as int]),
    {
        assert(self.state().groups[group as int].items[item as int] == self.nav@[group as int].items@[item as int]@);
        self.hides(group, &self.nav[group].items[item])
    }

    /// Why this item cannot be opened, or `None` when it can. The item's own note wins; then
    /// what the greyed set says of its kind or page.
    pub fn reason(&self, group: usize, item: usize) -> (r: Option<String>)
        requires
            group < self.nav@.len(),
            item < self.nav@[group as int].items@.len(),
        ensures
            ({
                let it = self.state().groups[group as int].items[item as int];
                opt_view(r) == (if it.note is Some {
                    it.note
                } else {
                    match it.target {
                        NavTargetV::Kind(id) => crate::form::lookup(crate::form::pairs_view(self.unserved@), id),
                        NavTargetV::Page(id) => crate::form::lookup(crate::form::pairs_view(self.unserved@), id),
                        _ => None,
                    }
                })
            }),
    {
        let it = &self.nav[group].items[item];
        assert(self.state().groups[group as int].items[item as int] == it@);
        if let Some(note) = &it.note {
            return Some(note.clone());
        }
        match &it.target {
            NavTarget::Kind(id) => crate::form::find_value(&self.unserved, id.as_str()),
            NavTarget::Page(id) => crate::form::find_value(&self.unserved, id.as_str()),
            _ => None,
        }
    }

    /// The group of the row at `index`; `None` for the caption and past the end.
    pub fn group_at(&self, index: usize) -> (r: Option<usize>)
        ensures
            r == group_of(self.rows@, index as int),
    {
        if index >= self.rows.len() {
            return None;
        }
        match self.rows[index] {
            Row::Group { group } => Some(group),
            Row::Item { group, .. } => Some(group),
            Row::Separator => None,
        }
    }

    /// Puts the cursor on row `index`, for the mouse. `false` past the end, or on the caption
    /// unless `carry_on` says a wheel notch landed there, in which case it goes one further the
    /// way it was going.
    pub fn select(&mut self, index: usize, carry_on: bool) -> (r: bool)
        ensures
            r == (index < old(self).rows@.len() && (carry_on || !is_sep(old(self).rows@, index as int))),
            final(self).selected == (if r {
                past_separator_spec(old(self).rows@, index as int, index >= old(self).selected) as usize
            } else {
                old(self).selected
            }),
            final(self).rows == old(self).rows,
            final(self).state() == old(self).state(),
            final(self).dropped == old(self).dropped,
            final(self).curated_groups == old(self).curated_groups,
            old(self).wf() ==> final(self).wf(),
            old(self).wf() && r ==> final(self).cursor_ok(),
    {
        if index >= self.rows.len() {
            return false;
        }
        if self.rows[index] == Row::Separator && !carry_on {
            return false;
        }
        let down = index >= self.selected;
        self.selected = self.past_separator(index, down);
        proof {
            if self.wf() {
                self.state().lemma_caption(self.nav@.len() as int);
                lemma_past_separator_lands(self.rows@, index as int, down);
            }
        }
        true
    }
}

/// Where the cursor goes after the hidden set changed: back on the row it was on, or on the
/// header of that row's group when the row went, or at the top when the group went too.
pub open spec fn reanchored(old_rows: Seq<Row>, old_sel: int, rows: Seq<Row>, settled: int) -> int {
    if !(0 <= old_sel < old_rows.len()) {
        settled
    } else {
        let was = old_rows[old_sel];
        match index_from(rows, was, 0) {
            Some(i) => i,
            None => match was {
                Row::Separator => settled,
                Row::Group { group } => match index_from(rows, Row::Group { group }, 0) {
                    Some(i) => i,
                    None => top_row(rows),
                },
                Row::Item { group, .. } => match index_from(rows, Row::Group { group }, 0) {
                    Some(i) => i,
                    None => top_row(rows),
                },
            },
        }
    }
}

/// The first item from `i` on whose target is `t`.
pub open spec fn find_item(items: Seq<NavItemV>, t: NavTargetV, i: int) -> Option<int>
    decreases items.len() - i,
{
    if i < 0 || i >= items.len() {
        None
    } else if items[i].target == t {
        Some(i)
    } else {
        find_item(items, t, i + 1)
    }
}

/// The first group from `g` on holding an item whose target is `t`, and that item.
pub open spec fn find_target(groups: Seq<NavGroupV>, t: NavTargetV, g: int) -> Option<(int, int)>
    decreases groups.len() - g,
{
    if g < 0 || g >= groups.len() {
        None
    } else {
        match find_item(groups[g].items, t, 0) {
            Some(i) => Some((g, i)),
            None => find_target(groups, t, g + 1),
        }
    }
}

/// What `find_item` finds is an item from `k` on whose target is `t`.
proof fn lemma_find_item_found(items: Seq<NavItemV>, t: NavTargetV, k: int)
    ensures
        find_item(items, t, k) matches Some(i) ==> k <= i < items.len() && items[i].target == t,
    decreases items.len() - k,
{
    if 0 <= k < items.len() && items[k].target != t {
        lemma_find_item_found(items, t, k + 1);
    }
}

/// What `find_target` finds is an item of a group from `g` on whose target is `t`.
proof fn lemma_find_target_found(groups: Seq<NavGroupV>, t: NavTargetV, g: int)
    ensures
        find_target(groups, t, g) matches Some((a, b)) ==> g <= a < groups.len() && 0 <= b < groups[a].items.len()
            && groups[a].items[b].target == t,
    decreases groups.len() - g,
{
    if 0 <= g < groups.len() {
        lemma_find_item_found(groups[g].items, t, 0);
        if find_item(groups[g].items, t, 0) is None {
            lemma_find_target_found(groups, t, g + 1);
        }
    }
}

/// `index_from` finds `x` when it stands at `w`, at or before `w`.
proof fn lemma_index_from_finds(s: Seq<Row>, x: Row, k: int, w: int)
    requires
        0 <= k <= w < s.len(),
        s[w] == x,
    ensures
        index_from(s, x, k) matches Some(j) && k <= j <= w && s[j] == x,
    decreases w - k,
{
    if s[k] != x {
        lemma_index_from_finds(s, x, k + 1, w);
    }
}

impl NavState {
    /// With nothing typed, an item that is not hidden is listed among its group's items.
    proof fn lemma_item_listed(&self, g: int, i: int, n: int)
        requires
            0 <= g < self.groups.len(),
            0 <= i < n <= self.groups[g].items.len(),
            self.needle.len() == 0,
            !self.hides_at(g, self.groups[g].items[i]),
        ensures
            self.items_upto(g, n).0.contains(Row::Item { group: g as usize, item: i as usize }),
        decreases n,
    {
        let x = Row::Item { group: g as usize, item: i as usize };
        if n == i + 1 {
            let rows = self.items_upto(g, i).0;
            assert(self.items_upto(g, n).0 == rows.push(x));
            assert(self.items_upto(g, n).0[rows.len() as int] == x);
        } else {
            self.lemma_item_listed(g, i, n - 1);
            let rows = self.items_upto(g, n - 1).0;
            let w = choose|w: int| 0 <= w < rows.len() && rows[w] == x;
            let out = self.items_upto(g, n).0;
            if out != rows {
                assert(out == rows.push(Row::Item { group: g as usize, item: (n - 1) as usize }));
                assert(out[w] == x);
            }
        }
    }

    /// With nothing typed, the item that is open is listed once its group is expanded: it is
    /// never hidden, so neither is its group.
    pub proof fn lemma_open_item_listed(&self, g: int, i: int, n: int)
        requires
            0 <= g < n <= self.groups.len(),
            0 <= i < self.groups[g].items.len(),
            self.needle.len() == 0,
            !self.collapsed.contains(g as usize),
            self.open == Some(self.groups[g].items[i].target),
        ensures
            self.flatten_upto(n).0.contains(Row::Item { group: g as usize, item: i as usize }),
        decreases n,
    {
        let x = Row::Item { group: g as usize, item: i as usize };
        let (rows, dropped, captioned) = self.flatten_upto(n - 1);
        if n == g + 1 {
            assert(!self.hides_at(g, self.groups[g].items[i]));
            assert(!self.all_hidden(g));
            assert(self.shown(g));
            let len = self.groups[g].items.len() as int;
            self.lemma_item_listed(g, i, len);
            let items = self.items_upto(g, len).0;
            let w = choose|w: int| 0 <= w < items.len() && items[w] == x;
            let (body, d) = self.group_body(g);
            assert(body == seq![Row::Group { group: g as usize }] + items);
            assert(body[w + 1] == x);
            let sep = g >= self.curated && !captioned;
            let pre = if sep { rows.push(Row::Separator) } else { rows };
            assert(self.flatten_upto(n).0 == pre + body);
            assert((pre + body)[pre.len() + w + 1] == x);
        } else {
            self.lemma_open_item_listed(g, i, n - 1);
            let w = choose|w: int| 0 <= w < rows.len() && rows[w] == x;
            let g2 = n - 1;
            if self.shown(g2) {
                let sep = g2 >= self.curated && !captioned;
                let (body, d) = self.group_body(g2);
                let pre = if sep { rows.push(Row::Separator) } else { rows };
                assert(pre[w] == x);
                assert((pre + body)[w] == x);
            }
        }
    }
}

/// The group a digit jumps to: `1`..`9` a curated group, `0` the first generated one.
pub open spec fn jump_group(digit: u32, curated: usize) -> int {
    if digit == 0 {
        curated as int
    } else if digit - 1 < curated - 1 {
        digit - 1
    } else {
        curated - 1
    }
}

impl Sidebar {
    /// Replaces the hidden set and reflattens, re-anchoring the cursor by what it was on.
    pub fn set_hidden(&mut self, hidden: Vec<String>)
        requires
            old(self).curated_groups > 0,
        ensures
            final(self).wf(),
            final(self).hidden == hidden,
            final(self).nav == old(self).nav,
            final(self).curated_groups == old(self).curated_groups,
            final(self).open == old(self).open,
            final(self).collapsed == old(self).collapsed,
            final(self).filter == old(self).filter,
            final(self).unserved == old(self).unserved,
            final(self).filtering == old(self).filtering,
            final(self).visible == old(self).visible,
            final(self).toggled == old(self).toggled,
            final(self).selected == reanchored(
                old(self).rows@,
                old(self).selected as int,
                final(self).rows@,
                refresh_cursor(final(self).rows@, old(self).selected as int),
            ),
    {
        self.hidden = hidden;
        self.reanchor();
    }

    /// Remembers what the cursor was on, reflattens, and puts it back: on the same row, on its
    /// group's header when the row went, at the top when the group went too.
    fn reanchor(&mut self)
        requires
            old(self).curated_groups > 0,
        ensures
            final(self).wf(),
            final(self).state() == old(self).state(),
            final(self).nav == old(self).nav,
            final(self).curated_groups == old(self).curated_groups,
            final(self).open == old(self).open,
            final(self).collapsed == old(self).collapsed,
            final(self).filter == old(self).filter,
            final(self).hidden == old(self).hidden,
            final(self).unserved == old(self).unserved,
            final(self).filtering == old(self).filtering,
            final(self).visible == old(self).visible,
            final(self).toggled == old(self).toggled,
            final(self).selected == reanchored(
                old(self).rows@,
                old(self).selected as int,
                final(self).rows@,
                refresh_cursor(final(self).rows@, old(self).selected as int),
            ),
    {
        let was = if self.selected < self.rows.len() { Some(self.rows[self.selected]) } else { None };
        let ghost sel = self.selected as int;
        self.refresh();
        proof {
            assert(self.selected == refresh_cursor(self.rows@, sel));
            self.lemma_settled();
        }
        let was = match was {
            Some(w) => w,
            None => return,
        };
        match position(&self.rows, was) {
            Some(i) => {
                self.selected = i;
                return;
            },
            None => {},
        }
        let group = match was {
            Row::Group { group } => group,
            Row::Item { group, .. } => group,
            Row::Separator => return,
        };
        self.selected = match position(&self.rows, Row::Group { group }) {
            Some(i) => i,
            None => self.past_separator(0, true),
        };
    }

    /// Expands the group that holds `target`, puts the cursor on it, and remembers it as open:
    /// what a palette jump does to the menu. A target in no group only changes what is open.
    pub fn reveal_target(&mut self, target: &NavTarget)
        requires
            old(self).curated_groups > 0,
        ensures
            final(self).wf(),
            final(self).open matches Some(t) && t@ == target@,
            final(self).nav == old(self).nav,
            final(self).curated_groups == old(self).curated_groups,
            final(self).hidden == old(self).hidden,
            final(self).unserved == old(self).unserved,
            final(self).visible == old(self).visible,
            final(self).toggled == old(self).toggled,
            match find_target(old(self).state().groups, target@, 0) {
                None => {
                    &&& final(self).collapsed == old(self).collapsed
                    &&& final(self).filter == old(self).filter
                    &&& final(self).filtering == old(self).filtering
                    &&& final(self).selected == refresh_cursor(final(self).rows@, old(self).selected as int)
                },
                Some((g, i)) => {
                    &&& collapsed_after(old(self).collapsed@, final(self).collapsed@, g as usize, false)
                    &&& final(self).filter@.len() == 0
                    &&& !final(self).filtering
                    &&& index_from(final(self).rows@, Row::Item { group: g as usize, item: i as usize }, 0) == Some(final(self).selected as int)
                },
            },
    {
        self.open = Some(target.duplicate());
        let found = find_target_exec(&self.nav, target);
        let ghost sel = self.selected as int;
        assert(nav_view(self.nav@) == old(self).state().groups);
        match found {
            None => {
                assert(find_target(old(self).state().groups, target@, 0) is None);
                self.refresh();
                proof {
                    assert(self.selected == refresh_cursor(self.rows@, sel));
                    self.lemma_settled();
                }
            },
            Some((g, i)) => {
                self.edit_collapsed(g, false);
                self.filter = String::new();
                self.filtering = false;
                let ghost sel2 = self.selected as int;
                self.refresh();
                proof {
                    assert(self.selected == refresh_cursor(self.rows@, sel2));
                    self.lemma_settled();
                }
                proof {
                    let st = self.state();
                    lemma_find_target_found(old(self).state().groups, target@, 0);
                    assert(st.groups == old(self).state().groups);
                    assert(st.needle =~= Seq::<char>::empty());
                    assert(!st.collapsed.contains(g));
                    st.lemma_open_item_listed(g as int, i as int, st.groups.len() as int);
                    let x = Row::Item { group: g, item: i };
                    let w = choose|w: int| 0 <= w < self.rows@.len() && self.rows@[w] == x;
                    lemma_index_from_finds(self.rows@, x, 0, w);
                }
                match position(&self.rows, Row::Item { group: g, item: i }) {
                    Some(k) => {
                        self.selected = k;
                    },
                    None => {},
                }
            },
        }
    }
}

/// The first item of `items` whose target is `t`.
fn find_item_exec(items: &Vec<NavItem>, t: &NavTarget) -> (r: Option<usize>)
    ensures
        find_item(crate::catalog::items_view(items@), t@, 0) == (match r {
            Some(i) => Some(i as int),
            None => None::<int>,
        }),
{
    let ghost iv = crate::catalog::items_view(items@);
    let mut i: usize = 0;
    while i < items.len()
        invariant
            i <= items@.len(),
            iv == crate::catalog::items_view(items@),
            find_item(iv, t@, 0) == find_item(iv, t@, i as int),
        decreases items.len() - i,
    {
        assert(iv[i as int] == items@[i as int]@);
        if items[i].target.same(t) {
            return Some(i);
        }
        i = i + 1;
    }
    None
}

/// The first group holding an item whose target is `t`, and that item.
fn find_target_exec(nav: &Vec<NavGroup>, t: &NavTarget) -> (r: Option<(usize, usize)>)
    ensures
        find_target(nav_view(nav@), t@, 0) == (match r {
            Some((g, i)) => Some((g as int, i as int)),
            None => None::<(int, int)>,
        }),
{
    let ghost groups = nav_view(nav@);
    let mut g: usize = 0;
    while g < nav.len()
        invariant
            g <= nav@.len(),
            groups == nav_view(nav@),
            find_target(groups, t@, 0) == find_target(groups, t@, g as int),
        decreases nav.len() - g,
    {
        assert(groups[g as int].items == crate::catalog::items_view(nav@[g as int].items@));
        match find_item_exec(&nav[g].items, t) {
            Some(i) => {
                return Some((g, i));
            },
            None => {},
        }
        g = g + 1;
    }
    None
}

/// Where a movement key sends the cursor, before it steps off the caption, and which way it
/// was going; `None` for a key that is not a movement key.
pub open spec fn move_target(key: Key, selected: int, len: int) -> Option<(int, bool)> {
    let last = if len == 0 { 0 } else { len - 1 };
    match key {
        Key::Char('j') | Key::Down => Some((if selected + 1 < last { selected + 1 } else { last }, true)),
        Key::Char('k') | Key::Up => Some((if selected > 0 { selected - 1 } else { 0 }, false)),
        Key::Char('g') | Key::Home => Some((0, true)),
        Key::Char('G') | Key::End => Some((last, false)),
        _ => None,
    }
}

/// What a movement key does: the cursor moves, stepping off the caption; any other key passes
/// through to the body.
pub open spec fn move_spec(old: Sidebar, key: Key, new: Sidebar, r: Action) -> bool {
    match move_target(key, old.selected as int, old.rows@.len() as int) {
        Some((next, down)) => r == Action::Moved && new.selected == past_separator_spec(old.rows@, next, down),
        None => r == Action::Passthrough(key) && new.selected == old.selected,
    }
}

/// The menu is the same but for its cursor.
pub open spec fn same_but_cursor(old: Sidebar, new: Sidebar) -> bool {
    &&& new.nav == old.nav
    &&& new.curated_groups == old.curated_groups
    &&& new.open == old.open
    &&& new.collapsed == old.collapsed
    &&& new.filter == old.filter
    &&& new.hidden == old.hidden
    &&& new.unserved == old.unserved
    &&& new.filtering == old.filtering
    &&& new.rows == old.rows
    &&& new.dropped == old.dropped
}

/// What `enter` does on the row under the cursor: a header folds or unfolds its group, an
/// item is opened, the caption and an empty list do nothing.
pub open spec fn open_spec(old: Sidebar, new: Sidebar, r: Action) -> bool {
    let sel = old.selected as int;
    if 0 <= sel < old.rows@.len() {
        match old.rows@[sel] {
            Row::Group { group } => {
                &&& r == Action::Toggled
                &&& collapsed_after(old.collapsed@, new.collapsed@, group, !old.collapsed@.contains(group))
                &&& new.selected == refresh_cursor(new.rows@, sel)
            },
            Row::Item { group, item } => {
                &&& r matches Action::Open(it) && it@ == old.state().groups[group as int].items[item as int]
                &&& same_but_cursor(old, new) && new.selected == old.selected
            },
            Row::Separator => r == Action::Ignored && same_but_cursor(old, new) && new.selected == old.selected,
        }
    } else {
        r == Action::Ignored && same_but_cursor(old, new) && new.selected == old.selected
    }
}

/// What `h`/`l` do: fold (`shut`) or unfold the group of the row under the cursor; folding
/// puts the cursor on the group's header.
pub open spec fn fold_spec(old: Sidebar, shut: bool, new: Sidebar, r: Action) -> bool {
    match group_of(old.rows@, old.selected as int) {
        None => r == Action::Ignored && same_but_cursor(old, new) && new.selected == old.selected,
        Some(g) => {
            &&& r == Action::Toggled
            &&& collapsed_after(old.collapsed@, new.collapsed@, g, shut)
            &&& new.selected == (if shut {
                match index_from(new.rows@, Row::Group { group: g }, 0) {
                    Some(i) => i,
                    None => top_row(new.rows@),
                }
            } else {
                refresh_cursor(new.rows@, old.selected as int)
            })
        },
    }
}

/// What [`Sidebar::key`] does: `old` and `new` are the menu before and after, `r` what it
/// returns.
pub open spec fn sidebar_key_spec(old: Sidebar, key: Key, new: Sidebar, r: Action) -> bool {
    if old.filtering {
        match key {
            Key::Esc => r == Action::Filtered && new.filter@.len() == 0 && !new.filtering
                && new.collapsed == old.collapsed && new.selected == refresh_cursor(new.rows@, old.selected as int),
            Key::Enter => !new.filtering && open_spec(Sidebar { filtering: false, ..old }, new, r),
            Key::Char(c) => r == Action::Filtered && new.filter@ == old.filter@.push(c) && new.filtering
                && new.collapsed == old.collapsed && new.selected == top_row(new.rows@),
            Key::Backspace => r == Action::Filtered && new.filtering && new.collapsed == old.collapsed
                && new.filter@ == (if old.filter@.len() == 0 { old.filter@ } else { old.filter@.drop_last() })
                && new.selected == top_row(new.rows@),
            _ => same_but_cursor(old, new) && move_spec(old, key, new, r),
        }
    } else {
        match key {
            Key::Char('/') => r == Action::Filtered && new.filtering && new.filter == old.filter
                && new.rows == old.rows && new.selected == old.selected && new.collapsed == old.collapsed,
            Key::Tab | Key::Esc => r == Action::Blur && same_but_cursor(old, new) && new.selected == old.selected,
            Key::Enter => open_spec(old, new, r),
            Key::Char('h') | Key::Left => fold_spec(old, true, new, r),
            Key::Char('l') | Key::Right => fold_spec(old, false, new, r),
            _ => same_but_cursor(old, new) && move_spec(old, key, new, r),
        }
    }
}

impl Sidebar {
    /// `1`..`9` jump to a curated group, `0` to the first generated one; the cursor goes to the
    /// top when that group is not drawn.
    pub fn jump(&mut self, digit: u32)
        requires
            old(self).curated_groups > 0,
        ensures
            same_but_cursor(*old(self), *final(self)),
            final(self).selected == (match index_from(old(self).rows@, Row::Group { group: jump_group(digit, old(self).curated_groups) as usize }, 0) {
                Some(i) => i,
                None => top_row(old(self).rows@),
            }),
            old(self).wf() ==> final(self).cursor_ok(),
    {
        let group: usize = if digit == 0 {
            self.curated_groups
        } else {
            let d = (digit - 1) as usize;
            if d < self.curated_groups - 1 { d } else { self.curated_groups - 1 }
        };
        self.selected = match position(&self.rows, Row::Group { group }) {
            Some(i) => i,
            None => self.past_separator(0, true),
        };
        proof {
            if old(self).wf() {
                old(self).lemma_top_not_caption();
            }
        }
    }

    /// What one key does to the menu. While `/` is taking characters, typing edits the filter,
    /// `esc` clears it and `enter` opens what is selected. Otherwise `/` starts a filter, `tab`
    /// and `esc` hand the keys back to the body, `enter` opens, `h`/`l` fold and unfold. The
    /// movement keys move, stepping off the caption, and any other key passes through.
    pub fn key(&mut self, key: Key) -> (r: Action)
        requires
            old(self).wf(),
        ensures
            final(self).wf(),
            sidebar_key_spec(*old(self), key, *final(self), r),
            r == Action::Moved ==> final(self).cursor_ok(),
            old(self).cursor_ok() ==> final(self).cursor_ok(),
    {
        if self.filtering {
            return match key {
                Key::Esc => {
                    self.set_filter("");
                    self.filtering = false;
                    proof {
                        reveal_strlit("");
                    }
                    Action::Filtered
                },
                Key::Enter => {
                    self.filtering = false;
                    self.open_selected()
                },
                Key::Char(c) => {
                    let mut filter = string_of(chars_of(self.filter.as_str()).as_slice());
                    push_char(&mut filter, c);
                    self.set_filter(filter.as_str());
                    self.selected = self.past_separator(0, true);
                    proof {
                        self.lemma_top_not_caption();
                    }
                    Action::Filtered
                },
                Key::Backspace => {
                    let typed = chars_of(self.filter.as_str());
                    let kept = if typed.len() > 0 {
                        slice_chars(typed.as_slice(), 0, typed.len() - 1)
                    } else {
                        typed
                    };
                    let filter = string_of(kept.as_slice());
                    self.set_filter(filter.as_str());
                    self.selected = self.past_separator(0, true);
                    proof {
                        self.lemma_top_not_caption();
                    }
                    Action::Filtered
                },
                _ => self.move_key(key),
            };
        }
        match key {
            Key::Char('/') => {
                self.filtering = true;
                Action::Filtered
            },
            Key::Tab | Key::Esc => Action::Blur,
            Key::Enter => self.open_selected(),
            Key::Char('h') | Key::Left => self.fold(true),
            Key::Char('l') | Key::Right => self.fold(false),
            _ => self.move_key(key),
        }
    }

    /// The movement keys; any other key passes through.
    fn move_key(&mut self, key: Key) -> (r: Action)
        requires
            old(self).wf(),
        ensures
            final(self).wf(),
            same_but_cursor(*old(self), *final(self)),
            move_spec(*old(self), key, *final(self), r),
            r == Action::Moved ==> final(self).cursor_ok(),
            old(self).cursor_ok() ==> final(self).cursor_ok(),
    {
        let n = self.rows.len();
        let last = if n == 0 { 0 } else { n - 1 };
        let sel = self.selected;
        let (next, down) = match key {
            Key::Char('j') | Key::Down => (if sel < last { sel + 1 } else { last }, true),
            Key::Char('k') | Key::Up => (if sel > 0 { sel - 1 } else { 0 }, false),
            Key::Char('g') | Key::Home => (0, true),
            Key::Char('G') | Key::End => (last, false),
            _ => return Action::Passthrough(key),
        };
        self.selected = self.past_separator(next, down);
        proof {
            self.state().lemma_caption(self.nav@.len() as int);
            if n > 0 {
                lemma_past_separator_lands(self.rows@, next as int, down);
            }
        }
        Action::Moved
    }

    /// `h`/`l` on a group header fold or unfold it; on an item, its group.
    fn fold(&mut self, shut: bool) -> (r: Action)
        requires
            old(self).wf(),
        ensures
            final(self).wf(),
            fold_spec(*old(self), shut, *final(self), r),
            final(self).filtering == old(self).filtering,
            final(self).filter == old(self).filter,
            old(self).cursor_ok() ==> final(self).cursor_ok(),
    {
        let group = match self.group_at(self.selected) {
            Some(g) => g,
            None => return Action::Ignored,
        };
        self.set_collapsed(group, shut);
        if shut {
            self.selected = match position(&self.rows, Row::Group { group }) {
                Some(i) => i,
                None => self.past_separator(0, true),
            };
            proof {
                self.lemma_top_not_caption();
            }
        }
        Action::Toggled
    }

    /// `enter`: a header folds or unfolds its group, an item is opened, and the caption does
    /// nothing.
    pub fn open_selected(&mut self) -> (r: Action)
        requires
            old(self).wf(),
        ensures
            final(self).wf(),
            open_spec(*old(self), *final(self), r),
            final(self).filtering == old(self).filtering,
            final(self).filter == old(self).filter,
            old(self).cursor_ok() ==> final(self).cursor_ok(),
    {
        if self.selected >= self.rows.len() {
            return Action::Ignored;
        }
        match self.rows[self.selected] {
            Row::Group { group } => {
                let on = !self.is_collapsed(group);
                self.set_collapsed(group, on);
                Action::Toggled
            },
            Row::Item { group, item } => {
                proof {
                    self.lemma_rows_in_range();
                    assert(self.state().groups[group as int].items[item as int] == self.nav@[group as int].items@[item as int]@);
                }
                Action::Open(self.nav[group].items[item].duplicate())
            },
            Row::Separator => Action::Ignored,
        }
    }

    /// The rows name only groups and items the menu has.
    proof fn lemma_rows_in_range(&self)
        requires
            self.wf(),
        ensures
            rows_valid(self.rows@, self.state().groups),
    {
        let st = self.state();
        assert(st.groups.len() == self.nav.len());
        assert forall|k: int| 0 <= k < st.groups.len() implies #[trigger] st.groups[k].items.len() <= usize::MAX by {
            assert(st.groups[k].items.len() == self.nav@[k].items.len());
        }
        st.lemma_rows_valid(self.nav@.len() as int);
    }
}

} // verus!

