//! `:search <term>`: what every kind already loaded holds under that term, grouped by kind,
//! with the reach stated underneath.
//!
//! The reach line is not a footnote. The search runs over what the session has loaded and never
//! over the API, so a term that finds nothing may mean "there is no such VM" or "the VM table
//! was never opened"; the count of kinds looked at and the count of kinds not loaded travel with
//! every result, including none.

use vstd::prelude::*;
use crate::ascii::{concat, decimal, decimal_string};
use crate::catalog::{KindRef, KindV};
use crate::key::Key;

verus! {

/// One entity the search found.
#[derive(Debug, Clone, PartialEq, Eq)]
pub struct Hit {
    pub kind: KindRef,
    pub ext_id: String,
    pub name: String,
    /// The field the term was found in, as the list prints it.
    pub detail: String,
}

/// The hits of one kind.
#[derive(Debug, Clone, PartialEq, Eq)]
pub struct FoundGroup {
    pub kind: KindRef,
    pub hits: Vec<Hit>,
}

/// What a walk of the loaded tables answered.
#[derive(Debug, Clone, PartialEq, Eq)]
pub struct Found {
    pub groups: Vec<FoundGroup>,
    /// Kinds there was a table for.
    pub loaded: usize,
    /// Kinds of the catalog there was nothing for.
    pub not_loaded: usize,
}

/// What a key did, for the app to act on.
#[derive(Debug, Clone, PartialEq, Eq)]
pub enum Action {
    Moved,
    /// `⏎` on a result: open this entity.
    Chose { kind: KindRef, ext_id: String },
    Closed,
    Ignored,
}

/// One line of the list. Headers and hits share an index so one cursor walks the whole thing.
#[derive(Debug, Clone, PartialEq, Eq)]
pub enum Row {
    Group { kind: KindRef, hits: usize },
    Hit { kind: KindRef, ext_id: String, name: String, detail: String },
}

/// A line of the list, as values.
pub enum RowV {
    Group { kind: KindV, hits: nat },
    Hit { kind: KindV, ext_id: Seq<char>, name: Seq<char>, detail: Seq<char> },
}

impl View for Row {
    type V = RowV;

    open spec fn view(&self) -> RowV {
        match self {
            Row::Group { kind, hits } => RowV::Group { kind: kind@, hits: *hits as nat },
            Row::Hit { kind, ext_id, name, detail } => RowV::Hit { kind: kind@, ext_id: ext_id@, name: name@, detail: detail@ },
        }
    }
}

/// The views of a list of lines.
pub open spec fn rows_view(v: Seq<Row>) -> Seq<RowV> {
    v.map_values(|r: Row| r@)
}

/// The lines for one group: its header, then each hit.
pub open spec fn group_rows(g: FoundGroup) -> Seq<RowV> {
    seq![RowV::Group { kind: g.kind@, hits: g.hits@.len() }]
        + g.hits@.map_values(|h: Hit| RowV::Hit { kind: h.kind@, ext_id: h.ext_id@, name: h.name@, detail: h.detail@ })
}

/// The lines for the first `n` groups.
pub open spec fn found_rows(groups: Seq<FoundGroup>, n: int) -> Seq<RowV>
    decreases n,
{
    if n <= 0 {
        Seq::empty()
    } else {
        found_rows(groups, n - 1) + group_rows(groups[n - 1])
    }
}

/// Whether a line is a result rather than a header.
pub open spec fn is_hit(r: RowV) -> bool {
    r is Hit
}

/// The first result at or after `k`.
pub open spec fn first_hit_from(rows: Seq<RowV>, k: int) -> Option<int>
    decreases rows.len() - k,
{
    if k < 0 || k >= rows.len() {
        None
    } else if is_hit(rows[k]) {
        Some(k)
    } else {
        first_hit_from(rows, k + 1)
    }
}

/// Where the cursor opens: on the first result, or at `0` when there is none.
pub open spec fn opening(rows: Seq<RowV>) -> int {
    match first_hit_from(rows, 0) {
        Some(i) => i,
        None => 0,
    }
}

/// From `at`, the nearest result the way the cursor is going; `fallback` when there is none
/// that way.
pub open spec fn skip_captions(rows: Seq<RowV>, at: int, down: bool, fallback: int) -> int
    decreases (if down { rows.len() - at } else { at }),
{
    if at < 0 || at >= rows.len() {
        fallback
    } else if is_hit(rows[at]) {
        at
    } else if down && at + 1 < rows.len() {
        skip_captions(rows, at + 1, down, fallback)
    } else if !down && at > 0 {
        skip_captions(rows, at - 1, down, fallback)
    } else {
        fallback
    }
}

/// How many results there are, headers excluded.
pub open spec fn hit_count(rows: Seq<RowV>) -> nat
    decreases rows.len(),
{
    if rows.len() == 0 {
        0
    } else {
        hit_count(rows.drop_last()) + if is_hit(rows.last()) { 1nat } else { 0nat }
    }
}

/// `kind` or `kinds`, as the count says.
pub open spec fn plural(n: nat) -> Seq<char> {
    if n == 1 { ""@ } else { "s"@ }
}

/// The reach line: counting up while the fan-out is running, then what it asked, and before
/// any fan-out what was loaded and what was not.
pub open spec fn reach_spec(asked: nat, answered: nat, loaded: nat, not_loaded: nat) -> Seq<char> {
    if asked > 0 && answered < asked {
        "asking "@ + decimal(asked) + " kinds · "@ + decimal(answered) + " answered · "@ + decimal(loaded) + " loaded"@
    } else if asked > 0 {
        "searched "@ + decimal(loaded) + " kind"@ + plural(loaded) + " · asked the PC for "@ + decimal(asked)
    } else {
        "searched "@ + decimal(loaded) + " loaded kind"@ + plural(loaded) + " · "@ + decimal(not_loaded) + " not loaded"@
    }
}

/// The search results box.
pub struct Search {
    /// The term as typed, for the box's title.
    pub term: String,
    pub rows: Vec<Row>,
    pub selected: usize,
    /// Kinds there was a table for when the term was run.
    pub loaded: usize,
    /// Kinds of the catalog there was nothing for.
    pub not_loaded: usize,
    /// Kinds this search asked the Prism Central about, and how many have answered.
    pub asked: usize,
    pub answered: usize,
    /// The one-shot subscriptions the fan-out holds.
    pub subs: Vec<u64>,
}

impl Search {
    /// The cursor is on a result whenever there is one, and at `0` when there is none.
    pub open spec fn wf(&self) -> bool {
        let rv = rows_view(self.rows@);
        &&& first_hit_from(rv, 0) is Some ==> self.selected < rv.len() && is_hit(rv[self.selected as int])
        &&& first_hit_from(rv, 0) is None ==> self.selected == 0
    }

    /// The results as one list, with the cursor on the first result rather than on a header.
    pub fn new(term: String, found: Found) -> (s: Search)
        ensures
            s.wf(),
            s.term == term,
            rows_view(s.rows@) == found_rows(found.groups@, found.groups@.len() as int),
            s.selected == opening(rows_view(s.rows@)),
            s.loaded == found.loaded,
            s.not_loaded == found.not_loaded,
            s.asked == 0,
            s.answered == 0,
            s.subs@.len() == 0,
    {
        let mut rows: Vec<Row> = Vec::new();
        let mut g: usize = 0;
        while g < found.groups.len()
            invariant
                g <= found.groups@.len(),
                rows_view(rows@) == found_rows(found.groups@, g as int),
            decreases found.groups.len() - g,
        {
            let group = &found.groups[g];
            let ghost start = rows_view(rows@);
            rows.push(Row::Group { kind: group.kind.duplicate(), hits: group.hits.len() });
            let ghost hv = group.hits@.map_values(|h: Hit| RowV::Hit { kind: h.kind@, ext_id: h.ext_id@, name: h.name@, detail: h.detail@ });
            let mut h: usize = 0;
            while h < group.hits.len()
                invariant
                    h <= group.hits@.len(),
                    hv == group.hits@.map_values(|h: Hit| RowV::Hit { kind: h.kind@, ext_id: h.ext_id@, name: h.name@, detail: h.detail@ }),
                    rows_view(rows@) == start + seq![RowV::Group { kind: group.kind@, hits: group.hits@.len() }] + hv.subrange(0, h as int),
                decreases group.hits.len() - h,
            {
                let hit = &group.hits[h];
                let ghost before = rows_view(rows@);
                rows.push(Row::Hit {
                    kind: hit.kind.duplicate(),
                    ext_id: hit.ext_id.clone(),
                    name: hit.name.clone(),
                    detail: hit.detail.clone(),
                });
                proof {
                    assert(rows_view(rows@) =~= before.push(hv[h as int]));
                    assert(hv.subrange(0, h as int + 1) =~= hv.subrange(0, h as int).push(hv[h as int]));
                    assert(rows_view(rows@) =~= start + seq![RowV::Group { kind: group.kind@, hits: group.hits@.len() }] + hv.subrange(0, h as int + 1));
                }
                h = h + 1;
            }
            proof {
                assert(hv.subrange(0, hv.len() as int) =~= hv);
                assert(rows_view(rows@) =~= found_rows(found.groups@, g as int + 1));
            }
            g = g + 1;
        }
        let selected = first_hit(&rows, 0);
        let s = Search {
            term,
            rows,
            selected: match selected {
                Some(i) => i,
                None => 0,
            },
            loaded: found.loaded,
            not_loaded: found.not_loaded,
            asked: 0,
            answered: 0,
            subs: Vec::new(),
        };
        proof {
            lemma_first_hit_is_hit(rows_view(s.rows@), 0);
        }
        s
    }

    /// Rebuilds the rows from a fresh walk, keeping the cursor where it was when that is still
    /// a result, and otherwise moving it to the first result: the fan-out lands one kind at a
    /// time, and a list that jumped under the hand on every answer would be unusable.
    pub fn refill(&mut self, found: Found)
        ensures
            final(self).wf(),
            final(self).term == old(self).term,
            rows_view(final(self).rows@) == found_rows(found.groups@, found.groups@.len() as int),
            final(self).loaded == found.loaded,
            final(self).not_loaded == found.not_loaded,
            final(self).asked == old(self).asked,
            final(self).answered == old(self).answered,
            final(self).subs == old(self).subs,
            ({
                let rv = rows_view(final(self).rows@);
                let at = if old(self).selected < rv.len() - 1 { old(self).selected as int } else if rv.len() == 0 { 0 } else { rv.len() - 1 };
                final(self).selected == if 0 <= at < rv.len() && is_hit(rv[at]) { at } else { opening(rv) }
            }),
    {
        let at = self.selected;
        let rebuilt = Search::new(self.term.clone(), found);
        self.rows = rebuilt.rows;
        self.loaded = rebuilt.loaded;
        self.not_loaded = rebuilt.not_loaded;
        let n = self.rows.len();
        let last = if n == 0 { 0 } else { n - 1 };
        self.selected = if at < last { at } else { last };
        let keep = self.selected < n && self.rows[self.selected].is_hit();
        if !keep {
            self.selected = match first_hit(&self.rows, 0) {
                Some(i) => i,
                None => 0,
            };
        }
        proof {
            let rv = rows_view(self.rows@);
            lemma_first_hit_is_hit(rv, 0);
            if keep {
                assert(rv[self.selected as int] == self.rows@[self.selected as int]@);
                lemma_first_hit_found(rv, 0, self.selected as int);
            }
        }
    }

    /// Whether the search found nothing at all.
    pub fn is_empty(&self) -> (r: bool)
        ensures
            r == (self.rows@.len() == 0),
    {
        self.rows.len() == 0
    }

    /// How many results, headers excluded: what the box's `[n]` counts.
    pub fn hits(&self) -> (r: usize)
        ensures
            r == hit_count(rows_view(self.rows@)),
    {
        let ghost rv = rows_view(self.rows@);
        let mut count: usize = 0;
        let mut i: usize = 0;
        while i < self.rows.len()
            invariant
                i <= self.rows@.len(),
                rv == rows_view(self.rows@),
                count == hit_count(rv.subrange(0, i as int)),
                count <= i,
            decreases self.rows.len() - i,
        {
            proof {
                let pre = rv.subrange(0, i as int + 1);
                assert(pre.drop_last() =~= rv.subrange(0, i as int));
                assert(pre.last() == self.rows@[i as int]@);
            }
            if self.rows[i].is_hit() {
                count = count + 1;
            }
            i = i + 1;
        }
        proof {
            assert(rv.subrange(0, rv.len() as int) =~= rv);
        }
        count
    }

    /// The reach, in the words the box prints under the results.
    pub fn reach(&self) -> (r: String)
        ensures
            r@ == reach_spec(self.asked as nat, self.answered as nat, self.loaded as nat, self.not_loaded as nat),
    {
        let loaded = decimal_string(self.loaded as u64);
        let s = if self.loaded == 1 { "" } else { "s" };
        if self.asked > 0 && self.answered < self.asked {
            let asked = decimal_string(self.asked as u64);
            let answered = decimal_string(self.answered as u64);
            let t = concat("asking ", asked.as_str());
            let t = concat(t.as_str(), " kinds · ");
            let t = concat(t.as_str(), answered.as_str());
            let t = concat(t.as_str(), " answered · ");
            let t = concat(t.as_str(), loaded.as_str());
            let t = concat(t.as_str(), " loaded");
            proof {
                assert(t@ =~= reach_spec(self.asked as nat, self.answered as nat, self.loaded as nat, self.not_loaded as nat));
            }
            return t;
        }
        if self.asked > 0 {
            let asked = decimal_string(self.asked as u64);
            let t = concat("searched ", loaded.as_str());
            let t = concat(t.as_str(), " kind");
            let t = concat(t.as_str(), s);
            let t = concat(t.as_str(), " · asked the PC for ");
            let t = concat(t.as_str(), asked.as_str());
            proof {
                assert(t@ =~= reach_spec(self.asked as nat, self.answered as nat, self.loaded as nat, self.not_loaded as nat));
            }
            return t;
        }
        let not_loaded = decimal_string(self.not_loaded as u64);
        let t = concat("searched ", loaded.as_str());
        let t = concat(t.as_str(), " loaded kind");
        let t = concat(t.as_str(), s);
        let t = concat(t.as_str(), " · ");
        let t = concat(t.as_str(), not_loaded.as_str());
        let t = concat(t.as_str(), " not loaded");
        proof {
            assert(t@ =~= reach_spec(self.asked as nat, self.answered as nat, self.loaded as nat, self.not_loaded as nat));
        }
        t
    }

    /// The line under the cursor, if any.
    pub fn current(&self) -> (r: Option<&Row>)
        ensures
            self.selected < self.rows@.len() ==> r == Some(&self.rows@[self.selected as int]),
            self.selected >= self.rows@.len() ==> r is None,
    {
        if self.selected < self.rows.len() {
            Some(&self.rows[self.selected])
        } else {
            None
        }
    }

    /// What one key does. `esc` and `q` close; `⏎` opens the result under the cursor and does
    /// nothing on a header; `j`/`k`, the arrows, `g`/`G`, home, end and the page keys move,
    /// stepping over headers in the direction of travel.
    pub fn key(&mut self, key: Key) -> (r: Action)
        requires
            old(self).wf(),
        ensures
            final(self).wf(),
            final(self).rows == old(self).rows,
            final(self).term == old(self).term,
            final(self).loaded == old(self).loaded,
            final(self).not_loaded == old(self).not_loaded,
            final(self).asked == old(self).asked,
            final(self).answered == old(self).answered,
            search_key_spec(*old(self), key, *final(self), r),
    {
        let n = self.rows.len();
        let last = if n == 0 { 0 } else { n - 1 };
        let sel = self.selected;
        let (next, down) = match key {
            Key::Esc | Key::Char('q') => return Action::Closed,
            Key::Enter => {
                return match self.current() {
                    Some(Row::Hit { kind, ext_id, .. }) => Action::Chose { kind: kind.duplicate(), ext_id: ext_id.clone() },
                    _ => Action::Ignored,
                };
            },
            Key::Char('j') | Key::Down => (if sel < last { sel + 1 } else { last }, true),
            Key::Char('k') | Key::Up => (if sel > 0 { sel - 1 } else { 0 }, false),
            Key::Char('g') | Key::Home => (0, true),
            Key::Char('G') | Key::End => (last, false),
            Key::PageDown => (if sel <= last && last - sel >= 20 { sel + 20 } else { last }, true),
            Key::PageUp => (if sel >= 20 { sel - 20 } else { 0 }, false),
            _ => return Action::Ignored,
        };
        self.selected = self.past_caption(next, down);
        proof {
            let rv = rows_view(self.rows@);
            lemma_skip_lands(rv, next as int, down, sel as int);
            let landed = self.selected as int;
            if landed != sel as int {
                lemma_first_hit_found(rv, 0, landed);
            }
        }
        Action::Moved
    }

    /// From `from`, the nearest result the way the cursor is going; where the cursor already is
    /// when there is none that way.
    fn past_caption(&self, from: usize, down: bool) -> (r: usize)
        ensures
            r == skip_captions(rows_view(self.rows@), from as int, down, self.selected as int),
    {
        let ghost rv = rows_view(self.rows@);
        let n = self.rows.len();
        let mut at = from;
        loop
            invariant
                n == self.rows@.len(),
                rv == rows_view(self.rows@),
                skip_captions(rv, from as int, down, self.selected as int) == skip_captions(rv, at as int, down, self.selected as int),
            decreases (if down { n - at } else { at as int }),
        {
            if at >= n {
                return self.selected;
            }
            assert(rv[at as int] == self.rows@[at as int]@);
            if self.rows[at].is_hit() {
                return at;
            }
            if down && at + 1 < n {
                at = at + 1;
            } else if !down && at > 0 {
                at = at - 1;
            } else {
                return self.selected;
            }
        }
    }
}

impl Row {
    /// Whether this line is a result.
    pub fn is_hit(&self) -> (r: bool)
        ensures
            r == is_hit(self@),
    {
        match self {
            Row::Hit { .. } => true,
            _ => false,
        }
    }
}

/// The first result at or after `k`.
fn first_hit(rows: &Vec<Row>, k: usize) -> (r: Option<usize>)
    ensures
        first_hit_from(rows_view(rows@), k as int) == (match r {
            Some(i) => Some(i as int),
            None => None::<int>,
        }),
{
    let ghost rv = rows_view(rows@);
    let mut i = k;
    while i < rows.len()
        invariant
            k <= i,
            rv == rows_view(rows@),
            first_hit_from(rv, k as int) == first_hit_from(rv, i as int),
        decreases rows.len() - i,
    {
        assert(rv[i as int] == rows@[i as int]@);
        if rows[i].is_hit() {
            return Some(i);
        }
        i = i + 1;
    }
    None
}

/// What `first_hit_from` finds is a result in range.
proof fn lemma_first_hit_is_hit(rows: Seq<RowV>, k: int)
    ensures
        first_hit_from(rows, k) matches Some(i) ==> k <= i < rows.len() && is_hit(rows[i]),
    decreases rows.len() - k,
{
    if 0 <= k < rows.len() && !is_hit(rows[k]) {
        lemma_first_hit_is_hit(rows, k + 1);
    }
}

/// A result at `i` means `first_hit_from` finds one, no later than `i`.
proof fn lemma_first_hit_found(rows: Seq<RowV>, k: int, i: int)
    requires
        0 <= k <= i < rows.len(),
        is_hit(rows[i]),
    ensures
        first_hit_from(rows, k) is Some,
    decreases i - k,
{
    if !is_hit(rows[k]) {
        lemma_first_hit_found(rows, k + 1, i);
    }
}

/// Skipping headers lands on a result, or on the fallback.
proof fn lemma_skip_lands(rows: Seq<RowV>, at: int, down: bool, fallback: int)
    ensures
        skip_captions(rows, at, down, fallback) == fallback
            || (0 <= skip_captions(rows, at, down, fallback) < rows.len() && is_hit(rows[skip_captions(rows, at, down, fallback)])),
    decreases (if down { rows.len() - at } else { at }),
{
    if 0 <= at < rows.len() && !is_hit(rows[at]) {
        if down && at + 1 < rows.len() {
            lemma_skip_lands(rows, at + 1, down, fallback);
        } else if !down && at > 0 {
            lemma_skip_lands(rows, at - 1, down, fallback);
        }
    }
}

/// What [`Search::key`] does: `old` and `new` are the box before and after, `r` what it
/// returns.
pub open spec fn search_key_spec(old: Search, key: Key, new: Search, r: Action) -> bool {
    let rv = rows_view(old.rows@);
    let n = rv.len() as int;
    let last = if n == 0 { 0 } else { n - 1 };
    let sel = old.selected as int;
    let moved = |next: int, down: bool| r == Action::Moved && new.selected == skip_captions(rv, next, down, sel);
    match key {
        Key::Esc | Key::Char('q') => r == Action::Closed && new.selected == old.selected,
        Key::Enter => new.selected == old.selected && if 0 <= sel < n && is_hit(rv[sel]) {
            r matches Action::Chose { kind, ext_id } && rv[sel] == (RowV::Hit {
                kind: kind@,
                ext_id: ext_id@,
                name: rv[sel]->name,
                detail: rv[sel]->detail,
            })
        } else {
            r == Action::Ignored
        },
        Key::Char('j') | Key::Down => moved(if sel < last { sel + 1 } else { last }, true),
        Key::Char('k') | Key::Up => moved(if sel > 0 { sel - 1 } else { 0 }, false),
        Key::Char('g') | Key::Home => moved(0, true),
        Key::Char('G') | Key::End => moved(last, false),
        Key::PageDown => moved(if sel + 20 < last { sel + 20 } else { last }, true),
        Key::PageUp => moved(if sel >= 20 { sel - 20 } else { 0 }, false),
        _ => r == Action::Ignored && new.selected == old.selected,
    }
}

} // verus!
