//! Full-screen entity view: a composed, sectioned summary, or the wire document as YAML or JSON.

use vstd::prelude::*;
use crate::ascii::{chars_of, concat, copy_string, push_char, string_of};
use crate::menu::{boundary, boundary_spec, rows_view, RowV, RAW_CAPTION};
use crate::catalog::KindRef;
use crate::key::Key;

verus! {

/// What a key did, for the app to act on: the pane cannot reach the scheduler.
#[derive(Debug, Clone, Copy, PartialEq, Eq, Structural)]
pub enum Action {
    Scrolled,
    Toggled,
    Help,
    Closed,
    Ignored,
}

/// Which of the three bodies the pane is showing.
#[derive(Debug, Clone, Copy, PartialEq, Eq, Structural)]
pub enum Body {
    /// The composed, sectioned summary. Reachable only over an entity of a known kind.
    Composed,
    Yaml,
    Json,
}

/// The table an entity pane reads its row from.
#[derive(Debug, Clone, PartialEq, Eq)]
pub struct TableKey {
    pub kind: KindRef,
}

/// The body a pane opens on: composed over a row of a table, raw over a payload.
pub open spec fn default_for_spec(has_key: bool) -> Body {
    if has_key { Body::Composed } else { Body::Yaml }
}

/// `Y` and `J`: to `raw`, or back to `home` when the pane is already showing `raw`.
pub open spec fn toggled_spec(b: Body, raw: Body, home: Body) -> Body {
    if b == raw { home } else { raw }
}

impl Body {
    /// The body a pane opens on, and the one `Y` and `J` return to. A payload pane has no
    /// table behind it, so nothing to compose from: it opens raw.
    pub fn default_for(key: Option<&TableKey>) -> (r: Body)
        ensures
            r == default_for_spec(key is Some),
    {
        match key {
            Some(_) => Body::Composed,
            None => Body::Yaml,
        }
    }

    /// `Y` and `J`: to `raw`, or back to `home` when the pane is already showing `raw`.
    pub fn toggled(self, raw: Body, home: Body) -> (r: Body)
        ensures
            r == toggled_spec(self, raw, home),
    {
        if self == raw { home } else { raw }
    }
}

/// A pane over one document: a row of a table, refreshed by a subscription of its own, or a
/// document an action answered with, which nothing refreshes.
pub struct Detail {
    /// The table the entity belongs to; `None` on a payload pane.
    pub key: Option<TableKey>,
    pub ext_id: String,
    /// What refreshes the entity; `None` on a payload pane.
    pub sub: Option<u64>,
    pub body: Body,
    pub scroll: u16,
    /// The subscription's last error, shown above the body.
    pub error: Option<String>,
    /// The document an action answered with, when this pane is over one rather than over a row.
    pub payload: Option<String>,
    /// A payload pane's title; an entity pane titles itself from its kind and its row.
    pub heading: Option<String>,
}

/// What [`Detail::key`] does to the scroll and the body, and what it answers, with the scroll
/// first pulled back to `last`.
pub open spec fn detail_key_spec(old: Detail, key: Key, last: u16, new: Detail, r: Action) -> bool {
    let s = if old.scroll < last { old.scroll as int } else { last as int };
    let home = default_for_spec(old.key is Some);
    let keeps_body = new.body == old.body;
    match key {
        Key::Esc => r == Action::Closed && keeps_body && new.scroll == s,
        Key::Char('Y') => r == Action::Toggled && new.body == toggled_spec(old.body, Body::Yaml, home) && new.scroll == 0,
        Key::Char('J') => r == Action::Toggled && new.body == toggled_spec(old.body, Body::Json, home) && new.scroll == 0,
        Key::Char('j') | Key::Down => r == Action::Scrolled && keeps_body && new.scroll == (if s + 1 < last { s + 1 } else { last as int }),
        Key::Char('k') | Key::Up => r == Action::Scrolled && keeps_body && new.scroll == (if s > 0 { s - 1 } else { 0 }),
        Key::PageDown => r == Action::Scrolled && keeps_body && new.scroll == (if s + 20 < last { s + 20 } else { last as int }),
        Key::PageUp => r == Action::Scrolled && keeps_body && new.scroll == (if s > 20 { s - 20 } else { 0 }),
        Key::Char('g') | Key::Home => r == Action::Scrolled && keeps_body && new.scroll == 0,
        Key::Char('G') | Key::End => r == Action::Scrolled && keeps_body && new.scroll == last,
        Key::Char('?') => r == Action::Help && keeps_body && new.scroll == s,
        _ => r == Action::Ignored && keeps_body && new.scroll == s,
    }
}

impl Detail {
    /// One key. `last` is the index of the last line the pane would draw; scrolling stops
    /// there, and a scroll a wider pane left past it is pulled back before anything else.
    pub fn key(&mut self, key: Key, last: u16) -> (r: Action)
        ensures
            detail_key_spec(*old(self), key, last, *final(self), r),
            final(self).scroll <= last,
            final(self).key == old(self).key,
            final(self).payload == old(self).payload,
            final(self).heading == old(self).heading,
            final(self).error == old(self).error,
    {
        if self.scroll > last {
            self.scroll = last;
        }
        match key {
            Key::Esc => Action::Closed,
            Key::Char('Y') => {
                let home = self.opens_on();
                self.body = self.body.toggled(Body::Yaml, home);
                self.scroll = 0;
                Action::Toggled
            },
            Key::Char('J') => {
                let home = self.opens_on();
                self.body = self.body.toggled(Body::Json, home);
                self.scroll = 0;
                Action::Toggled
            },
            Key::Char('j') | Key::Down => {
                self.scroll = if self.scroll < last { self.scroll + 1 } else { last };
                Action::Scrolled
            },
            Key::Char('k') | Key::Up => {
                self.scroll = if self.scroll > 0 { self.scroll - 1 } else { 0 };
                Action::Scrolled
            },
            Key::PageDown => {
                self.scroll = if last - self.scroll > 20 { self.scroll + 20 } else { last };
                Action::Scrolled
            },
            Key::PageUp => {
                self.scroll = if self.scroll > 20 { self.scroll - 20 } else { 0 };
                Action::Scrolled
            },
            Key::Char('g') | Key::Home => {
                self.scroll = 0;
                Action::Scrolled
            },
            Key::Char('G') | Key::End => {
                self.scroll = last;
                Action::Scrolled
            },
            Key::Char('?') => Action::Help,
            _ => Action::Ignored,
        }
    }

    /// A document an action answered with, with no subscription and no table behind it.
    pub fn payload(title: String, value: String) -> (d: Detail)
        ensures
            d.key is None,
            d.ext_id@.len() == 0,
            d.sub is None,
            d.body == Body::Yaml,
            d.scroll == 0,
            d.error is None,
            d.payload == Some(value),
            d.heading == Some(title),
    {
        Detail {
            key: None,
            ext_id: String::new(),
            sub: None,
            body: Body::default_for(None),
            scroll: 0,
            error: None,
            payload: Some(value),
            heading: Some(title),
        }
    }

    /// The body this pane opens on, and the one `Y` and `J` come back to.
    pub fn opens_on(&self) -> (r: Body)
        ensures
            r == default_for_spec(self.key is Some),
    {
        match &self.key {
            Some(k) => Body::default_for(Some(k)),
            None => Body::default_for(None),
        }
    }

    /// The pane's title: a payload pane's heading, or `Virtual Machines · LAB-CLEAR03` - the
    /// kind, then the row's name, `…` while the row has not landed.
    pub fn title(&self, name: Option<&str>) -> (r: String)
        ensures
            r@ == (match self.heading {
                Some(h) => h@,
                None => (match self.key {
                    Some(k) => k.kind.display@,
                    None => Seq::<char>::empty(),
                }) + " · "@ + (match name {
                    Some(n) => n@,
                    None => "…"@,
                }),
            }),
    {
        if let Some(heading) = &self.heading {
            return copy_string(heading);
        }
        let display = match &self.key {
            Some(k) => copy_string(&k.kind.display),
            None => String::new(),
        };
        let head = concat(display.as_str(), " · ");
        let tail = match name {
            Some(n) => n,
            None => "…",
        };
        concat(head.as_str(), tail)
    }

    /// The index of the last line the pane can scroll to, over the lines it would draw.
    pub fn last_line<T>(lines: &[T]) -> (r: u16)
        ensures
            r == (if lines@.len() == 0 { 0 } else if lines@.len() - 1 > u16::MAX { u16::MAX as int } else { lines@.len() - 1 }),
    {
        let n = lines.len();
        let last = if n == 0 { 0 } else { n - 1 };
        if last > 65535 { 65535 } else { last as u16 }
    }
}

/// The number of terminal cells `s` takes, as `unicode_width` measures it.
pub uninterp spec fn str_width(s: Seq<char>) -> usize;

/// `UnicodeWidthStr::width`: the cells `s` takes on a terminal. Its rules - East Asian widths,
/// zero-width marks, emoji sequences - run to pages, so the result is named, not stated; it
/// depends on `s` alone.
#[verifier::external_body]
fn width(s: &str) -> (r: usize)
    ensures
        r == str_width(s@),
{
    unicode_width::UnicodeWidthStr::width(s)
}

/// What `str::to_uppercase` makes of `s`.
pub uninterp spec fn uppercase(s: Seq<char>) -> Seq<char>;

/// `str::to_uppercase`: `s` with every character mapped by Unicode's uppercase rules, which
/// may change its length. Named, not stated: the tables are Unicode's.
#[verifier::external_body]
fn to_upper(s: &str) -> (r: String)
    ensures
        r@ == uppercase(s@),
{
    s.to_uppercase()
}

/// The label column of the composed body, in cells.
pub const DETAIL_LABEL: usize = 18;
/// Two columns at or above this interior width, one below.
pub const TWO_COLUMN_MIN: u16 = 92;
/// The blank cells between a left field and the label of the right one, spent out of the left
/// column's value budget.
pub const GUTTER: usize = 2;

/// How a span is drawn; the theme picks the colours.
#[derive(Debug, Clone, Copy, PartialEq, Eq, Structural)]
pub enum Tint {
    /// As the terminal draws text.
    Plain,
    /// The body's own text colour.
    Text,
    /// Dim: labels, rules, greyed values.
    Dim,
    /// The table-header style.
    Header,
    /// A rule across the line with this caption on it.
    Rule,
    /// An error.
    Error,
}

/// A run of text in one style.
#[derive(Debug, Clone, PartialEq, Eq)]
pub struct Span {
    pub text: String,
    pub tint: Tint,
}

/// A span, as values.
pub struct SpanV {
    pub text: Seq<char>,
    pub tint: Tint,
}

impl View for Span {
    type V = SpanV;

    open spec fn view(&self) -> SpanV {
        SpanV { text: self.text@, tint: self.tint }
    }
}

/// The views of a line of spans.
pub open spec fn line_view(v: Seq<Span>) -> Seq<SpanV> {
    v.map_values(|s: Span| s@)
}

/// The views of a list of lines.
pub open spec fn lines_view(v: Seq<Vec<Span>>) -> Seq<Seq<SpanV>> {
    v.map_values(|l: Vec<Span>| line_view(l@))
}

/// A value as composed for the pane: its text, and whether it is drawn dim.
#[derive(Debug, Clone, PartialEq, Eq)]
pub struct Rendered {
    pub text: String,
    pub dim: bool,
}

/// One section of the composed body: its title and its labelled fields.
#[derive(Debug, Clone, PartialEq, Eq)]
pub struct Section {
    pub title: String,
    pub fields: Vec<(String, Rendered)>,
}

/// `n` copies of `c`.
pub open spec fn repeated(c: char, n: nat) -> Seq<char> {
    Seq::new(n, |i: int| c)
}

/// `n` copies of `c`, as a string.
fn repeat_char(c: char, n: usize) -> (r: String)
    ensures
        r@ == repeated(c, n as nat),
{
    let mut r = String::new();
    let mut i: usize = 0;
    while i < n
        invariant
            i <= n,
            r@ == repeated(c, i as nat),
        decreases n - i,
    {
        push_char(&mut r, c);
        proof {
            assert(r@ =~= repeated(c, (i + 1) as nat));
        }
        i = i + 1;
    }
    r
}

/// `a - b`, or `0` when `b` is the larger.
pub open spec fn sat_sub(a: int, b: int) -> nat {
    if a > b { (a - b) as nat } else { 0 }
}

/// `a + b`, or `usize::MAX` when that does not fit.
pub open spec fn sat_add(a: int, b: int) -> int {
    if a + b > usize::MAX { usize::MAX as int } else { a + b }
}

/// One field: the label right-aligned and dim in [`DETAIL_LABEL`] cells, one space, then the
/// value, dim when it is greyed. A label wider than the column keeps its own width.
pub open spec fn pair_spec(label: Seq<char>, text: Seq<char>, dim: bool) -> Seq<SpanV> {
    seq![
        SpanV { text: repeated(' ', sat_sub(DETAIL_LABEL as int, str_width(label) as int)) + label + " "@, tint: Tint::Dim },
        SpanV { text, tint: if dim { Tint::Dim } else { Tint::Text } },
    ]
}

/// One field, as spans.
fn pair(label: &str, text: String, dim: bool) -> (r: Vec<Span>)
    ensures
        line_view(r@) == pair_spec(label@, text@, dim),
{
    let w = width(label);
    let pad = if w < DETAIL_LABEL { DETAIL_LABEL - w } else { 0 };
    let head = repeat_char(' ', pad);
    let head = concat(head.as_str(), label);
    let head = concat(head.as_str(), " ");
    let mut r: Vec<Span> = Vec::new();
    r.push(Span { text: head, tint: Tint::Dim });
    r.push(Span { text, tint: if dim { Tint::Dim } else { Tint::Text } });
    proof {
        assert(line_view(r@) =~= pair_spec(label@, text@, dim));
    }
    r
}

/// A section heading: the title uppercased in the header style, then a dim rule to the right
/// edge of a pane `width` cells wide.
pub open spec fn heading_spec(title: Seq<char>, width: int) -> Seq<SpanV> {
    let text = uppercase(title);
    seq![
        SpanV { text, tint: Tint::Header },
        SpanV { text: " "@ + repeated('─', sat_sub(width, sat_add(str_width(text) as int, 1))), tint: Tint::Dim },
    ]
}

/// A section heading, as spans.
fn heading(title: &str, w: usize) -> (r: Vec<Span>)
    ensures
        line_view(r@) == heading_spec(title@, w as int),
{
    let text = to_upper(title);
    let tw = width(text.as_str());
    let used = tw.saturating_add(1);
    let rule = if w > used { w - used } else { 0 };
    let line = repeat_char('─', rule);
    let line = concat(" ", line.as_str());
    let mut r: Vec<Span> = Vec::new();
    r.push(Span { text, tint: Tint::Header });
    r.push(Span { text: line, tint: Tint::Dim });
    proof {
        assert(line_view(r@) =~= heading_spec(title@, w as int));
    }
    r
}

/// The cells a line of spans takes, counted with saturation.
pub open spec fn spans_width(spans: Seq<SpanV>) -> int
    decreases spans.len(),
{
    if spans.len() == 0 {
        0
    } else {
        sat_add(spans_width(spans.drop_last()), str_width(spans.last().text) as int)
    }
}

/// The layout of a pane `w` cells wide: whether it has two columns, how wide a column is, and
/// the value budget of a field that pairs.
pub open spec fn layout(w: int) -> (bool, int, int) {
    let two = w >= TWO_COLUMN_MIN;
    let column: int = if two { (sat_sub(w, 2) / 2) as int } else { w };
    let value = sat_sub(column, (DETAIL_LABEL + 1 + GUTTER) as int);
    (two, column, value as int)
}

/// The lines so far, with the pending left field flushed.
pub open spec fn flushed(lines: Seq<Seq<SpanV>>, pending: Option<Seq<SpanV>>) -> Seq<Seq<SpanV>> {
    match pending {
        Some(p) => lines.push(p),
        None => lines,
    }
}

/// The first `n` fields of a section, laid out: the lines made so far and the left field
/// waiting for a partner. A field that spills - its label too wide for the label column or its
/// value too wide for the budget - or any field in one column, flushes the waiting field and
/// takes a line of its own. Otherwise it waits, or joins the waiting one after the blanks that
/// bring it to the second column.
pub open spec fn fields_upto(fields: Seq<(Seq<char>, Seq<char>, bool)>, w: int, n: int) -> (Seq<Seq<SpanV>>, Option<Seq<SpanV>>)
    decreases n,
{
    if n <= 0 {
        (Seq::empty(), None)
    } else {
        let (lines, pending) = fields_upto(fields, w, n - 1);
        let (label, text, dim) = fields[n - 1];
        let (two, column, value) = layout(w);
        let p = pair_spec(label, text, dim);
        let spills = str_width(label) > DETAIL_LABEL || str_width(text) > value;
        if spills || !two {
            (flushed(lines, pending).push(p), None)
        } else {
            match pending {
                None => (lines, Some(p)),
                Some(left) => {
                    let gap = SpanV { text: repeated(' ', sat_sub(column, spans_width(left))), tint: Tint::Plain };
                    (lines.push(left.push(gap) + p), None)
                },
            }
        }
    }
}

/// A section's fields, as values.
pub open spec fn fields_view(v: Seq<(String, Rendered)>) -> Seq<(Seq<char>, Seq<char>, bool)> {
    v.map_values(|f: (String, Rendered)| (f.0@, f.1.text@, f.1.dim))
}

/// One section, laid out: its heading, then its fields.
pub open spec fn section_lines(s: Section, w: int) -> Seq<Seq<SpanV>> {
    let fv = fields_view(s.fields@);
    let (lines, pending) = fields_upto(fv, w, fv.len() as int);
    seq![heading_spec(s.title@, w)] + flushed(lines, pending)
}

/// The first `n` sections, laid out.
pub open spec fn body_upto(sections: Seq<Section>, w: int, n: int) -> Seq<Seq<SpanV>>
    decreases n,
{
    if n <= 0 {
        Seq::empty()
    } else {
        body_upto(sections, w, n - 1) + section_lines(sections[n - 1], w)
    }
}

/// The composed sections as drawn lines, for a pane of interior width `width`: each section's
/// heading, then its fields, two to a line in a wide pane unless one spills.
pub fn body_lines(sections: Vec<Section>, width: u16) -> (r: Vec<Vec<Span>>)
    ensures
        lines_view(r@) == body_upto(sections@, width as int, sections@.len() as int),
{
    let w = width as usize;
    let two = width >= TWO_COLUMN_MIN;
    let column: usize = if two { (if w > 2 { w - 2 } else { 0 }) / 2 } else { w };
    let value: usize = if column > DETAIL_LABEL + 1 + GUTTER { column - (DETAIL_LABEL + 1 + GUTTER) } else { 0 };
    proof {
        assert(layout(w as int) == (two, column as int, value as int));
    }
    let mut lines: Vec<Vec<Span>> = Vec::new();
    let mut si: usize = 0;
    while si < sections.len()
        invariant
            si <= sections@.len(),
            w == width as usize,
            layout(w as int) == (two, column as int, value as int),
            column <= w,
            lines_view(lines@) == body_upto(sections@, w as int, si as int),
        decreases sections.len() - si,
    {
        let section = &sections[si];
        let ghost start = lines_view(lines@);
        let ghost fv = fields_view(section.fields@);
        lines.push(heading(section.title.as_str(), w));
        let ghost after_heading = lines_view(lines@);
        let mut pending: Option<Vec<Span>> = None;
        let mut fi: usize = 0;
        while fi < section.fields.len()
            invariant
                fi <= section.fields@.len(),
                fv == fields_view(section.fields@),
                layout(w as int) == (two, column as int, value as int),
                column <= w,
                lines_view(lines@) == after_heading + fields_upto(fv, w as int, fi as int).0,
                (match pending {
                    Some(p) => Some(line_view(p@)),
                    None => None::<Seq<SpanV>>,
                }) == fields_upto(fv, w as int, fi as int).1,
            decreases section.fields.len() - fi,
        {
            let label = &section.fields[fi].0;
            let rendered = &section.fields[fi].1;
            let spills = width_of(label) > DETAIL_LABEL || width_of(&rendered.text) > value;
            let p = pair(label.as_str(), rendered.text.clone(), rendered.dim);
            let ghost before = lines_view(lines@);
            let ghost prev = fields_upto(fv, w as int, fi as int);
            let ghost pv = line_view(p@);
            proof {
                assert(fv[fi as int] == (label@, rendered.text@, rendered.dim));
                assert(before == after_heading + prev.0);
            }
            if spills || !two {
                match pending {
                    Some(left) => {
                        proof {
                            assert(prev.1 == Some(line_view(left@)));
                        }
                        lines.push(left);
                        proof {
                            assert(lines_view(lines@) =~= before.push(line_view(left@)));
                        }
                    },
                    None => {},
                }
                let ghost mid = lines_view(lines@);
                proof {
                    assert(mid =~= after_heading + flushed(prev.0, prev.1));
                }
                lines.push(p);
                pending = None;
                proof {
                    assert(fields_upto(fv, w as int, fi + 1).0 == flushed(prev.0, prev.1).push(pv));
                    assert(lines_view(lines@) =~= mid.push(pv));
                    assert(lines_view(lines@) =~= after_heading + fields_upto(fv, w as int, fi + 1).0);
                }
            } else {
                match pending {
                    None => {
                        pending = Some(p);
                    },
                    Some(left) => {
                        let ghost lv = line_view(left@);
                        let used = spans_cells(&left);
                        let gap = if column > used { column - used } else { 0 };
                        let mut joined = left;
                        joined.push(Span { text: repeat_char(' ', gap), tint: Tint::Plain });
                        let ghost gap_span = SpanV { text: repeated(' ', gap as nat), tint: Tint::Plain };
                        proof {
                            assert(line_view(joined@) =~= lv.push(gap_span));
                        }
                        let mut k: usize = 0;
                        let ghost base = line_view(joined@);
                        while k < p.len()
                            invariant
                                k <= p@.len(),
                                line_view(joined@) == base + line_view(p@).subrange(0, k as int),
                            decreases p.len() - k,
                        {
                            let ghost b = line_view(joined@);
                            joined.push(Span { text: p[k].text.clone(), tint: p[k].tint });
                            proof {
                                assert(line_view(joined@) =~= b.push(p@[k as int]@));
                                assert(line_view(p@).subrange(0, k as int + 1) =~= line_view(p@).subrange(0, k as int).push(p@[k as int]@));
                            }
                            k = k + 1;
                        }
                        proof {
                            assert(line_view(p@).subrange(0, p@.len() as int) =~= line_view(p@));
                            assert(line_view(joined@) == lv.push(gap_span) + pv);
                            assert(fields_upto(fv, w as int, fi + 1).0 == prev.0.push(lv.push(gap_span) + pv));
                        }
                        lines.push(joined);
                        pending = None;
                        proof {
                            assert(lines_view(lines@) =~= before.push(lv.push(gap_span) + pv));
                            assert(lines_view(lines@) =~= after_heading + fields_upto(fv, w as int, fi + 1).0);
                        }
                    },
                }
            }
            fi = fi + 1;
        }
        let ghost fin = fields_upto(fv, w as int, fv.len() as int);
        proof {
            assert(lines_view(lines@) == after_heading + fin.0);
            assert(after_heading =~= start.push(heading_spec(section.title@, w as int)));
        }
        let ghost before_flush = lines_view(lines@);
        match pending {
            Some(left) => {
                proof {
                    assert(fin.1 == Some(line_view(left@)));
                }
                lines.push(left);
                proof {
                    assert(lines_view(lines@) =~= before_flush.push(line_view(left@)));
                }
            },
            None => {},
        }
        proof {
            assert(lines_view(lines@) =~= after_heading + flushed(fin.0, fin.1));
            assert(section_lines(sections@[si as int], w as int) == seq![heading_spec(section.title@, w as int)] + flushed(fin.0, fin.1));
            assert(lines_view(lines@) =~= start + section_lines(sections@[si as int], w as int));
            assert(body_upto(sections@, w as int, si + 1) == start + section_lines(sections@[si as int], w as int));
        }
        si = si + 1;
    }
    lines
}

/// The cells a string takes.
fn width_of(s: &String) -> (r: usize)
    ensures
        r == str_width(s@),
{
    width(s.as_str())
}

/// The cells a line of spans takes, counted with saturation.
fn spans_cells(spans: &Vec<Span>) -> (r: usize)
    ensures
        r == spans_width(line_view(spans@)),
{
    let ghost sv = line_view(spans@);
    let mut total: usize = 0;
    let mut i: usize = 0;
    while i < spans.len()
        invariant
            i <= spans@.len(),
            sv == line_view(spans@),
            total == spans_width(sv.subrange(0, i as int)),
        decreases spans.len() - i,
    {
        proof {
            let pre = sv.subrange(0, i as int + 1);
            assert(pre.drop_last() =~= sv.subrange(0, i as int));
            assert(pre.last() == spans@[i as int]@);
        }
        total = total.saturating_add(width(spans[i].text.as_str()));
        i = i + 1;
    }
    proof {
        assert(sv.subrange(0, sv.len() as int) =~= sv);
    }
    total
}

/// What an action's line says: its title, and why it cannot run when it cannot.
pub open spec fn action_text(r: RowV) -> Seq<char> {
    match r.reason {
        None => r.action.title,
        Some(why) => r.action.title + " · "@ + why,
    }
}

/// The lines for the first `n` actions, with the raw-names rule before the entry at `at`.
pub open spec fn action_lines_upto(rows: Seq<RowV>, at: Option<int>, n: int) -> Seq<Seq<SpanV>>
    decreases n,
{
    if n <= 0 {
        Seq::empty()
    } else {
        let before = action_lines_upto(rows, at, n - 1);
        let with_rule = if at == Some(n - 1) {
            before.push(seq![SpanV { text: RAW_CAPTION@, tint: Tint::Rule }])
        } else {
            before
        };
        let r = rows[n - 1];
        with_rule.push(pair_spec(r.action.key, action_text(r), r.reason is Some))
    }
}

/// The `ACTIONS` section: nothing when there is no action, else its heading and one line per
/// action, labelled by the key that runs it, with the raw-names rule where the curated ones
/// end.
pub open spec fn action_lines_spec(rows: Seq<RowV>, w: int) -> Seq<Seq<SpanV>> {
    if rows.len() == 0 {
        Seq::empty()
    } else {
        seq![heading_spec("Actions"@, w)] + action_lines_upto(rows, boundary_spec(rows), rows.len() as int)
    }
}

/// The `ACTIONS` section of the composed body, for a pane `width` cells wide: one line per
/// action that runs on this row, drawn as a field whose label is the key that runs it; a greyed
/// action is dim and carries its reason.
pub fn action_lines(rows: &[crate::menu::Row], width: u16) -> (r: Vec<Vec<Span>>)
    ensures
        lines_view(r@) == action_lines_spec(rows_view(rows@), width as int),
{
    let ghost rv = rows_view(rows@);
    let mut lines: Vec<Vec<Span>> = Vec::new();
    if rows.len() == 0 {
        proof {
            assert(lines_view(lines@) =~= Seq::<Seq<SpanV>>::empty());
        }
        return lines;
    }
    let w = width as usize;
    lines.push(heading("Actions", w));
    let ghost head = lines_view(lines@);
    let raw = boundary(rows);
    let mut i: usize = 0;
    while i < rows.len()
        invariant
            i <= rows@.len(),
            rv == rows_view(rows@),
            w == width as usize,
            raw matches Some(b) ==> boundary_spec(rv) == Some(b as int),
            raw is None ==> boundary_spec(rv) is None,
            lines_view(lines@) == head + action_lines_upto(rv, boundary_spec(rv), i as int),
        decreases rows.len() - i,
    {
        let ghost before = lines_view(lines@);
        let mark = match raw {
            Some(b) => b == i,
            None => false,
        };
        if mark {
            let mut rule: Vec<Span> = Vec::new();
            rule.push(Span { text: string_of(chars_of(RAW_CAPTION).as_slice()), tint: Tint::Rule });
            proof {
                assert(line_view(rule@) =~= seq![SpanV { text: RAW_CAPTION@, tint: Tint::Rule }]);
            }
            lines.push(rule);
        }
        let ghost mid = lines_view(lines@);
        let row = &rows[i];
        let text = match &row.reason {
            None => copy_string(&row.action.title),
            Some(why) => {
                let t = concat(row.action.title.as_str(), " · ");
                concat(t.as_str(), why.as_str())
            },
        };
        proof {
            assert(rv[i as int] == row@);
            assert(text@ == action_text(rv[i as int]));
        }
        let line = pair(row.action.key.as_str(), text, row.reason.is_some());
        lines.push(line);
        proof {
            if mark {
                assert(mid =~= before.push(seq![SpanV { text: RAW_CAPTION@, tint: Tint::Rule }]));
            } else {
                assert(mid =~= before);
            }
            assert(lines_view(lines@) =~= mid.push(pair_spec(rv[i as int].action.key, action_text(rv[i as int]), rv[i as int].reason is Some)));
        }
        i = i + 1;
    }
    proof {
        assert(lines_view(lines@) =~= action_lines_spec(rv, width as int));
    }
    lines
}

/// The index of the first `\n` from `k` on.
pub open spec fn first_nl(s: Seq<char>, k: int) -> Option<int>
    decreases s.len() - k,
{
    if k < 0 || k >= s.len() {
        None
    } else if s[k] == '\n' {
        Some(k)
    } else {
        first_nl(s, k + 1)
    }
}

/// A line without the `\r` of a `\r\n` ending.
pub open spec fn strip_cr(l: Seq<char>) -> Seq<char> {
    if l.len() > 0 && l.last() == '\r' { l.drop_last() } else { l }
}

/// The lines of `s` from `k` on, as `str::lines` splits them: at `\n` and at `\r\n`, with the
/// last line ending optional, so a text that ends with one has no empty line after it.
pub open spec fn lines_from(s: Seq<char>, k: int) -> Seq<Seq<char>>
    decreases s.len() - k,
{
    if k < 0 || k >= s.len() {
        Seq::empty()
    } else {
        proof {
            lemma_first_nl_found(s, k);
        }
        match first_nl(s, k) {
            Some(i) => seq![strip_cr(s.subrange(k, i))] + lines_from(s, i + 1),
            None => seq![s.subrange(k, s.len() as int)],
        }
    }
}

/// What `first_nl` finds is a `\n` at or after where it started.
pub proof fn lemma_first_nl_found(s: Seq<char>, k: int)
    ensures
        first_nl(s, k) matches Some(i) ==> k <= i < s.len() && s[i] == '\n',
    decreases s.len() - k,
{
    if 0 <= k < s.len() && s[k] != '\n' {
        lemma_first_nl_found(s, k + 1);
    }
}

/// `first_nl` moves past characters that are not `\n`.
proof fn lemma_first_nl_skips(s: Seq<char>, k: int, i: int)
    requires
        0 <= k <= i <= s.len(),
        forall|j: int| k <= j < i ==> s[j] != '\n',
    ensures
        first_nl(s, k) == first_nl(s, i),
    decreases i - k,
{
    if k < i {
        lemma_first_nl_skips(s, k + 1, i);
    }
}

/// A raw document as drawn lines: one plain line per line of text.
pub open spec fn text_lines_spec(text: Seq<char>) -> Seq<Seq<SpanV>> {
    lines_from(text, 0).map_values(|l: Seq<char>| seq![SpanV { text: l, tint: Tint::Plain }])
}

/// One plain line of `text`.
fn plain_line(text: String) -> (r: Vec<Span>)
    ensures
        line_view(r@) == seq![SpanV { text: text@, tint: Tint::Plain }],
{
    let mut r: Vec<Span> = Vec::new();
    r.push(Span { text, tint: Tint::Plain });
    proof {
        assert(line_view(r@) =~= seq![SpanV { text: text@, tint: Tint::Plain }]);
    }
    r
}

/// `s` without the `\r` of a `\r\n` ending.
fn strip_cr_exec(l: Vec<char>) -> (r: String)
    ensures
        r@ == strip_cr(l@),
{
    if l.len() > 0 && l[l.len() - 1] == '\r' {
        let kept = crate::ascii::slice_chars(l.as_slice(), 0, l.len() - 1);
        proof {
            assert(kept@ =~= l@.drop_last());
        }
        string_of(kept.as_slice())
    } else {
        string_of(l.as_slice())
    }
}

/// A raw document as drawn lines, one per line of text.
pub fn text_lines(text: &str) -> (r: Vec<Vec<Span>>)
    ensures
        lines_view(r@) == text_lines_spec(text@),
{
    let cs = chars_of(text);
    let ghost s = text@;
    let mut out: Vec<Vec<Span>> = Vec::new();
    let mut cur: Vec<char> = Vec::new();
    let mut start: usize = 0;
    let mut i: usize = 0;
    while i < cs.len()
        invariant
            cs@ == s,
            start <= i <= cs@.len(),
            cur@ == s.subrange(start as int, i as int),
            forall|j: int| start <= j < i ==> s[j] != '\n',
            lines_view(out@) + lines_from(s, start as int).map_values(|l: Seq<char>| seq![SpanV { text: l, tint: Tint::Plain }])
                == text_lines_spec(s),
        decreases cs.len() - i,
    {
        let c = cs[i];
        if c == '\n' {
            proof {
                lemma_first_nl_skips(s, start as int, i as int);
                assert(first_nl(s, i as int) == Some(i as int));
            }
            let ghost rest = lines_from(s, i as int + 1);
            let ghost before = lines_view(out@);
            let line = strip_cr_exec(cur);
            let ghost lv = line@;
            out.push(plain_line(line));
            proof {
                let f = |l: Seq<char>| seq![SpanV { text: l, tint: Tint::Plain }];
                assert(lines_from(s, start as int) == seq![lv] + rest);
                assert((seq![lv] + rest).map_values(f) =~= seq![f(lv)] + rest.map_values(f));
                assert(lines_view(out@) =~= before.push(f(lv)));
                assert(before.push(f(lv)) + rest.map_values(f) =~= before + (seq![f(lv)] + rest.map_values(f)));
            }
            cur = Vec::new();
            start = i + 1;
            proof {
                assert(cur@ =~= s.subrange(start as int, (i + 1) as int));
            }
        } else {
            cur.push(c);
            proof {
                assert(cur@ =~= s.subrange(start as int, (i + 1) as int));
            }
        }
        i = i + 1;
    }
    proof {
        lemma_first_nl_skips(s, start as int, s.len() as int);
    }
    if start < cs.len() {
        let ghost before = lines_view(out@);
        let ghost lv = cur@;
        out.push(plain_line(string_of(cur.as_slice())));
        proof {
            let f = |l: Seq<char>| seq![SpanV { text: l, tint: Tint::Plain }];
            assert(lines_from(s, start as int) == seq![lv]);
            assert(seq![lv].map_values(f) =~= seq![f(lv)]);
            assert(lines_view(out@) =~= before.push(f(lv)));
            assert(lines_view(out@) =~= before + seq![lv].map_values(f));
        }
    } else {
        proof {
            let f = |l: Seq<char>| seq![SpanV { text: l, tint: Tint::Plain }];
            assert(lines_from(s, start as int) =~= Seq::<Seq<char>>::empty());
            assert(lines_from(s, start as int).map_values(f) =~= Seq::<Seq<SpanV>>::empty());
            assert(lines_view(out@) =~= lines_view(out@) + lines_from(s, start as int).map_values(f));
        }
    }
    out
}

/// The raw document as text: the JSON rendering, ended by a newline, on the JSON body; the
/// YAML one otherwise - the composed body reaches here only when there was nothing to compose
/// from. An entity pane whose row has not landed says so instead.
pub open spec fn doc_text(d: Detail, loaded: bool, yaml: Seq<char>, json: Seq<char>) -> Seq<char> {
    if d.payload is None && !loaded {
        "loading…\n"@
    } else if d.body == Body::Json {
        json + "\n"@
    } else {
        yaml
    }
}

/// Whether the pane is showing composed sections: the composed body, over a row of a table
/// that has landed.
pub open spec fn shows_composed(d: Detail, loaded: bool) -> bool {
    d.body == Body::Composed && loaded && d.key is Some
}

/// The line that stands for a composed body with nothing in it.
pub open spec fn nothing_to_compose() -> Seq<char> {
    "nothing to compose from this document - the wire document follows"@
}

/// Everything the pane draws: the subscription's error and a blank line above the body; then
/// the composed sections, or - when every one came out empty - a note and the wire document,
/// or `loading…` while the row has not landed, or the wire document; then, under the composed
/// body, the actions.
pub open spec fn pane_lines(
    d: Detail,
    loaded: bool,
    sections: Seq<Section>,
    yaml: Seq<char>,
    json: Seq<char>,
    actions: Seq<RowV>,
    w: int,
) -> Seq<Seq<SpanV>> {
    let head = match d.error {
        Some(e) => seq![seq![SpanV { text: "error: "@ + e@, tint: Tint::Error }], Seq::<SpanV>::empty()],
        None => Seq::empty(),
    };
    let text = text_lines_spec(doc_text(d, loaded, yaml, json));
    let body = if shows_composed(d, loaded) {
        if sections.len() == 0 {
            seq![seq![SpanV { text: nothing_to_compose(), tint: Tint::Dim }], Seq::<SpanV>::empty()] + text
        } else {
            body_upto(sections, w, sections.len() as int)
        }
    } else if !loaded && d.payload is None {
        seq![seq![SpanV { text: "loading…"@, tint: Tint::Dim }]]
    } else {
        text
    };
    let tail = if d.body == Body::Composed { action_lines_spec(actions, w) } else { Seq::empty() };
    head + body + tail
}

/// One line of a single span.
fn one_span(text: String, tint: Tint) -> (r: Vec<Span>)
    ensures
        line_view(r@) == seq![SpanV { text: text@, tint }],
{
    let mut r: Vec<Span> = Vec::new();
    r.push(Span { text, tint });
    proof {
        assert(line_view(r@) =~= seq![SpanV { text: text@, tint }]);
    }
    r
}

/// A line with nothing on it.
fn empty_line() -> (r: Vec<Span>)
    ensures
        line_view(r@) == Seq::<SpanV>::empty(),
{
    let r: Vec<Span> = Vec::new();
    proof {
        assert(line_view(r@) =~= Seq::<SpanV>::empty());
    }
    r
}

/// `lines` with `more` after them.
fn extend_lines(lines: &mut Vec<Vec<Span>>, more: Vec<Vec<Span>>)
    ensures
        lines_view(final(lines)@) == lines_view(old(lines)@) + lines_view(more@),
{
    let ghost start = lines_view(lines@);
    let ghost mv = lines_view(more@);
    let mut more = more;
    proof {
        assert(lines_view(lines@) + lines_view(more@) =~= start + mv);
    }
    while more.len() > 0
        invariant
            lines_view(lines@) + lines_view(more@) == start + mv,
        decreases more.len(),
    {
        let ghost rest = more@;
        let first = more.remove(0);
        let ghost before = lines_view(lines@);
        lines.push(first);
        proof {
            assert(lines_view(rest) =~= seq![line_view(first@)] + lines_view(more@));
            assert(lines_view(lines@) =~= before.push(line_view(first@)));
            assert(lines_view(lines@) + lines_view(more@) =~= before + lines_view(rest));
        }
    }
    proof {
        assert(lines_view(more@) =~= Seq::<Seq<SpanV>>::empty());
        assert(lines_view(lines@) =~= start + mv);
    }
}

impl Detail {
    /// The raw document as text, from the caller's renderings of it: `yaml` and `json` are the
    /// document - the payload, or the row's raw entity - rendered as YAML and pretty-printed
    /// as JSON. `loaded` says whether an entity pane's row has landed.
    pub fn text(&self, loaded: bool, yaml: &str, json: &str) -> (r: String)
        ensures
            r@ == doc_text(*self, loaded, yaml@, json@),
    {
        if self.payload.is_none() && !loaded {
            proof {
                reveal_strlit("loading…\n");
            }
            return "loading…\n".to_string();
        }
        if self.body == Body::Json {
            proof {
                reveal_strlit("\n");
            }
            concat(json, "\n")
        } else {
            string_of(chars_of(yaml).as_slice())
        }
    }

    /// Everything the pane draws, for a pane `width` cells wide. `sections` are what the
    /// catalog composed over the row, read only while the composed body is shown; `yaml` and
    /// `json` are the document's renderings; `actions` what runs on the row, sorted and greyed.
    pub fn lines(
        &self,
        loaded: bool,
        sections: Vec<Section>,
        yaml: &str,
        json: &str,
        actions: &[crate::menu::Row],
        width: u16,
    ) -> (r: Vec<Vec<Span>>)
        ensures
            lines_view(r@) == pane_lines(*self, loaded, sections@, yaml@, json@, rows_view(actions@), width as int),
    {
        let mut lines: Vec<Vec<Span>> = Vec::new();
        if let Some(error) = &self.error {
            proof {
                reveal_strlit("error: ");
            }
            lines.push(one_span(concat("error: ", error.as_str()), Tint::Error));
            lines.push(empty_line());
            proof {
                assert(lines_view(lines@) =~= seq![seq![SpanV { text: "error: "@ + error@, tint: Tint::Error }], Seq::<SpanV>::empty()]);
            }
        } else {
            proof {
                assert(lines_view(lines@) =~= Seq::<Seq<SpanV>>::empty());
            }
        }
        let ghost head = lines_view(lines@);
        let composed = self.body == Body::Composed && loaded && self.key.is_some();
        if composed {
            if sections.len() == 0 {
                proof {
                    reveal_strlit("nothing to compose from this document - the wire document follows");
                }
                lines.push(one_span(
                    "nothing to compose from this document - the wire document follows".to_string(),
                    Tint::Dim,
                ));
                lines.push(empty_line());
                let ghost mid = lines_view(lines@);
                proof {
                    assert(mid =~= head + seq![seq![SpanV { text: nothing_to_compose(), tint: Tint::Dim }], Seq::<SpanV>::empty()]);
                }
                let text = self.text(loaded, yaml, json);
                extend_lines(&mut lines, text_lines(text.as_str()));
                proof {
                    assert(lines_view(lines@) =~= head + (seq![seq![SpanV { text: nothing_to_compose(), tint: Tint::Dim }], Seq::<SpanV>::empty()]
                        + text_lines_spec(doc_text(*self, loaded, yaml@, json@))));
                }
            } else {
                extend_lines(&mut lines, body_lines(sections, width));
            }
        } else if !loaded && self.payload.is_none() {
            proof {
                reveal_strlit("loading…");
            }
            lines.push(one_span("loading…".to_string(), Tint::Dim));
        } else {
            let text = self.text(loaded, yaml, json);
            extend_lines(&mut lines, text_lines(text.as_str()));
        }
        let ghost body = lines_view(lines@);
        if self.body == Body::Composed {
            extend_lines(&mut lines, action_lines(actions, width));
        } else {
            proof {
                assert(lines_view(lines@) =~= body + Seq::<Seq<SpanV>>::empty());
            }
        }
        proof {
            let p = pane_lines(*self, loaded, sections@, yaml@, json@, rows_view(actions@), width as int);
            assert(lines_view(lines@) =~= p);
        }
        lines
    }
}

} // verus!
