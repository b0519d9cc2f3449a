//! The generic form: an action's fields as a labelled column. It collects strings only; the
//! body is built, validated and typed from them elsewhere.
//!
//! The reference picker lives here too, because it is the form's: it opens over one field, it
//! writes one field, and it closes back onto the form.

use vstd::prelude::*;
use crate::ascii::{chars_of, contains_chars, contains_spec, fold_chars, fold_seq, push_char, slice_chars, str_eq, string_of};
use crate::catalog::{copy_strings, strings_view, Field, FieldType, FieldTypeV, FieldV, KindRef};
use crate::key::Key;
use crate::palette::{window, window_offset};
use crate::text::{key_edit, Edit, Input};

verus! {

/// What a key did to the form, for the app to act on.
#[derive(Debug, Clone, PartialEq, Eq)]
pub enum Event {
    Moved,
    Edited,
    Submit,
    Cancelled,
    /// `enter` on a reference: the app opens a picker over the named kind.
    Pick(String),
    Ignored,
}

/// A value that is a substitution made at submit rather than text to send.
pub open spec fn starts_dollar(s: Seq<char>) -> bool {
    s.len() > 0 && s[0] == '$'
}

/// The values that are not substitutions, in order.
pub open spec fn plain_values(vs: Seq<Seq<char>>) -> Seq<Seq<char>>
    decreases vs.len(),
{
    if vs.len() == 0 {
        Seq::empty()
    } else {
        let rest = plain_values(vs.drop_last());
        if starts_dollar(vs.last()) { rest } else { rest.push(vs.last()) }
    }
}

/// The variants a form offers: the ones that are not `$UNKNOWN`-style placeholders, or every
/// one of them when nothing else is left.
pub open spec fn offered_spec(vs: Seq<Seq<char>>) -> Seq<Seq<char>> {
    if plain_values(vs).len() == 0 { vs } else { plain_values(vs) }
}

/// Whether `s` starts with `$`.
fn is_substitution(s: &str) -> (r: bool)
    ensures
        r == starts_dollar(s@),
{
    let cs = chars_of(s);
    cs.len() > 0 && cs[0] == '$'
}

/// The variants a form offers for an enum: the placeholders an enum answers *with* are dropped,
/// unless nothing else is left, because an empty cycle would be worse than a wrong one.
pub fn offered(values: &Vec<String>) -> (r: Vec<String>)
    ensures
        strings_view(r@) == offered_spec(strings_view(values@)),
{
    let ghost vv = strings_view(values@);
    let mut kept: Vec<String> = Vec::new();
    let mut i: usize = 0;
    while i < values.len()
        invariant
            i <= values@.len(),
            vv == strings_view(values@),
            strings_view(kept@) == plain_values(vv.subrange(0, i as int)),
        decreases values.len() - i,
    {
        let ghost before = strings_view(kept@);
        let drop = is_substitution(values[i].as_str());
        if !drop {
            kept.push(values[i].clone());
        }
        proof {
            let pre = vv.subrange(0, i as int + 1);
            assert(pre.drop_last() =~= vv.subrange(0, i as int));
            assert(pre.last() == values@[i as int]@);
            if drop {
                assert(strings_view(kept@) =~= before);
            } else {
                assert(strings_view(kept@) =~= before.push(values@[i as int]@));
            }
        }
        i = i + 1;
    }
    proof {
        assert(vv.subrange(0, vv.len() as int) =~= vv);
    }
    if kept.len() == 0 {
        copy_strings(values)
    } else {
        kept
    }
}

/// What an existing entity holds for the field `name`: the first pair that names it.
pub open spec fn lookup(current: Seq<(Seq<char>, Seq<char>)>, name: Seq<char>) -> Option<Seq<char>>
    decreases current.len(),
{
    if current.len() == 0 {
        None
    } else if current[0].0 == name {
        Some(current[0].1)
    } else {
        lookup(current.drop_first(), name)
    }
}

/// The view of a list of name and value pairs.
pub open spec fn pairs_view(v: Seq<(String, String)>) -> Seq<(Seq<char>, Seq<char>)> {
    v.map_values(|p: (String, String)| (p.0@, p.1@))
}

/// The visible fields, in order.
pub open spec fn visible(fields: Seq<FieldV>) -> Seq<FieldV>
    decreases fields.len(),
{
    if fields.len() == 0 {
        Seq::empty()
    } else {
        let rest = visible(fields.drop_last());
        if fields.last().hidden { rest } else { rest.push(fields.last()) }
    }
}

/// The views of a list of fields.
pub open spec fn fields_view(v: Seq<Field>) -> Seq<FieldV> {
    v.map_values(|f: Field| f@)
}

/// What a field opens with. A current value wins; then a curated value that is not a
/// substitution; an edit invents nothing past those; a blank form offers a JSON skeleton or an
/// enum's first variant.
pub open spec fn seed_value(editing: bool, now: Option<Seq<char>>, f: FieldV) -> Seq<char> {
    match now {
        Some(v) => v,
        None => if f.value matches Some(v) && !starts_dollar(v) {
            f.value->0
        } else if editing {
            Seq::empty()
        } else {
            match f.ty {
                FieldTypeV::Json(seed) => if f.value is None { seed } else { Seq::empty() },
                FieldTypeV::Enum(vs) => if offered_spec(vs).len() > 0 { offered_spec(vs)[0] } else { Seq::empty() },
                _ => Seq::empty(),
            }
        },
    }
}

/// Over an entity that already exists, a field the entity has no value for, and whose curated
/// value is absent or a substitution, opens empty: no JSON skeleton, no first enum variant -
/// nothing is invented that an update would send over the entity's real value.
pub proof fn an_edit_invents_nothing(f: FieldV)
    requires
        f.value is None || starts_dollar(f.value->0),
    ensures
        seed_value(true, None, f) == Seq::<char>::empty(),
{
}

/// What a field opens with, whichever form it is: the entity's current value when it has one,
/// else a curated value that is not a substitution, as written.
pub proof fn a_known_value_is_what_a_field_opens_with(editing: bool, now: Option<Seq<char>>, f: FieldV)
    ensures
        now matches Some(v) ==> seed_value(editing, now, f) == v,
        now is None && (f.value matches Some(v) && !starts_dollar(v)) ==> seed_value(editing, now, f) == f.value->0,
{
}

/// A field's line and cursor, as values.
pub open spec fn inputs_view(v: Seq<Input>) -> Seq<(Seq<char>, nat)> {
    v.map_values(|i: Input| (i.text(), i.pos()))
}

/// The action form.
pub struct Form {
    pub title: String,
    /// Visible fields only; hidden ones never appear and are filled from their `value`.
    pub fields: Vec<Field>,
    /// One line per visible field.
    pub values: Vec<Input>,
    pub selected: usize,
    pub error: Option<String>,
    /// `loading…` while a reference picker's list is in flight.
    pub loading: bool,
    /// Why the reference picker's list came back with nothing, when it failed rather than
    /// being empty.
    pub listing_error: Option<String>,
    /// The kinds this form has already asked for a one-shot list of.
    pub listed: Vec<String>,
    /// The reference picker over the selected field's kind, while it is open.
    pub picker: Option<RefPicker>,
}

impl Form {
    /// One line per field.
    pub open spec fn wf(&self) -> bool {
        self.values@.len() == self.fields@.len()
    }

    /// A blank form: every field starts at its seed.
    pub fn open(title: &str, fields: &Vec<Field>) -> (f: Form)
        ensures
            f.wf(),
            f.title@ == title@,
            fields_view(f.fields@) == visible(fields_view(fields@)),
            forall|i: int| 0 <= i < f.values@.len() ==> (#[trigger] f.values@[i]).text()
                == seed_value(false, None, fields_view(f.fields@)[i]),
            forall|i: int| 0 <= i < f.values@.len() ==> (#[trigger] f.values@[i]).pos() == f.values@[i].text().len(),
            f.selected == 0,
            f.error is None,
            !f.loading,
            f.listing_error is None,
            f.listed@.len() == 0,
            f.picker is None,
    {
        Form::over(title, fields, None)
    }

    /// The same form, over an entity that already exists: `current` is what it has. A current
    /// value wins over the field's own seed; a field the entity has no value for is left empty
    /// rather than given a shape nobody typed, unless this program curated its value.
    pub fn over(title: &str, fields: &Vec<Field>, current: Option<&Vec<(String, String)>>) -> (f: Form)
        ensures
            f.wf(),
            f.title@ == title@,
            fields_view(f.fields@) == visible(fields_view(fields@)),
            forall|i: int| 0 <= i < f.values@.len() ==> (#[trigger] f.values@[i]).text() == seed_value(
                current is Some,
                match current {
                    Some(c) => lookup(pairs_view(c@), fields_view(f.fields@)[i].name),
                    None => None,
                },
                fields_view(f.fields@)[i],
            ),
            forall|i: int| 0 <= i < f.values@.len() ==> (#[trigger] f.values@[i]).pos() == f.values@[i].text().len(),
            forall|i: int| 0 <= i < f.values@.len() && current is Some
                && (match current {
                    Some(c) => lookup(pairs_view(c@), fields_view(f.fields@)[i].name),
                    None => None,
                }) is None
                && (fields_view(f.fields@)[i].value is None || starts_dollar(fields_view(f.fields@)[i].value->0))
                ==> (#[trigger] f.values@[i]).text().len() == 0,
            f.selected == 0,
            f.error is None,
            !f.loading,
            f.listing_error is None,
            f.listed@.len() == 0,
            f.picker is None,
    {
        let editing = current.is_some();
        let ghost fv = fields_view(fields@);
        let mut shown: Vec<Field> = Vec::new();
        let mut values: Vec<Input> = Vec::new();
        let mut i: usize = 0;
        while i < fields.len()
            invariant
                i <= fields@.len(),
                fv == fields_view(fields@),
                editing == current is Some,
                fields_view(shown@) == visible(fv.subrange(0, i as int)),
                values@.len() == shown@.len(),
                forall|j: int| 0 <= j < values@.len() ==> (#[trigger] values@[j]).text() == seed_value(
                    editing,
                    match current {
                        Some(c) => lookup(pairs_view(c@), fields_view(shown@)[j].name),
                        None => None,
                    },
                    fields_view(shown@)[j],
                ),
                forall|j: int| 0 <= j < values@.len() ==> (#[trigger] values@[j]).pos() == values@[j].text().len(),
            decreases fields.len() - i,
        {
            let field = &fields[i];
            let ghost before = fields_view(shown@);
            if !field.hidden {
                let now = match current {
                    Some(c) => find_value(c, field.name.as_str()),
                    None => None,
                };
                let seed = seed_of(editing, now, field);
                values.push(Input::from_str(seed.as_str()));
                shown.push(field.duplicate());
                proof {
                    assert(fields_view(shown@) =~= before.push(fv[i as int]));
                }
            }
            proof {
                let pre = fv.subrange(0, i as int + 1);
                assert(pre.drop_last() =~= fv.subrange(0, i as int));
                assert(pre.last() == fv[i as int]);
                if field.hidden {
                    assert(fields_view(shown@) =~= before);
                }
            }
            i = i + 1;
        }
        proof {
            assert(fv.subrange(0, fv.len() as int) =~= fv);
        }
        Form {
            title: string_of(chars_of(title).as_slice()),
            fields: shown,
            values,
            selected: 0,
            error: None,
            loading: false,
            listing_error: None,
            listed: Vec::new(),
            picker: None,
        }
    }

    /// Whether a one-shot list for `kind` has already been started from this form; the first
    /// ask records it, so a second `enter` on the same reference walks no pages again.
    pub fn first_listing_of(&mut self, kind: &str) -> (r: bool)
        ensures
            r == !strings_view(old(self).listed@).contains(kind@),
            strings_view(final(self).listed@) == (if r { strings_view(old(self).listed@).push(kind@) } else { strings_view(old(self).listed@) }),
            final(self).fields == old(self).fields,
            final(self).values == old(self).values,
            final(self).selected == old(self).selected,
            final(self).title == old(self).title,
            final(self).error == old(self).error,
            final(self).loading == old(self).loading,
    {
        let ghost lv = strings_view(self.listed@);
        let mut i: usize = 0;
        while i < self.listed.len()
            invariant
                i <= self.listed@.len(),
                lv == strings_view(self.listed@),
                forall|j: int| 0 <= j < i ==> lv[j] != kind@,
            decreases self.listed.len() - i,
        {
            if str_eq(self.listed[i].as_str(), kind) {
                assert(lv[i as int] == kind@);
                return false;
            }
            i = i + 1;
        }
        let ghost before = strings_view(self.listed@);
        self.listed.push(string_of(chars_of(kind).as_slice()));
        proof {
            assert(strings_view(self.listed@) =~= before.push(kind@));
        }
        true
    }

    /// What the field `name` holds; empty when the form has no such field.
    pub fn value(&self, name: &str) -> (r: String)
        requires
            self.wf(),
        ensures
            r@ == (match first_field(fields_view(self.fields@), name@) {
                Some(i) => self.values@[i].text(),
                None => Seq::<char>::empty(),
            }),
    {
        let ghost fv = fields_view(self.fields@);
        let mut i: usize = 0;
        while i < self.fields.len()
            invariant
                i <= self.fields@.len(),
                fv == fields_view(self.fields@),
                self.values@.len() == self.fields@.len(),
                first_field(fv, name@) == first_field_from(fv, name@, i as int),
            decreases self.fields.len() - i,
        {
            if str_eq(self.fields[i].name.as_str(), name) {
                return self.values[i].as_str();
            }
            i = i + 1;
        }
        String::new()
    }

    /// Where the block goes on the selected field: the byte offset of its cursor, or `0` when
    /// no field is selected.
    pub fn cursor(&self) -> (r: usize)
        ensures
            self.selected < self.values@.len() ==> r == crate::text::min_nat(
                crate::text::utf8_bytes(self.values@[self.selected as int].text().subrange(0, self.values@[self.selected as int].pos() as int)),
                usize::MAX as nat,
            ),
            self.selected >= self.values@.len() ==> r == 0,
    {
        if self.selected < self.values.len() {
            self.values[self.selected].cursor()
        } else {
            0
        }
    }

    /// What the body is built from: each visible field's name and what it holds, in order.
    pub fn entered(&self) -> (r: Vec<(String, String)>)
        requires
            self.wf(),
        ensures
            r@.len() == self.fields@.len(),
            forall|i: int| 0 <= i < r@.len() ==> (#[trigger] r@[i]).0@ == self.fields@[i].name@
                && r@[i].1@ == self.values@[i].text(),
    {
        let mut r: Vec<(String, String)> = Vec::new();
        let mut i: usize = 0;
        while i < self.fields.len()
            invariant
                i <= self.fields@.len(),
                self.values@.len() == self.fields@.len(),
                r@.len() == i,
                forall|j: int| 0 <= j < i ==> (#[trigger] r@[j]).0@ == self.fields@[j].name@
                    && r@[j].1@ == self.values@[j].text(),
            decreases self.fields.len() - i,
        {
            r.push((self.fields[i].name.clone(), self.values[i].as_str()));
            i = i + 1;
        }
        r
    }

    /// Writes the chosen row of a reference picker into the selected field, and ends the
    /// wait for its list.
    pub fn set_selected_value(&mut self, value: String)
        ensures
            final(self).wf() == old(self).wf(),
            old(self).selected < old(self).values@.len() ==> inputs_view(final(self).values@)
                == inputs_view(old(self).values@).update(old(self).selected as int, (value@, value@.len())),
            old(self).selected >= old(self).values@.len() ==> final(self).values == old(self).values,
            !final(self).loading,
            final(self).fields == old(self).fields,
            final(self).selected == old(self).selected,
            final(self).error == old(self).error,
            final(self).listed == old(self).listed,
    {
        if self.selected < self.values.len() {
            let ghost before = inputs_view(self.values@);
            self.values.set(self.selected, Input::from_str(value.as_str()));
            proof {
                assert(inputs_view(self.values@) =~= before.update(self.selected as int, (value@, value@.len())));
            }
        }
        self.loading = false;
    }
}

/// The first field named `name` at or after `k`.
pub open spec fn first_field_from(fields: Seq<FieldV>, name: Seq<char>, k: int) -> Option<int>
    decreases fields.len() - k,
{
    if k < 0 || k >= fields.len() {
        None
    } else if fields[k].name == name {
        Some(k)
    } else {
        first_field_from(fields, name, k + 1)
    }
}

/// The first field named `name`.
pub open spec fn first_field(fields: Seq<FieldV>, name: Seq<char>) -> Option<int> {
    first_field_from(fields, name, 0)
}

/// What an existing entity holds for the field `name`.
pub fn find_value(current: &Vec<(String, String)>, name: &str) -> (r: Option<String>)
    ensures
        match r {
            Some(v) => lookup(pairs_view(current@), name@) == Some(v@),
            None => lookup(pairs_view(current@), name@) is None,
        },
{
    let ghost cv = pairs_view(current@);
    assert(cv.subrange(0, cv.len() as int) =~= cv);
    let mut i: usize = 0;
    while i < current.len()
        invariant
            i <= current@.len(),
            cv == pairs_view(current@),
            lookup(cv, name@) == lookup(cv.subrange(i as int, cv.len() as int), name@),
        decreases current.len() - i,
    {
        let ghost rest = cv.subrange(i as int, cv.len() as int);
        assert(rest[0] == cv[i as int]);
        assert(rest.drop_first() =~= cv.subrange(i as int + 1, cv.len() as int));
        if str_eq(current[i].0.as_str(), name) {
            return Some(current[i].1.clone());
        }
        i = i + 1;
    }
    None
}

/// What a visible field opens with.
fn seed_of(editing: bool, now: Option<String>, f: &Field) -> (r: String)
    ensures
        r@ == seed_value(editing, match now { Some(v) => Some(v@), None => None }, f@),
{
    if let Some(v) = now {
        return v;
    }
    if let Some(v) = &f.value {
        if !is_substitution(v.as_str()) {
            return v.clone();
        }
    }
    if editing {
        return String::new();
    }
    match &f.ty {
        FieldType::Json(seed) => if f.value.is_none() { seed.clone() } else { String::new() },
        FieldType::Enum(vs) => {
            let vals = offered(vs);
            if vals.len() > 0 {
                vals[0].clone()
            } else {
                String::new()
            }
        },
        _ => String::new(),
    }
}

/// One row of the kind a reference field names.
#[derive(Debug, Clone, PartialEq, Eq)]
pub struct Choice {
    pub ext_id: String,
    pub name: String,
}

/// A choice, as values.
pub struct ChoiceV {
    pub ext_id: Seq<char>,
    pub name: Seq<char>,
}

impl View for Choice {
    type V = ChoiceV;

    open spec fn view(&self) -> ChoiceV {
        ChoiceV { ext_id: self.ext_id@, name: self.name@ }
    }
}

/// The views of a list of choices.
pub open spec fn choices_view(v: Seq<Choice>) -> Seq<ChoiceV> {
    v.map_values(|c: Choice| c@)
}

/// What a key did in the reference picker, for the app to act on.
#[derive(Debug, Clone, PartialEq, Eq)]
pub enum Picked {
    Filtered,
    Moved,
    /// The extId of the chosen row: what the field is written with.
    Chose(String),
    Cancelled,
    Ignored,
}

/// The rows of the kind a reference field names. It opens on whatever is already known and is
/// refilled as a list lands.
pub struct RefPicker {
    /// The kind being listed.
    pub kind: KindRef,
    /// The field it was opened over, for the box's title.
    pub label: String,
    pub rows: Vec<Choice>,
    pub input: String,
    pub selected: usize,
    /// The rows the input matches; what the box shows and `selected` indexes.
    pub entries: Vec<Choice>,
}

/// Whether `c` is an ASCII digit.
pub open spec fn is_digit(c: char) -> bool {
    '0' <= c && c <= '9'
}

/// The first index of `v` in `vals`, if it is there.
pub open spec fn index_of(vals: Seq<Seq<char>>, v: Seq<char>, k: int) -> Option<int>
    decreases vals.len() - k,
{
    if k < 0 || k >= vals.len() {
        None
    } else if vals[k] == v {
        Some(k)
    } else {
        index_of(vals, v, k + 1)
    }
}

/// The variant an arrow cycles an enum to: the next one for `→`, the one before for `←`,
/// wrapping at either end, from the current one (or the first, when the field holds none of
/// them).
pub open spec fn cycled(vals: Seq<Seq<char>>, current: Seq<char>, right: bool) -> Seq<char> {
    let n = vals.len() as int;
    let at = match index_of(vals, current, 0) {
        Some(i) => i,
        None => 0,
    };
    let next = if right {
        if at + 1 == n { 0 } else { at + 1 }
    } else {
        if at == 0 { n - 1 } else { at - 1 }
    };
    vals[next]
}

/// The form is the same but for its lines and its error.
pub open spec fn same_frame(old: Form, new: Form) -> bool {
    &&& new.title == old.title
    &&& new.fields == old.fields
    &&& new.loading == old.loading
    &&& new.listing_error == old.listing_error
    &&& new.listed == old.listed
    &&& new.picker == old.picker
}

/// Nothing changed.
pub open spec fn unchanged(old: Form, new: Form) -> bool {
    &&& same_frame(old, new)
    &&& new.values == old.values
    &&& new.selected == old.selected
    &&& new.error == old.error
}

/// The selected line was replaced by `text`, with the cursor at its end, and the error cleared.
pub open spec fn replaced(old: Form, new: Form, text: Seq<char>) -> bool {
    &&& same_frame(old, new)
    &&& new.selected == old.selected
    &&& new.error is None
    &&& inputs_view(new.values@) == inputs_view(old.values@).update(old.selected as int, (text, text.len()))
}

/// What [`Form::key`] does: `old` and `new` are the form before and after, `r` what it returns.
pub open spec fn form_key_spec(old: Form, key: Key, new: Form, r: Event) -> bool {
    let sel = old.selected as int;
    let n = old.fields@.len() as int;
    if sel >= n {
        unchanged(old, new) && r == (match key {
            Key::Enter => Event::Submit,
            Key::Esc => Event::Cancelled,
            _ => Event::Ignored,
        })
    } else {
        let f = old.fields@[sel]@;
        let line = old.values@[sel];
        let t = line.text();
        let is_enum = f.ty is Enum;
        let is_bool = f.ty is Bool;
        let pick: Option<Seq<char>> = match f.ty {
            FieldTypeV::Reference(Some(kind)) => if (key == Key::Enter && t.len() == 0) || key == Key::Char(' ') {
                Some(kind)
            } else {
                None
            },
            _ => None,
        };
        if pick is Some {
            unchanged(old, new) && (r matches Event::Pick(k) && k@ == pick->0)
        } else if key == Key::Esc {
            unchanged(old, new) && r == Event::Cancelled
        } else if key == Key::Enter {
            unchanged(old, new) && r == Event::Submit
        } else if key == Key::Tab || key == Key::Down {
            &&& same_frame(old, new)
            &&& new.values == old.values
            &&& new.error == old.error
            &&& new.selected == (if sel + 1 < n - 1 { sel + 1 } else { n - 1 })
            &&& r == Event::Moved
        } else if key == Key::BackTab || key == Key::Up {
            &&& same_frame(old, new)
            &&& new.values == old.values
            &&& new.error == old.error
            &&& new.selected == (if sel > 0 { sel - 1 } else { 0 })
            &&& r == Event::Moved
        } else if (key == Key::Left || key == Key::Right) && is_enum {
            let vals = offered_spec(f.ty->Enum_0);
            if vals.len() == 0 {
                unchanged(old, new) && r == Event::Ignored
            } else {
                replaced(old, new, cycled(vals, t, key == Key::Right)) && r == Event::Edited
            }
        } else if key == Key::Char(' ') && is_bool {
            replaced(old, new, if t == "true"@ { "false"@ } else { "true"@ }) && r == Event::Edited
        } else if is_bool || is_enum {
            unchanged(old, new) && r == Event::Ignored
        } else if key matches Key::Char(c) && f.ty is Integer && !is_digit(c) {
            unchanged(old, new) && r == Event::Ignored
        } else {
            let (e, t2, p2) = key_edit(line, key);
            &&& same_frame(old, new)
            &&& new.selected == old.selected
            &&& inputs_view(new.values@) == inputs_view(old.values@).update(sel, (t2, p2))
            &&& match e {
                Some(Edit::Changed) => r == Event::Edited && new.error is None,
                Some(Edit::Moved) => r == Event::Moved && new.error == old.error,
                _ => r == Event::Ignored && new.error == old.error,
            }
        }
    }
}

impl Form {
    /// What one key does to the form. With no field to stand on, only `enter` and `esc` mean
    /// anything. On a reference, `enter` on an empty one and `space` ask for a picker. The
    /// arrows and tab move between fields; `←`/`→` cycle an enum and `space` ticks a
    /// checkbox, neither of which is typed into; an integer refuses a letter; everything else
    /// edits the line.
    pub fn key(&mut self, key: Key) -> (r: Event)
        requires
            old(self).wf(),
        ensures
            final(self).wf(),
            form_key_spec(*old(self), key, *final(self), r),
    {
        let n = self.fields.len();
        if self.selected >= n {
            return match key {
                Key::Enter => Event::Submit,
                Key::Esc => Event::Cancelled,
                _ => Event::Ignored,
            };
        }
        let sel = self.selected;
        let ghost f = self.fields@[sel as int]@;
        let ty = self.fields[sel].ty.duplicate();
        if let FieldType::Reference(Some(kind)) = &ty {
            if (key == Key::Enter && self.values[sel].is_empty()) || key == Key::Char(' ') {
                return Event::Pick(kind.clone());
            }
        }
        let is_enum = match &ty {
            FieldType::Enum(_) => true,
            _ => false,
        };
        let is_bool = match &ty {
            FieldType::Bool => true,
            _ => false,
        };
        let is_integer = match &ty {
            FieldType::Integer => true,
            _ => false,
        };
        if key == Key::Esc {
            return Event::Cancelled;
        }
        if key == Key::Enter {
            return Event::Submit;
        }
        if key == Key::Tab || key == Key::Down {
            let last = n - 1;
            self.selected = if sel + 1 < last { sel + 1 } else { last };
            return Event::Moved;
        }
        if key == Key::BackTab || key == Key::Up {
            self.selected = if sel > 0 { sel - 1 } else { 0 };
            return Event::Moved;
        }
        if (key == Key::Left || key == Key::Right) && is_enum {
            let all = match &ty {
                FieldType::Enum(all) => copy_strings(all),
                _ => Vec::new(),
            };
            let vals = offered(&all);
            if vals.len() == 0 {
                return Event::Ignored;
            }
            let now = self.values[sel].as_str();
            let at = position_of(&vals, now.as_str());
            let next = if key == Key::Right {
                if at + 1 == vals.len() { 0 } else { at + 1 }
            } else {
                if at == 0 { vals.len() - 1 } else { at - 1 }
            };
            let ghost before = inputs_view(self.values@);
            self.values.set(sel, Input::from_str(vals[next].as_str()));
            self.error = None;
            proof {
                assert(inputs_view(self.values@) =~= before.update(sel as int, (vals@[next as int]@, vals@[next as int]@.len())));
            }
            return Event::Edited;
        }
        if key == Key::Char(' ') && is_bool {
            let now = self.values[sel].as_str();
            let on = str_eq(now.as_str(), "true");
            let ghost before = inputs_view(self.values@);
            let word = if on { "false" } else { "true" };
            self.values.set(sel, Input::from_str(word));
            self.error = None;
            proof {
                assert(inputs_view(self.values@) =~= before.update(sel as int, (word@, word@.len())));
            }
            return Event::Edited;
        }
        if is_bool || is_enum {
            return Event::Ignored;
        }
        if let Key::Char(c) = key {
            if is_integer && !('0' <= c && c <= '9') {
                return Event::Ignored;
            }
        }
        let ghost old_line = self.values@[sel as int];
        let mut line = self.values[sel].duplicate();
        let ghost copy = line;
        let edit = line.key(key);
        let ghost before = inputs_view(self.values@);
        self.values.set(sel, line);
        proof {
            assert(key_edit(copy, key) == key_edit(old_line, key));
            assert(inputs_view(self.values@) =~= before.update(sel as int, (key_edit(old_line, key).1, key_edit(old_line, key).2)));
        }
        match edit {
            Some(Edit::Changed) => {
                self.error = None;
                Event::Edited
            },
            Some(Edit::Moved) => Event::Moved,
            _ => Event::Ignored,
        }
    }
}

/// Where `v` stands among `vals`, or `0` when it is not there.
fn position_of(vals: &Vec<String>, v: &str) -> (r: usize)
    ensures
        r == (match index_of(strings_view(vals@), v@, 0) {
            Some(i) => i,
            None => 0,
        }),
        vals@.len() > 0 ==> r < vals@.len(),
{
    let ghost vv = strings_view(vals@);
    let mut i: usize = 0;
    while i < vals.len()
        invariant
            i <= vals@.len(),
            vv == strings_view(vals@),
            index_of(vv, v@, 0) == index_of(vv, v@, i as int),
        decreases vals.len() - i,
    {
        if str_eq(vals[i].as_str(), v) {
            return i;
        }
        i = i + 1;
    }
    proof {
        lemma_index_of_past_end(vv, v@, i as int);
    }
    0
}

/// Past the end, there is nothing to find.
proof fn lemma_index_of_past_end(vals: Seq<Seq<char>>, v: Seq<char>, k: int)
    requires
        k >= vals.len(),
    ensures
        index_of(vals, v, k) is None,
{
}

/// Whether a row stays listed under the (already folded) `needle`.
pub open spec fn choice_matches(c: ChoiceV, needle: Seq<char>) -> bool {
    ||| needle.len() == 0
    ||| contains_spec(fold_seq(c.name), needle)
    ||| contains_spec(fold_seq(c.ext_id), needle)
}

/// The rows `needle` keeps, in their order.
pub open spec fn filtered_choices(rows: Seq<ChoiceV>, needle: Seq<char>) -> Seq<ChoiceV>
    decreases rows.len(),
{
    if rows.len() == 0 {
        Seq::empty()
    } else {
        let rest = filtered_choices(rows.drop_last(), needle);
        if choice_matches(rows.last(), needle) { rest.push(rows.last()) } else { rest }
    }
}

/// Where the cursor stands among `len` entries after it is pulled back onto them.
pub open spec fn clamp(selected: int, len: int) -> int {
    if len == 0 { 0 } else if selected < len - 1 { selected } else { len - 1 }
}

/// The input with its last character taken off, when it has one.
pub open spec fn backspaced(s: Seq<char>) -> Seq<char> {
    if s.len() == 0 { s } else { s.drop_last() }
}

impl Choice {
    /// A copy of this row.
    pub fn duplicate(&self) -> (r: Choice)
        ensures
            r@ == self@,
    {
        Choice { ext_id: self.ext_id.clone(), name: self.name.clone() }
    }
}

impl RefPicker {
    /// The entries are the rows the input keeps, and the cursor is on one, or at `0` when there
    /// is none.
    pub open spec fn wf(&self) -> bool {
        &&& choices_view(self.entries@) == filtered_choices(choices_view(self.rows@), fold_seq(self.input@))
        &&& self.selected == clamp(self.selected as int, self.entries@.len() as int)
    }

    /// The picker over `rows`, with nothing typed.
    pub fn open(kind: KindRef, label: &str, rows: Vec<Choice>) -> (p: RefPicker)
        ensures
            p.wf(),
            p.kind == kind,
            p.label@ == label@,
            p.rows == rows,
            p.input@.len() == 0,
            p.selected == 0,
            choices_view(p.entries@) == choices_view(rows@),
    {
        let mut picker = RefPicker {
            kind,
            label: string_of(chars_of(label).as_slice()),
            rows,
            input: String::new(),
            selected: 0,
            entries: Vec::new(),
        };
        picker.refresh();
        proof {
            lemma_filtered_choices_empty(choices_view(picker.rows@), fold_seq(picker.input@));
        }
        picker
    }

    /// The rows a later list brought, keeping the filter and framing the selection.
    pub fn set_rows(&mut self, rows: Vec<Choice>)
        ensures
            final(self).wf(),
            final(self).rows == rows,
            final(self).input == old(self).input,
            final(self).kind == old(self).kind,
            final(self).label == old(self).label,
            final(self).selected == clamp(old(self).selected as int, final(self).entries@.len() as int),
    {
        self.rows = rows;
        self.refresh();
    }

    /// Recomputes the entries from the rows and the input, and pulls the cursor back onto them.
    fn refresh(&mut self)
        ensures
            final(self).wf(),
            final(self).kind == old(self).kind,
            final(self).label == old(self).label,
            final(self).rows == old(self).rows,
            final(self).input == old(self).input,
            final(self).selected == clamp(old(self).selected as int, final(self).entries@.len() as int),
    {
        let typed = chars_of(self.input.as_str());
        let needle = fold_chars(typed.as_slice());
        let ghost rv = choices_view(self.rows@);
        let mut entries: Vec<Choice> = Vec::new();
        let mut i: usize = 0;
        while i < self.rows.len()
            invariant
                i <= self.rows@.len(),
                rv == choices_view(self.rows@),
                needle@ == fold_seq(self.input@),
                choices_view(entries@) == filtered_choices(rv.subrange(0, i as int), needle@),
            decreases self.rows.len() - i,
        {
            let row = &self.rows[i];
            let keep = if needle.len() == 0 {
                true
            } else {
                let name = chars_of(row.name.as_str());
                let name = fold_chars(name.as_slice());
                if contains_chars(name.as_slice(), needle.as_slice()) {
                    true
                } else {
                    let id = chars_of(row.ext_id.as_str());
                    let id = fold_chars(id.as_slice());
                    contains_chars(id.as_slice(), needle.as_slice())
                }
            };
            let ghost before = choices_view(entries@);
            if keep {
                entries.push(row.duplicate());
            }
            proof {
                let pre = rv.subrange(0, i as int + 1);
                assert(pre.drop_last() =~= rv.subrange(0, i as int));
                assert(pre.last() == rv[i as int]);
                if keep {
                    assert(choices_view(entries@) =~= before.push(rv[i as int]));
                } else {
                    assert(choices_view(entries@) =~= before);
                }
            }
            i = i + 1;
        }
        proof {
            assert(rv.subrange(0, rv.len() as int) =~= rv);
        }
        self.entries = entries;
        let last = if self.entries.len() == 0 { 0 } else { self.entries.len() - 1 };
        if self.selected > last {
            self.selected = last;
        }
    }

    /// What one key does to the picker. Typing narrows and puts the cursor back on top; `esc`
    /// cancels; the arrows move within the entries; `enter` chooses the extId under the cursor,
    /// and does nothing when the filter left none.
    pub fn key(&mut self, key: Key) -> (r: Picked)
        requires
            old(self).wf(),
        ensures
            final(self).wf(),
            final(self).rows == old(self).rows,
            final(self).kind == old(self).kind,
            final(self).label == old(self).label,
            ref_key_spec(*old(self), key, *final(self), r),
    {
        match key {
            Key::Esc => Picked::Cancelled,
            Key::Char(c) => {
                push_char(&mut self.input, c);
                self.selected = 0;
                self.refresh();
                Picked::Filtered
            },
            Key::Backspace => {
                let typed = chars_of(self.input.as_str());
                if typed.len() > 0 {
                    let kept = slice_chars(typed.as_slice(), 0, typed.len() - 1);
                    self.input = string_of(kept.as_slice());
                }
                self.selected = 0;
                self.refresh();
                Picked::Filtered
            },
            Key::Down | Key::Tab => {
                let last = if self.entries.len() == 0 { 0 } else { self.entries.len() - 1 };
                self.selected = if self.selected + 1 < last { self.selected + 1 } else { last };
                Picked::Moved
            },
            Key::Up | Key::BackTab => {
                self.selected = if self.selected > 0 { self.selected - 1 } else { 0 };
                Picked::Moved
            },
            Key::Enter => if self.selected < self.entries.len() {
                Picked::Chose(self.entries[self.selected].ext_id.clone())
            } else {
                Picked::Ignored
            },
            _ => Picked::Ignored,
        }
    }

    /// The `rows` entries to draw and the index the first of them has, framing the selection.
    pub fn window(&self, rows: usize) -> (r: (usize, &[Choice]))
        requires
            self.wf(),
        ensures
            rows == 0 ==> r.0 == 0 && r.1@.len() == 0,
            rows > 0 ==> {
                let offset = window_offset(self.selected as int, rows as int);
                let end = if offset + rows < self.entries@.len() { offset + rows } else { self.entries@.len() as int };
                &&& r.0 == offset
                &&& r.1@ == self.entries@.subrange(if offset < end { offset } else { end }, end)
            },
    {
        let n = self.entries.len();
        assert(self.selected <= n);
        window(self.entries.as_slice(), self.selected, rows)
    }
}

/// What [`RefPicker::key`] does: `old` and `new` are the picker before and after, `r` what it
/// returns.
pub open spec fn ref_key_spec(old: RefPicker, key: Key, new: RefPicker, r: Picked) -> bool {
    let len = old.entries@.len() as int;
    let same = new.input@ == old.input@ && choices_view(new.entries@) == choices_view(old.entries@);
    match key {
        Key::Esc => r == Picked::Cancelled && same && new.selected == old.selected,
        Key::Char(c) => r == Picked::Filtered && new.input@ == old.input@.push(c) && new.selected == 0,
        Key::Backspace => r == Picked::Filtered && new.input@ == backspaced(old.input@) && new.selected == 0,
        Key::Down | Key::Tab => r == Picked::Moved && same && new.selected == clamp(old.selected + 1, len),
        Key::Up | Key::BackTab => r == Picked::Moved && same
            && new.selected == (if old.selected > 0 { old.selected - 1 } else { 0 }),
        Key::Enter => same && new.selected == old.selected && if old.selected < len {
            r matches Picked::Chose(id) && id@ == old.entries@[old.selected as int].ext_id@
        } else {
            r == Picked::Ignored
        },
        _ => r == Picked::Ignored && same && new.selected == old.selected,
    }
}

/// With nothing typed, every row is listed.
pub proof fn lemma_filtered_choices_empty(rows: Seq<ChoiceV>, needle: Seq<char>)
    requires
        needle.len() == 0,
    ensures
        filtered_choices(rows, needle) == rows,
    decreases rows.len(),
{
    if rows.len() > 0 {
        lemma_filtered_choices_empty(rows.drop_last(), needle);
        assert(rows.drop_last().push(rows.last()) =~= rows);
    }
}

} // verus!

