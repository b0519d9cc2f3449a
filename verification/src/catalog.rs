//! What the screens read of the catalog of kinds, pages and menu items, as plain values. The
//! application fills these in from the catalog it was built with; the screens only rank,
//! filter and point at them.

use vstd::prelude::*;

verus! {

/// How a kind can be reached from a bare prompt.
#[derive(Debug, Clone, Copy, PartialEq, Eq, Structural)]
pub enum Reach {
    /// Listed on its own.
    Direct,
    /// Listed only under a row of its parent kind.
    FromParent,
    /// Needs a query parameter that nothing here can supply.
    NeedsParameter,
}

/// One kind of the catalog, as the palette and the picker read it.
#[derive(Debug, Clone, PartialEq, Eq)]
pub struct KindRef {
    /// The kind's id, `namespace.module.Name`.
    pub id: String,
    /// The kind's display name, `Virtual Machines`.
    pub display: String,
    /// Other names the kind answers to.
    pub aliases: Vec<String>,
    /// Whether the kind's aliases were chosen by hand.
    pub curated: bool,
    /// How it is reached.
    pub reach: Reach,
    /// Why it cannot be opened from a bare prompt, when it cannot: the catalog's own reason.
    pub note: Option<String>,
}

/// A kind, as values.
pub struct KindV {
    pub id: Seq<char>,
    pub display: Seq<char>,
    pub aliases: Seq<Seq<char>>,
    pub curated: bool,
    pub reach: Reach,
    pub note: Option<Seq<char>>,
}

/// The view of a list of strings.
pub open spec fn strings_view(v: Seq<String>) -> Seq<Seq<char>> {
    v.map_values(|s: String| s@)
}

/// The view of an optional string.
pub open spec fn opt_view(o: Option<String>) -> Option<Seq<char>> {
    match o {
        Some(s) => Some(s@),
        None => None,
    }
}

impl View for KindRef {
    type V = KindV;

    open spec fn view(&self) -> KindV {
        KindV {
            id: self.id@,
            display: self.display@,
            aliases: strings_view(self.aliases@),
            curated: self.curated,
            reach: self.reach,
            note: opt_view(self.note),
        }
    }
}

/// A copy of a list of strings.
pub fn copy_strings(v: &Vec<String>) -> (r: Vec<String>)
    ensures
        strings_view(r@) == strings_view(v@),
{
    let mut r: Vec<String> = Vec::new();
    let mut i: usize = 0;
    while i < v.len()
        invariant
            i <= v.len(),
            strings_view(r@) == strings_view(v@.subrange(0, i as int)),
        decreases v.len() - i,
    {
        r.push(v[i].clone());
        proof {
            assert(strings_view(v@.subrange(0, i + 1)) =~= strings_view(v@.subrange(0, i as int)).push(v@[i as int]@));
            assert(strings_view(r@) =~= strings_view(v@.subrange(0, i + 1)));
        }
        i = i + 1;
    }
    proof {
        assert(v@.subrange(0, v.len() as int) =~= v@);
    }
    r
}

/// A copy of an optional string.
pub fn copy_opt(o: &Option<String>) -> (r: Option<String>)
    ensures
        opt_view(r) == opt_view(*o),
{
    match o {
        Some(s) => Some(s.clone()),
        None => None,
    }
}

impl KindRef {
    /// A copy of this kind.
    pub fn duplicate(&self) -> (r: KindRef)
        ensures
            r@ == self@,
    {
        KindRef {
            id: self.id.clone(),
            display: self.display.clone(),
            aliases: copy_strings(&self.aliases),
            curated: self.curated,
            reach: self.reach,
            note: copy_opt(&self.note),
        }
    }
}

/// A feature page of the catalog: `Disaster Recovery`, the Dashboard.
#[derive(Debug, Clone, PartialEq, Eq)]
pub struct PageRef {
    pub id: String,
    pub title: String,
}

/// A page, as values.
pub struct PageV {
    pub id: Seq<char>,
    pub title: Seq<char>,
}

impl View for PageRef {
    type V = PageV;

    open spec fn view(&self) -> PageV {
        PageV { id: self.id@, title: self.title@ }
    }
}

impl PageRef {
    /// A copy of this page.
    pub fn duplicate(&self) -> (r: PageRef)
        ensures
            r@ == self@,
    {
        PageRef { id: self.id.clone(), title: self.title.clone() }
    }
}

/// What a menu item opens.
#[derive(Debug, Clone, PartialEq, Eq)]
pub enum NavTarget {
    Kind(String),
    Page(String),
    Contexts,
    Settings,
    /// Nothing: the item names something the API does not have, and says so in its note.
    Missing,
}

/// A target, as values.
pub enum NavTargetV {
    Kind(Seq<char>),
    Page(Seq<char>),
    Contexts,
    Settings,
    Missing,
}

impl View for NavTarget {
    type V = NavTargetV;

    open spec fn view(&self) -> NavTargetV {
        match self {
            NavTarget::Kind(id) => NavTargetV::Kind(id@),
            NavTarget::Page(id) => NavTargetV::Page(id@),
            NavTarget::Contexts => NavTargetV::Contexts,
            NavTarget::Settings => NavTargetV::Settings,
            NavTarget::Missing => NavTargetV::Missing,
        }
    }
}

impl NavTarget {
    /// A copy of this target.
    pub fn duplicate(&self) -> (r: NavTarget)
        ensures
            r@ == self@,
    {
        match self {
            NavTarget::Kind(id) => NavTarget::Kind(id.clone()),
            NavTarget::Page(id) => NavTarget::Page(id.clone()),
            NavTarget::Contexts => NavTarget::Contexts,
            NavTarget::Settings => NavTarget::Settings,
            NavTarget::Missing => NavTarget::Missing,
        }
    }

    /// Whether two targets name the same thing.
    pub fn same(&self, other: &NavTarget) -> (r: bool)
        ensures
            r == (self@ == other@),
    {
        match (self, other) {
            (NavTarget::Kind(a), NavTarget::Kind(b)) => crate::ascii::str_eq(a.as_str(), b.as_str()),
            (NavTarget::Page(a), NavTarget::Page(b)) => crate::ascii::str_eq(a.as_str(), b.as_str()),
            (NavTarget::Contexts, NavTarget::Contexts) => true,
            (NavTarget::Settings, NavTarget::Settings) => true,
            (NavTarget::Missing, NavTarget::Missing) => true,
            _ => false,
        }
    }
}

/// One item of the menu.
#[derive(Debug, Clone, PartialEq, Eq)]
pub struct NavItem {
    pub label: String,
    pub target: NavTarget,
    /// Why the item opens nothing, when it opens nothing.
    pub note: Option<String>,
}

/// A menu item, as values.
pub struct NavItemV {
    pub label: Seq<char>,
    pub target: NavTargetV,
    pub note: Option<Seq<char>>,
}

impl View for NavItem {
    type V = NavItemV;

    open spec fn view(&self) -> NavItemV {
        NavItemV { label: self.label@, target: self.target@, note: opt_view(self.note) }
    }
}

impl NavItem {
    /// A copy of this item.
    pub fn duplicate(&self) -> (r: NavItem)
        ensures
            r@ == self@,
    {
        NavItem {
            label: self.label.clone(),
            target: self.target.duplicate(),
            note: copy_opt(&self.note),
        }
    }
}

/// One group of the menu: a curated feature area, or a namespace of the API.
#[derive(Debug, Clone, PartialEq, Eq)]
pub struct NavGroup {
    pub name: String,
    pub items: Vec<NavItem>,
}

/// A menu group, as values.
pub struct NavGroupV {
    pub name: Seq<char>,
    pub items: Seq<NavItemV>,
}

/// The views of a list of menu items.
pub open spec fn items_view(v: Seq<NavItem>) -> Seq<NavItemV> {
    v.map_values(|i: NavItem| i@)
}

impl View for NavGroup {
    type V = NavGroupV;

    open spec fn view(&self) -> NavGroupV {
        NavGroupV { name: self.name@, items: items_view(self.items@) }
    }
}

/// The views of a list of menu groups.
pub open spec fn nav_view(v: Seq<NavGroup>) -> Seq<NavGroupV> {
    v.map_values(|g: NavGroup| g@)
}

/// What a form field holds.
#[derive(Debug, Clone, PartialEq, Eq)]
pub enum FieldType {
    /// A checkbox: `true` or `false`.
    Bool,
    /// Digits only.
    Integer,
    /// One of the listed variants.
    Enum(Vec<String>),
    /// A JSON document, with the skeleton a blank form starts from.
    Json(String),
    /// The extId of a row of the named kind, chosen from a list of them.
    Reference(Option<String>),
    /// Anything.
    Text,
}

/// A field type, as values.
pub enum FieldTypeV {
    Bool,
    Integer,
    Enum(Seq<Seq<char>>),
    Json(Seq<char>),
    Reference(Option<Seq<char>>),
    Text,
}

impl View for FieldType {
    type V = FieldTypeV;

    open spec fn view(&self) -> FieldTypeV {
        match self {
            FieldType::Bool => FieldTypeV::Bool,
            FieldType::Integer => FieldTypeV::Integer,
            FieldType::Enum(vs) => FieldTypeV::Enum(strings_view(vs@)),
            FieldType::Json(seed) => FieldTypeV::Json(seed@),
            FieldType::Reference(kind) => FieldTypeV::Reference(opt_view(*kind)),
            FieldType::Text => FieldTypeV::Text,
        }
    }
}

impl FieldType {
    /// A copy of this type.
    pub fn duplicate(&self) -> (r: FieldType)
        ensures
            r@ == self@,
    {
        match self {
            FieldType::Bool => FieldType::Bool,
            FieldType::Integer => FieldType::Integer,
            FieldType::Enum(vs) => FieldType::Enum(copy_strings(vs)),
            FieldType::Json(seed) => FieldType::Json(seed.clone()),
            FieldType::Reference(kind) => FieldType::Reference(copy_opt(kind)),
            FieldType::Text => FieldType::Text,
        }
    }
}

/// One field of an action's form.
#[derive(Debug, Clone, PartialEq, Eq)]
pub struct Field {
    /// The name the body knows it by.
    pub name: String,
    /// What the form prints beside it.
    pub label: String,
    pub ty: FieldType,
    pub required: bool,
    /// What the field must carry, when this program decides it; a value starting with `$` is a
    /// substitution made at submit.
    pub value: Option<String>,
    /// Never shown: filled from `value`.
    pub hidden: bool,
}

/// A field, as values.
pub struct FieldV {
    pub name: Seq<char>,
    pub label: Seq<char>,
    pub ty: FieldTypeV,
    pub required: bool,
    pub value: Option<Seq<char>>,
    pub hidden: bool,
}

impl View for Field {
    type V = FieldV;

    open spec fn view(&self) -> FieldV {
        FieldV {
            name: self.name@,
            label: self.label@,
            ty: self.ty@,
            required: self.required,
            value: opt_view(self.value),
            hidden: self.hidden,
        }
    }
}

impl Field {
    /// A copy of this field.
    pub fn duplicate(&self) -> (r: Field)
        ensures
            r@ == self@,
    {
        Field {
            name: self.name.clone(),
            label: self.label.clone(),
            ty: self.ty.duplicate(),
            required: self.required,
            value: copy_opt(&self.value),
            hidden: self.hidden,
        }
    }
}

} // verus!

