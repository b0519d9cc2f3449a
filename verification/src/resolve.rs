//! What a term typed on the command line opens - a page, a kind, or an error that names the
//! nearest kinds - and what a configured `[nav] hide` entry names in the catalog.
//!
//! The catalog's own ranked lookup is not part of this library: the caller hands over the kind
//! it ranked first for the term, and the decisions around it are made here.

use vstd::prelude::*;
use crate::ascii::{concat, contains_ci, contains_ci_spec, eq_ci, eq_ignore_case, str_eq};
use crate::catalog::{nav_view, KindRef, KindV, NavGroupV, PageRef, PageV};
use crate::ranking::{kind_by_id, kind_from, kinds_of, page_by_id, page_from, pages_of, Catalog};

verus! {

/// Where a launch opens.
#[derive(Debug, Clone, PartialEq, Eq)]
pub enum Home {
    Page(PageRef),
    Kind(KindRef),
}

/// Where a launch opens, as values.
pub enum HomeV {
    Page(PageV),
    Kind(KindV),
}

impl View for Home {
    type V = HomeV;

    open spec fn view(&self) -> HomeV {
        match self {
            Home::Page(p) => HomeV::Page(p@),
            Home::Kind(k) => HomeV::Kind(k@),
        }
    }
}

/// How `{:?}` spells a string: quoted, with the characters Rust source would escape escaped.
pub uninterp spec fn debug_str(s: Seq<char>) -> Seq<char>;

/// `format!("{:?}", s)`.
#[verifier::external_body]
fn debug_quoted(s: &str) -> (r: String)
    ensures
        r@ == debug_str(s@),
{
    format!("{:?}", s)
}

/// Whether a kind is near a term: the term is in its id or in its display name, case aside.
pub open spec fn near(k: KindV, term: Seq<char>) -> bool {
    contains_ci_spec(k.id, term) || contains_ci_spec(k.display, term)
}

/// The ids of the first `n` kinds that are near `term`, in catalog order.
pub open spec fn near_ids(kinds: Seq<KindV>, term: Seq<char>, n: int) -> Seq<Seq<char>>
    decreases n,
{
    if n <= 0 {
        Seq::empty()
    } else {
        let rest = near_ids(kinds, term, n - 1);
        if near(kinds[n - 1], term) { rest.push(kinds[n - 1].id) } else { rest }
    }
}

/// At most the first five of `s`.
pub open spec fn first_five(s: Seq<Seq<char>>) -> Seq<Seq<char>> {
    if s.len() > 5 { s.subrange(0, 5) } else { s }
}

/// The parts with `sep` between each two.
pub open spec fn joined_with(parts: Seq<Seq<char>>, sep: Seq<char>) -> Seq<char>
    decreases parts.len(),
{
    if parts.len() == 0 {
        Seq::empty()
    } else if parts.len() == 1 {
        parts[0]
    } else {
        joined_with(parts.drop_last(), sep) + sep + parts.last()
    }
}

/// What a term nothing matched is told: `unknown kind "x"`, and the nearest kind ids - the first
/// five the term is part of - when there are any.
pub open spec fn unknown_spec(kinds: Seq<KindV>, term: Seq<char>, what: Seq<char>) -> Seq<char> {
    let near = first_five(near_ids(kinds, term, kinds.len() as int));
    let head = "unknown "@ + what + " "@ + debug_str(term);
    if near.len() == 0 {
        head
    } else {
        head + "; did you mean "@ + joined_with(near, ", "@) + "?"@
    }
}

/// What a term nothing matched deserves: the nearest kind ids, when there are any. A page is
/// never a candidate here: [`resolve_home`] accepts any page name the term is part of, so a term
/// that reached this point is not part of one.
pub fn unknown(catalog: &Catalog, term: &str, what: &str) -> (r: String)
    ensures
        r@ == unknown_spec(kinds_of(*catalog), term@, what@),
{
    let ghost kinds = kinds_of(*catalog);
    let mut picked: Vec<String> = Vec::new();
    let mut i: usize = 0;
    while i < catalog.kinds.len()
        invariant
            i <= catalog.kinds@.len(),
            kinds == kinds_of(*catalog),
            crate::catalog::strings_view(picked@) == first_five(near_ids(kinds, term@, i as int)),
        decreases catalog.kinds.len() - i,
    {
        let ghost before = near_ids(kinds, term@, i as int);
        let k = &catalog.kinds[i];
        assert(kinds[i as int] == k@);
        let is_near = contains_ci(k.id.as_str(), term) || contains_ci(k.display.as_str(), term);
        if is_near && picked.len() < 5 {
            picked.push(k.id.clone());
        }
        proof {
            let after = near_ids(kinds, term@, i as int + 1);
            if is_near {
                assert(after == before.push(k@.id));
                if before.len() < 5 {
                    assert(first_five(after) =~= first_five(before).push(k@.id));
                    assert(crate::catalog::strings_view(picked@) =~= first_five(before).push(k@.id));
                } else {
                    assert(first_five(after) =~= first_five(before));
                }
            } else {
                assert(after == before);
            }
        }
        i = i + 1;
    }
    let quoted = debug_quoted(term);
    let head = concat("unknown ", what);
    let head = concat(head.as_str(), " ");
    let head = concat(head.as_str(), quoted.as_str());
    proof {
        reveal_strlit("unknown ");
        reveal_strlit(" ");
    }
    if picked.len() == 0 {
        return head;
    }
    let ghost pv = crate::catalog::strings_view(picked@);
    let mut list = picked[0].clone();
    let mut j: usize = 1;
    while j < picked.len()
        invariant
            1 <= j <= picked@.len(),
            pv == crate::catalog::strings_view(picked@),
            list@ == joined_with(pv.subrange(0, j as int), ", "@),
        decreases picked.len() - j,
    {
        let with_comma = concat(list.as_str(), ", ");
        list = concat(with_comma.as_str(), picked[j].as_str());
        proof {
            reveal_strlit(", ");
            let pre = pv.subrange(0, j as int + 1);
            assert(pre.drop_last() =~= pv.subrange(0, j as int));
            assert(pre.last() == pv[j as int]);
        }
        j = j + 1;
    }
    proof {
        assert(pv.subrange(0, pv.len() as int) =~= pv);
        if pv.len() == 1 {
            assert(pv.subrange(0, 1) =~= seq![pv[0]]);
        }
        reveal_strlit("; did you mean ");
        reveal_strlit("?");
    }
    let out = concat(head.as_str(), "; did you mean ");
    let out = concat(out.as_str(), list.as_str());
    concat(out.as_str(), "?")
}

/// `best`, the kind the catalog's lookup ranked first for `term`, or the error that names the
/// nearest candidates when it ranked none.
pub fn resolve_kind(catalog: &Catalog, term: &str, best: Option<&KindRef>) -> (r: Result<KindRef, String>)
    ensures
        match best {
            Some(k) => r matches Ok(x) && x@ == k@,
            None => r matches Err(e) && e@ == unknown_spec(kinds_of(*catalog), term@, "kind"@),
        },
{
    match best {
        Some(k) => Ok(k.duplicate()),
        None => Err(unknown(catalog, term, "kind")),
    }
}

/// Whether a page answers to `term`: by its id or its title, whole (`exact`) or in part, case
/// aside.
pub open spec fn page_hit(p: PageV, term: Seq<char>, exact: bool) -> bool {
    if exact {
        eq_ci(p.id, term) || eq_ci(p.title, term)
    } else {
        contains_ci_spec(p.id, term) || contains_ci_spec(p.title, term)
    }
}

/// The index of the first page from `k` on that answers to `term`.
pub open spec fn first_page(pages: Seq<PageV>, term: Seq<char>, exact: bool, k: int) -> Option<int>
    decreases pages.len() - k,
{
    if k < 0 || k >= pages.len() {
        None
    } else if page_hit(pages[k], term, exact) {
        Some(k)
    } else {
        first_page(pages, term, exact, k + 1)
    }
}

/// Where `term` opens: a page it names; else the kind the lookup ranked first; else a page it
/// is part of; else the error naming the nearest kinds.
pub open spec fn home_spec(pages: Seq<PageV>, kinds: Seq<KindV>, term: Seq<char>, best: Option<KindV>) -> Result<HomeV, Seq<char>> {
    match first_page(pages, term, true, 0) {
        Some(i) => Ok(HomeV::Page(pages[i])),
        None => match best {
            Some(k) => Ok(HomeV::Kind(k)),
            None => match (if term.len() > 0 { first_page(pages, term, false, 0) } else { None }) {
                Some(i) => Ok(HomeV::Page(pages[i])),
                None => Err(unknown_spec(kinds, term, "kind or page"@)),
            },
        },
    }
}

/// The first page from `k` on that answers is one that answers; when none from `k` on does,
/// there is none.
proof fn lemma_first_page(pages: Seq<PageV>, term: Seq<char>, exact: bool, k: int)
    requires
        0 <= k,
    ensures
        first_page(pages, term, exact, k) matches Some(i) ==> k <= i < pages.len() && page_hit(pages[i], term, exact),
        (forall|i: int| k <= i < pages.len() ==> !#[trigger] page_hit(pages[i], term, exact))
            ==> first_page(pages, term, exact, k) is None,
        (exists|i: int| k <= i < pages.len() && #[trigger] page_hit(pages[i], term, exact))
            ==> first_page(pages, term, exact, k) is Some,
    decreases pages.len() - k,
{
    if k < pages.len() {
        lemma_first_page(pages, term, exact, k + 1);
        if exists|i: int| k <= i < pages.len() && #[trigger] page_hit(pages[i], term, exact) {
            let i = choose|i: int| k <= i < pages.len() && #[trigger] page_hit(pages[i], term, exact);
            if i > k {
                assert(k + 1 <= i);
            }
        }
    }
}

/// When no page's id or title is the term, case aside, the kind the lookup ranked first is where
/// the term opens - whatever pages the term is part of.
pub proof fn the_ranked_kind_beats_a_page_named_in_part(pages: Seq<PageV>, kinds: Seq<KindV>, term: Seq<char>, k: KindV)
    requires
        forall|i: int| 0 <= i < pages.len() ==> !eq_ci(#[trigger] pages[i].id, term) && !eq_ci(pages[i].title, term),
    ensures
        home_spec(pages, kinds, term, Some(k)) == Ok::<HomeV, Seq<char>>(HomeV::Kind(k)),
{
    assert forall|i: int| 0 <= i < pages.len() implies !#[trigger] page_hit(pages[i], term, true) by {
        assert(!eq_ci(pages[i].id, term));
    }
    lemma_first_page(pages, term, true, 0);
}

/// A page whose id or title is the term, case aside, is where the term opens, whatever kind the
/// lookup ranked first: it opens a page so named.
pub proof fn a_page_named_in_full_wins(pages: Seq<PageV>, kinds: Seq<KindV>, term: Seq<char>, best: Option<KindV>, i: int)
    requires
        0 <= i < pages.len(),
        eq_ci(pages[i].id, term) || eq_ci(pages[i].title, term),
    ensures
        home_spec(pages, kinds, term, best) matches Ok(HomeV::Page(p)) && (eq_ci(p.id, term) || eq_ci(p.title, term)),
{
    assert(page_hit(pages[i], term, true));
    lemma_first_page(pages, term, true, 0);
}

/// With no page named in full and no kind ranked, a page the term is part of is where it
/// opens, when there is one.
pub proof fn a_page_named_in_part_comes_last(pages: Seq<PageV>, kinds: Seq<KindV>, term: Seq<char>, i: int)
    requires
        term.len() > 0,
        forall|j: int| 0 <= j < pages.len() ==> !eq_ci(#[trigger] pages[j].id, term) && !eq_ci(pages[j].title, term),
        0 <= i < pages.len(),
        contains_ci_spec(pages[i].id, term) || contains_ci_spec(pages[i].title, term),
    ensures
        home_spec(pages, kinds, term, None) matches Ok(HomeV::Page(p))
            && (contains_ci_spec(p.id, term) || contains_ci_spec(p.title, term)),
{
    assert forall|j: int| 0 <= j < pages.len() implies !#[trigger] page_hit(pages[j], term, true) by {
        assert(!eq_ci(pages[j].id, term));
    }
    assert(page_hit(pages[i], term, false));
    lemma_first_page(pages, term, true, 0);
    lemma_first_page(pages, term, false, 0);
}

/// The first page that answers to `term`.
fn find_page(catalog: &Catalog, term: &str, exact: bool) -> (r: Option<usize>)
    ensures
        r matches Some(i) ==> i < catalog.pages@.len(),
        (match r {
            Some(i) => Some(i as int),
            None => None,
        }) == first_page(pages_of(*catalog), term@, exact, 0),
{
    let ghost pv = pages_of(*catalog);
    let mut i: usize = 0;
    while i < catalog.pages.len()
        invariant
            i <= catalog.pages@.len(),
            pv == pages_of(*catalog),
            first_page(pv, term@, exact, 0) == first_page(pv, term@, exact, i as int),
        decreases catalog.pages.len() - i,
    {
        let p = &catalog.pages[i];
        assert(pv[i as int] == p@);
        let hit = if exact {
            eq_ignore_case(p.id.as_str(), term) || eq_ignore_case(p.title.as_str(), term)
        } else {
            contains_ci(p.id.as_str(), term) || contains_ci(p.title.as_str(), term)
        };
        if hit {
            return Some(i);
        }
        i = i + 1;
    }
    None
}

/// Where a launch on `term` opens: a page whose id or title is the term, `best` - the kind the
/// catalog's lookup ranked first - when there is one, a page the term is part of, or the error
/// that lists the nearest kinds. A page's own name is tried first: a user who types a page's
/// name means the page.
pub fn resolve_home(catalog: &Catalog, term: &str, best: Option<&KindRef>) -> (r: Result<Home, String>)
    ensures
        match (r, home_spec(pages_of(*catalog), kinds_of(*catalog), term@, match best {
            Some(k) => Some(k@),
            None => None,
        })) {
            (Ok(h), Ok(v)) => h@ == v,
            (Err(e), Err(v)) => e@ == v,
            _ => false,
        },
{
    if let Some(i) = find_page(catalog, term, true) {
        return Ok(Home::Page(catalog.pages[i].duplicate()));
    }
    if let Some(k) = best {
        return Ok(Home::Kind(k.duplicate()));
    }
    if term.unicode_len() > 0 {
        if let Some(i) = find_page(catalog, term, false) {
            return Ok(Home::Page(catalog.pages[i].duplicate()));
        }
    }
    proof {
        reveal_strlit("kind or page");
    }
    Err(unknown(catalog, term, "kind or page"))
}

/// The index of the first group from `k` on named `entry`: exactly, or case aside.
pub open spec fn first_group(groups: Seq<NavGroupV>, entry: Seq<char>, exact: bool, k: int) -> Option<int>
    decreases groups.len() - k,
{
    if k < 0 || k >= groups.len() {
        None
    } else if (if exact { groups[k].name == entry } else { eq_ci(groups[k].name, entry) }) {
        Some(k)
    } else {
        first_group(groups, entry, exact, k + 1)
    }
}

/// What a configured `[nav] hide` entry names: a kind id or a page id matched exactly, else a
/// group's name matched exactly, else one matched case aside; nothing for an entry that names
/// nothing.
pub open spec fn nav_id_spec(kinds: Seq<KindV>, pages: Seq<PageV>, groups: Seq<NavGroupV>, entry: Seq<char>) -> Option<Seq<char>> {
    if kind_by_id(kinds, entry) is Some || page_by_id(pages, entry) is Some {
        Some(entry)
    } else {
        match first_group(groups, entry, true, 0) {
            Some(g) => Some(groups[g].name),
            None => match first_group(groups, entry, false, 0) {
                Some(g) => Some(groups[g].name),
                None => None,
            },
        }
    }
}

/// A configured `[nav] hide` entry resolved to the catalog's own name for it. A group name is
/// matched exactly first and loosely only as a fallback: the curated `Monitoring` stands beside
/// the generated `monitoring`, and whichever came first must not shadow the other. An entry
/// that names nothing is ignored here; `:hide` is where a typo is reported.
pub fn nav_id(catalog: &Catalog, entry: &str) -> (r: Option<String>)
    ensures
        crate::catalog::opt_view(r) == nav_id_spec(kinds_of(*catalog), pages_of(*catalog), nav_view(catalog.nav@), entry@),
{
    let ghost kinds = kinds_of(*catalog);
    let ghost pages = pages_of(*catalog);
    let ghost groups = nav_view(catalog.nav@);
    let mut i: usize = 0;
    while i < catalog.kinds.len()
        invariant
            i <= catalog.kinds@.len(),
            kinds == kinds_of(*catalog),
            kind_from(kinds, entry@, 0) == kind_from(kinds, entry@, i as int),
        decreases catalog.kinds.len() - i,
    {
        assert(kinds[i as int] == catalog.kinds@[i as int]@);
        if str_eq(catalog.kinds[i].id.as_str(), entry) {
            return Some(catalog.kinds[i].id.clone());
        }
        i = i + 1;
    }
    let mut i: usize = 0;
    while i < catalog.pages.len()
        invariant
            i <= catalog.pages@.len(),
            pages == pages_of(*catalog),
            kinds == kinds_of(*catalog),
            kind_by_id(kinds, entry@) is None,
            page_from(pages, entry@, 0) == page_from(pages, entry@, i as int),
        decreases catalog.pages.len() - i,
    {
        assert(pages[i as int] == catalog.pages@[i as int]@);
        if str_eq(catalog.pages[i].id.as_str(), entry) {
            return Some(catalog.pages[i].id.clone());
        }
        i = i + 1;
    }
    let mut g: usize = 0;
    while g < catalog.nav.len()
        invariant
            g <= catalog.nav@.len(),
            groups == nav_view(catalog.nav@),
            kinds == kinds_of(*catalog),
            pages == pages_of(*catalog),
            kind_by_id(kinds, entry@) is None,
            page_by_id(pages, entry@) is None,
            first_group(groups, entry@, true, 0) == first_group(groups, entry@, true, g as int),
        decreases catalog.nav.len() - g,
    {
        assert(groups[g as int].name == catalog.nav@[g as int].name@);
        if str_eq(catalog.nav[g].name.as_str(), entry) {
            return Some(catalog.nav[g].name.clone());
        }
        g = g + 1;
    }
    let mut g: usize = 0;
    while g < catalog.nav.len()
        invariant
            g <= catalog.nav@.len(),
            groups == nav_view(catalog.nav@),
            kinds == kinds_of(*catalog),
            pages == pages_of(*catalog),
            kind_by_id(kinds, entry@) is None,
            page_by_id(pages, entry@) is None,
            first_group(groups, entry@, true, 0) is None,
            first_group(groups, entry@, false, 0) == first_group(groups, entry@, false, g as int),
        decreases catalog.nav.len() - g,
    {
        assert(groups[g as int].name == catalog.nav@[g as int].name@);
        if eq_ignore_case(catalog.nav[g].name.as_str(), entry) {
            return Some(catalog.nav[g].name.clone());
        }
        g = g + 1;
    }
    None
}

} // verus!
