//! What the palette offers for the word under the cursor: the fixed set an argument position
//! draws on, or - at the head - commands, kinds, pages and menu items merged into one ranked
//! list.

use vstd::prelude::*;
use crate::ascii::{chars_of, contains_ci, contains_ci_spec, starts_ci, starts_ci_spec, str_eq, string_of};
use crate::catalog::{
    copy_opt, nav_view, opt_view, strings_view, KindRef, KindV, NavGroup, NavGroupV, NavItem, NavItemV, NavTarget,
    NavTargetV, PageRef, PageV,
};
use crate::palette::{completing_spec, head_command_spec, head_spec, slot_count, slots_spec, Palette, commands_spec, entries_view, label_spec, lex_le, lex_le_exec, nav_rank_spec, Command, Entry, EntryV, Slot, Tag, COMMANDS, ROUTE_CATALOG};
use crate::catalog::Reach;
use crate::ascii::eq_ci;

verus! {

/// The catalog the palette ranks against, as plain values: every kind, every feature page, the
/// menu's groups, and the built-in skins with the aliases they answer to.
pub struct Catalog {
    pub kinds: Vec<KindRef>,
    pub pages: Vec<PageRef>,
    pub nav: Vec<NavGroup>,
    /// The skins' canonical names.
    pub skins: Vec<String>,
    /// `(alias, canonical name)`.
    pub skin_aliases: Vec<(String, String)>,
}

/// Everything the palette ranks against that the app holds: the catalog, and what the session
/// and the configuration add to it.
pub struct Vocabulary {
    pub catalog: Catalog,
    /// The session's reason for each kind id this Prism Central does not serve.
    pub unavailable: Vec<(String, String)>,
    /// What `:ctx ` completes from: the rows the Contexts screen shows.
    pub contexts: Vec<String>,
    /// The action names of the table under the palette.
    pub actions: Vec<String>,
    /// What `:show ` completes from: the `[nav] hide` list as it stands.
    pub hidden: Vec<String>,
}

impl Vocabulary {
    /// Nothing unavailable, no actions, nothing hidden, and the context names given.
    pub fn of(catalog: Catalog, contexts: Vec<String>) -> (v: Vocabulary)
        ensures
            v.catalog == catalog,
            v.contexts == contexts,
            v.unavailable@.len() == 0,
            v.actions@.len() == 0,
            v.hidden@.len() == 0,
    {
        Vocabulary { catalog, unavailable: Vec::new(), contexts, actions: Vec::new(), hidden: Vec::new() }
    }

    /// `of(catalog, [])`: the whole catalog, nothing refused, no names.
    pub fn empty(catalog: Catalog) -> (v: Vocabulary)
        ensures
            v.catalog == catalog,
            v.contexts@.len() == 0,
            v.unavailable@.len() == 0,
            v.actions@.len() == 0,
            v.hidden@.len() == 0,
    {
        Vocabulary::of(catalog, Vec::new())
    }
}

/// A completed argument: the text and what it is.
pub open spec fn value_row(text: Seq<char>, tag: Tag) -> EntryV {
    EntryV::Value { text, tag }
}

/// The members of a set that contain `typed`, ASCII case set aside, in order.
pub open spec fn values_spec(all: Seq<Seq<char>>, typed: Seq<char>, tag: Tag) -> Seq<EntryV>
    decreases all.len(),
{
    if all.len() == 0 {
        Seq::empty()
    } else {
        let rest = values_spec(all.drop_last(), typed, tag);
        if contains_ci_spec(all.last(), typed) { rest.push(value_row(all.last(), tag)) } else { rest }
    }
}

/// The members of `all` that contain what was typed, case-insensitively.
pub fn values(all: &Vec<String>, typed: &str, tag: Tag) -> (r: Vec<Entry>)
    ensures
        entries_view(r@) == values_spec(strings_view(all@), typed@, tag),
{
    let ghost av = strings_view(all@);
    let mut out: Vec<Entry> = Vec::new();
    let mut i: usize = 0;
    while i < all.len()
        invariant
            i <= all@.len(),
            av == strings_view(all@),
            entries_view(out@) == values_spec(av.subrange(0, i as int), typed@, tag),
        decreases all.len() - i,
    {
        let ghost before = entries_view(out@);
        let keep = contains_ci(all[i].as_str(), typed);
        if keep {
            out.push(Entry::Value { text: all[i].clone(), tag });
        }
        proof {
            let pre = av.subrange(0, i as int + 1);
            assert(pre.drop_last() =~= av.subrange(0, i as int));
            assert(pre.last() == av[i as int]);
            if keep {
                assert(entries_view(out@) =~= before.push(value_row(av[i as int], tag)));
            } else {
                assert(entries_view(out@) =~= before);
            }
        }
        i = i + 1;
    }
    proof {
        assert(av.subrange(0, av.len() as int) =~= av);
    }
    out
}

/// Whether some alias of the skin `name` contains `typed`.
pub open spec fn alias_matches(aliases: Seq<(Seq<char>, Seq<char>)>, name: Seq<char>, typed: Seq<char>) -> bool {
    exists|i: int| 0 <= i < aliases.len() && aliases[i].1 == name && contains_ci_spec(#[trigger] aliases[i].0, typed)
}

/// The built-in skins whose canonical name or one of whose aliases contains what was typed,
/// offered under the canonical name.
pub open spec fn skins_spec(names: Seq<Seq<char>>, aliases: Seq<(Seq<char>, Seq<char>)>, typed: Seq<char>) -> Seq<EntryV>
    decreases names.len(),
{
    if names.len() == 0 {
        Seq::empty()
    } else {
        let rest = skins_spec(names.drop_last(), aliases, typed);
        let n = names.last();
        if contains_ci_spec(n, typed) || alias_matches(aliases, n, typed) {
            rest.push(value_row(n, Tag::Skin))
        } else {
            rest
        }
    }
}

/// Whether an alias of `name` contains `typed`.
fn alias_hit(aliases: &Vec<(String, String)>, name: &str, typed: &str) -> (r: bool)
    ensures
        r == alias_matches(crate::form::pairs_view(aliases@), name@, typed@),
{
    let ghost pv = crate::form::pairs_view(aliases@);
    let mut i: usize = 0;
    while i < aliases.len()
        invariant
            i <= aliases@.len(),
            pv == crate::form::pairs_view(aliases@),
            forall|k: int| 0 <= k < i ==> !(pv[k].1 == name@ && contains_ci_spec(#[trigger] pv[k].0, typed@)),
        decreases aliases.len() - i,
    {
        assert(pv[i as int] == (aliases@[i as int].0@, aliases@[i as int].1@));
        if str_eq(aliases[i].1.as_str(), name) && contains_ci(aliases[i].0.as_str(), typed) {
            assert(pv[i as int].1 == name@ && contains_ci_spec(pv[i as int].0, typed@));
            return true;
        }
        i = i + 1;
    }
    false
}

/// The skins that answer to what was typed.
pub fn skins(catalog: &Catalog, typed: &str) -> (r: Vec<Entry>)
    ensures
        entries_view(r@) == skins_spec(strings_view(catalog.skins@), crate::form::pairs_view(catalog.skin_aliases@), typed@),
{
    let ghost nv = strings_view(catalog.skins@);
    let ghost av = crate::form::pairs_view(catalog.skin_aliases@);
    let mut out: Vec<Entry> = Vec::new();
    let mut i: usize = 0;
    while i < catalog.skins.len()
        invariant
            i <= catalog.skins@.len(),
            nv == strings_view(catalog.skins@),
            av == crate::form::pairs_view(catalog.skin_aliases@),
            entries_view(out@) == skins_spec(nv.subrange(0, i as int), av, typed@),
        decreases catalog.skins.len() - i,
    {
        let name = &catalog.skins[i];
        let ghost before = entries_view(out@);
        let keep = contains_ci(name.as_str(), typed) || alias_hit(&catalog.skin_aliases, name.as_str(), typed);
        if keep {
            out.push(Entry::Value { text: name.clone(), tag: Tag::Skin });
        }
        proof {
            let pre = nv.subrange(0, i as int + 1);
            assert(pre.drop_last() =~= nv.subrange(0, i as int));
            assert(pre.last() == nv[i as int]);
            if keep {
                assert(entries_view(out@) =~= before.push(value_row(nv[i as int], Tag::Skin)));
            } else {
                assert(entries_view(out@) =~= before);
            }
        }
        i = i + 1;
    }
    proof {
        assert(nv.subrange(0, nv.len() as int) =~= nv);
    }
    out
}

/// The rungs of the refresh ladder, spelled as everywhere else, that start with what was typed.
/// A prefix, not a substring: a substring would read `0` out of `10s`.
pub open spec fn intervals_spec(typed: Seq<char>, n: int) -> Seq<EntryV>
    decreases n,
{
    if n <= 0 {
        Seq::empty()
    } else {
        let rest = intervals_spec(typed, n - 1);
        let shown = crate::ladder::show_spec(crate::ladder::ladder_spec()[n - 1]);
        if starts_ci_spec(shown, typed) { rest.push(value_row(shown, Tag::Interval)) } else { rest }
    }
}

/// What the first `n` rungs offer: only rungs, each as an interval value that starts with
/// what was typed, and every one of the first `n` that does.
proof fn lemma_intervals_prefix(typed: Seq<char>, n: int)
    requires
        0 <= n <= 7,
    ensures
        forall|k: int| 0 <= k < intervals_spec(typed, n).len() ==> {
            let e = #[trigger] intervals_spec(typed, n)[k];
            &&& e matches EntryV::Value { text, tag } && tag == Tag::Interval && starts_ci_spec(text, typed)
            &&& exists|i: int| 0 <= i < n && e == EntryV::Value { text: crate::ladder::show_spec(crate::ladder::ladder_spec()[i]), tag: Tag::Interval }
        },
        forall|i: int| 0 <= i < n && starts_ci_spec(crate::ladder::show_spec(crate::ladder::ladder_spec()[i]), typed) ==>
            intervals_spec(typed, n).contains(EntryV::Value { text: crate::ladder::show_spec(crate::ladder::ladder_spec()[i]), tag: Tag::Interval }),
    decreases n,
{
    if n > 0 {
        lemma_intervals_prefix(typed, n - 1);
        let rest = intervals_spec(typed, n - 1);
        let shown = crate::ladder::show_spec(crate::ladder::ladder_spec()[n - 1]);
        let cur = intervals_spec(typed, n);
        if starts_ci_spec(shown, typed) {
            assert(cur == rest.push(value_row(shown, Tag::Interval)));
            assert forall|k: int| 0 <= k < cur.len() implies {
                let e = #[trigger] cur[k];
                &&& e matches EntryV::Value { text, tag } && tag == Tag::Interval && starts_ci_spec(text, typed)
                &&& exists|i: int| 0 <= i < n && e == EntryV::Value { text: crate::ladder::show_spec(crate::ladder::ladder_spec()[i]), tag: Tag::Interval }
            } by {
                if k < rest.len() {
                    assert(cur[k] == rest[k]);
                } else {
                    assert(cur[k] == EntryV::Value { text: crate::ladder::show_spec(crate::ladder::ladder_spec()[n - 1]), tag: Tag::Interval });
                }
            }
            assert forall|i: int| 0 <= i < n && starts_ci_spec(crate::ladder::show_spec(crate::ladder::ladder_spec()[i]), typed) implies
                cur.contains(EntryV::Value { text: crate::ladder::show_spec(crate::ladder::ladder_spec()[i]), tag: Tag::Interval }) by {
                let x = EntryV::Value { text: crate::ladder::show_spec(crate::ladder::ladder_spec()[i]), tag: Tag::Interval };
                if i < n - 1 {
                    let w = choose|w: int| 0 <= w < rest.len() && rest[w] == x;
                    assert(cur[w] == x);
                } else {
                    assert(cur[rest.len() as int] == x);
                }
            }
        } else {
            assert(cur == rest);
        }
    }
}

/// The rows `:refresh` offers for a typed word: each is a rung of the ladder whose text starts
/// with the word, ASCII case aside - a digit inside a rung offers nothing - and every rung that
/// starts with it is offered.
pub proof fn intervals_offer_the_rungs_the_word_starts(typed: Seq<char>)
    ensures
        forall|k: int| 0 <= k < intervals_spec(typed, 7).len() ==> {
            let e = #[trigger] intervals_spec(typed, 7)[k];
            &&& e matches EntryV::Value { text, tag } && tag == Tag::Interval && starts_ci_spec(text, typed)
            &&& exists|i: int| 0 <= i < 7 && e == EntryV::Value { text: crate::ladder::show_spec(crate::ladder::ladder_spec()[i]), tag: Tag::Interval }
        },
        forall|i: int| 0 <= i < 7 && starts_ci_spec(crate::ladder::show_spec(crate::ladder::ladder_spec()[i]), typed) ==>
            intervals_spec(typed, 7).contains(EntryV::Value { text: crate::ladder::show_spec(crate::ladder::ladder_spec()[i]), tag: Tag::Interval }),
{
    lemma_intervals_prefix(typed, 7);
}

/// The rungs that start with what was typed.
pub fn intervals(typed: &str) -> (r: Vec<Entry>)
    ensures
        entries_view(r@) == intervals_spec(typed@, 7),
        forall|k: int| 0 <= k < r@.len() ==> ((#[trigger] entries_view(r@)[k]) matches EntryV::Value { text, tag }
            && tag == Tag::Interval && starts_ci_spec(text, typed@)),
{
    proof {
        lemma_intervals_prefix(typed@, 7);
    }
    let rungs = crate::ladder::ladder();
    let mut out: Vec<Entry> = Vec::new();
    let mut i: usize = 0;
    while i < 7
        invariant
            i <= 7,
            rungs@ == crate::ladder::ladder_spec(),
            entries_view(out@) == intervals_spec(typed@, i as int),
        decreases 7 - i,
    {
        let shown = crate::ladder::show(rungs[i]);
        let ghost before = entries_view(out@);
        let keep = starts_ci(shown.as_str(), typed);
        if keep {
            out.push(Entry::Value { text: shown, tag: Tag::Interval });
        }
        proof {
            if keep {
                assert(entries_view(out@) =~= before.push(value_row(crate::ladder::show_spec(crate::ladder::ladder_spec()[i as int]), Tag::Interval)));
            } else {
                assert(entries_view(out@) =~= before);
            }
        }
        i = i + 1;
    }
    out
}

/// The log levels, least to most verbose.
pub open spec fn levels_list() -> Seq<Seq<char>> {
    seq!["off"@, "error"@, "warn"@, "info"@, "debug"@, "trace"@]
}

/// The log levels that start with what was typed; a prefix, for the reason the rungs are
/// matched on one.
pub open spec fn levels_spec(typed: Seq<char>) -> Seq<EntryV> {
    values_prefix(levels_list(), typed, Tag::Level)
}

/// The members of `all` that start with `typed`, ASCII case set aside, in order.
pub open spec fn values_prefix(all: Seq<Seq<char>>, typed: Seq<char>, tag: Tag) -> Seq<EntryV>
    decreases all.len(),
{
    if all.len() == 0 {
        Seq::empty()
    } else {
        let rest = values_prefix(all.drop_last(), typed, tag);
        if starts_ci_spec(all.last(), typed) { rest.push(value_row(all.last(), tag)) } else { rest }
    }
}

/// The log levels that start with what was typed.
pub fn levels(typed: &str) -> (r: Vec<Entry>)
    ensures
        entries_view(r@) == levels_spec(typed@),
{
    let mut words: Vec<String> = Vec::new();
    words.push("off".to_string());
    words.push("error".to_string());
    words.push("warn".to_string());
    words.push("info".to_string());
    words.push("debug".to_string());
    words.push("trace".to_string());
    let ghost wv = strings_view(words@);
    proof {
        assert(wv =~= levels_list());
    }
    let mut out: Vec<Entry> = Vec::new();
    let mut i: usize = 0;
    while i < words.len()
        invariant
            i <= words@.len(),
            wv == strings_view(words@),
            entries_view(out@) == values_prefix(wv.subrange(0, i as int), typed@, Tag::Level),
        decreases words.len() - i,
    {
        let ghost before = entries_view(out@);
        let keep = starts_ci(words[i].as_str(), typed);
        if keep {
            out.push(Entry::Value { text: words[i].clone(), tag: Tag::Level });
        }
        proof {
            let pre = wv.subrange(0, i as int + 1);
            assert(pre.drop_last() =~= wv.subrange(0, i as int));
            assert(pre.last() == wv[i as int]);
            if keep {
                assert(entries_view(out@) =~= before.push(value_row(wv[i as int], Tag::Level)));
            } else {
                assert(entries_view(out@) =~= before);
            }
        }
        i = i + 1;
    }
    proof {
        assert(wv.subrange(0, wv.len() as int) =~= wv);
    }
    out
}

/// What `:hide` can name from one group's items: the kind or page behind each, with its label.
/// Neither screen item is ever hidden, and a missing item has nothing behind it.
pub open spec fn item_cands(items: Seq<NavItemV>) -> Seq<(Seq<char>, Seq<char>)>
    decreases items.len(),
{
    if items.len() == 0 {
        Seq::empty()
    } else {
        let rest = item_cands(items.drop_last());
        let it = items.last();
        match it.target {
            NavTargetV::Kind(id) => rest.push((id, it.label)),
            NavTargetV::Page(id) => rest.push((id, it.label)),
            _ => rest,
        }
    }
}

/// What `:hide` can name from one group: the group itself, then its items' targets.
pub open spec fn group_cands(g: NavGroupV) -> Seq<(Seq<char>, Seq<char>)> {
    seq![(g.name, g.name)] + item_cands(g.items)
}

/// What `:hide` can name from the first `n` groups, in the order the menu draws them.
pub open spec fn all_cands(groups: Seq<NavGroupV>, n: int) -> Seq<(Seq<char>, Seq<char>)>
    decreases n,
{
    if n <= 0 {
        Seq::empty()
    } else {
        all_cands(groups, n - 1) + group_cands(groups[n - 1])
    }
}

/// The Dashboard's two names, which cannot be hidden.
pub open spec fn is_protected(id: Seq<char>) -> bool {
    id == crate::sidebar::DASHBOARD_GROUP@ || id == crate::sidebar::DASHBOARD_PAGE@
}

/// The first `n` candidates folded: the ids seen so far, and the rows offered. Each id is
/// offered once, where it is first met, when it or its label contains what was typed; the
/// Dashboard never.
pub open spec fn hide_fold(cands: Seq<(Seq<char>, Seq<char>)>, typed: Seq<char>, n: int) -> (Seq<Seq<char>>, Seq<EntryV>)
    decreases n,
{
    if n <= 0 {
        (Seq::empty(), Seq::empty())
    } else {
        let (seen, out) = hide_fold(cands, typed, n - 1);
        let (id, label) = cands[n - 1];
        if is_protected(id) || seen.contains(id) {
            (seen, out)
        } else if contains_ci_spec(id, typed) || contains_ci_spec(label, typed) {
            (seen.push(id), out.push(value_row(id, Tag::Nav { hide: true })))
        } else {
            (seen.push(id), out)
        }
    }
}

/// What `:hide` offers for what was typed.
pub open spec fn hideable_spec(groups: Seq<NavGroupV>, typed: Seq<char>) -> Seq<EntryV> {
    let c = all_cands(groups, groups.len() as int);
    hide_fold(c, typed, c.len() as int).1
}

/// What the fold offers is never the Dashboard, is a name it has seen, and is offered once.
proof fn lemma_hide_fold(cands: Seq<(Seq<char>, Seq<char>)>, typed: Seq<char>, n: int)
    ensures
        ({
            let (seen, out) = hide_fold(cands, typed, n);
            &&& forall|i: int| 0 <= i < out.len() ==> (#[trigger] out[i] matches EntryV::Value { text, .. }
                && !is_protected(text) && seen.contains(text))
            &&& forall|i: int, j: int| 0 <= i < j < out.len() ==> out[i] != out[j]
        }),
    decreases n,
{
    if n > 0 {
        lemma_hide_fold(cands, typed, n - 1);
        let (seen, out) = hide_fold(cands, typed, n - 1);
        let (id, label) = cands[n - 1];
        if !(is_protected(id) || seen.contains(id)) && (contains_ci_spec(id, typed) || contains_ci_spec(label, typed)) {
            let out2 = out.push(value_row(id, Tag::Nav { hide: true }));
            let seen2 = seen.push(id);
            assert forall|i: int| 0 <= i < out2.len() implies (#[trigger] out2[i] matches EntryV::Value { text, .. }
                && !is_protected(text) && seen2.contains(text)) by {
                if i < out.len() {
                    assert(out2[i] == out[i]);
                    let t = out[i]->Value_text;
                    let w = choose|w: int| 0 <= w < seen.len() && seen[w] == t;
                    assert(seen2[w] == t);
                } else {
                    assert(seen2[seen.len() as int] == id);
                }
            }
            assert forall|i: int, j: int| 0 <= i < j < out2.len() implies out2[i] != out2[j] by {
                if j == out.len() {
                    assert(out2[i] == out[i]);
                    assert(seen.contains(out[i]->Value_text));
                }
            }
        } else if !(is_protected(id) || seen.contains(id)) {
            let seen2 = seen.push(id);
            assert forall|i: int| 0 <= i < out.len() implies (#[trigger] out[i] matches EntryV::Value { text, .. }
                && !is_protected(text) && seen2.contains(text)) by {
                let t = out[i]->Value_text;
                let w = choose|w: int| 0 <= w < seen.len() && seen[w] == t;
                assert(seen2[w] == t);
            }
        }
    }
}

/// `:hide` never offers the Dashboard - the way back to a screen that works - and offers each
/// name once, however many menu items carry it.
pub proof fn lemma_hide_offers_each_name_once(groups: Seq<NavGroupV>, typed: Seq<char>)
    ensures
        forall|i: int| 0 <= i < hideable_spec(groups, typed).len() ==>
            (#[trigger] hideable_spec(groups, typed)[i] matches EntryV::Value { text, .. } && !is_protected(text)),
        forall|i: int, j: int| 0 <= i < j < hideable_spec(groups, typed).len() ==>
            hideable_spec(groups, typed)[i] != hideable_spec(groups, typed)[j],
{
    let c = all_cands(groups, groups.len() as int);
    lemma_hide_fold(c, typed, c.len() as int);
}

/// Every candidate `:hide` can name, in menu order.
fn hide_candidates(nav: &Vec<NavGroup>) -> (r: Vec<(String, String)>)
    ensures
        crate::form::pairs_view(r@) == all_cands(nav_view(nav@), nav@.len() as int),
{
    let ghost gv = nav_view(nav@);
    let mut out: Vec<(String, String)> = Vec::new();
    let mut g: usize = 0;
    while g < nav.len()
        invariant
            g <= nav@.len(),
            gv == nav_view(nav@),
            crate::form::pairs_view(out@) == all_cands(gv, g as int),
        decreases nav.len() - g,
    {
        let group = &nav[g];
        assert(gv[g as int] == group@);
        let ghost start = crate::form::pairs_view(out@);
        out.push((group.name.clone(), group.name.clone()));
        let ghost head = crate::form::pairs_view(out@);
        proof {
            assert(head =~= start + seq![(group.name@, group.name@)]);
        }
        let ghost iv = crate::catalog::items_view(group.items@);
        let mut i: usize = 0;
        while i < group.items.len()
            invariant
                i <= group.items@.len(),
                iv == crate::catalog::items_view(group.items@),
                crate::form::pairs_view(out@) == head + item_cands(iv.subrange(0, i as int)),
            decreases group.items.len() - i,
        {
            let it = &group.items[i];
            let ghost before = crate::form::pairs_view(out@);
            match &it.target {
                NavTarget::Kind(id) => {
                    out.push((id.clone(), it.label.clone()));
                },
                NavTarget::Page(id) => {
                    out.push((id.clone(), it.label.clone()));
                },
                _ => {},
            }
            proof {
                let pre = iv.subrange(0, i as int + 1);
                assert(pre.drop_last() =~= iv.subrange(0, i as int));
                assert(pre.last() == it@);
                match it@.target {
                    NavTargetV::Kind(id) => {
                        assert(crate::form::pairs_view(out@) =~= before.push((id, it@.label)));
                    },
                    NavTargetV::Page(id) => {
                        assert(crate::form::pairs_view(out@) =~= before.push((id, it@.label)));
                    },
                    _ => {
                        assert(crate::form::pairs_view(out@) =~= before);
                    },
                }
            }
            i = i + 1;
        }
        proof {
            assert(iv.subrange(0, iv.len() as int) =~= iv);
            assert(crate::form::pairs_view(out@) =~= start + group_cands(gv[g as int]));
        }
        g = g + 1;
    }
    out
}

/// Whether `id` is among `seen`.
fn seen_has(seen: &Vec<String>, id: &str) -> (r: bool)
    ensures
        r == strings_view(seen@).contains(id@),
{
    let ghost sv = strings_view(seen@);
    let mut i: usize = 0;
    while i < seen.len()
        invariant
            i <= seen@.len(),
            sv == strings_view(seen@),
            forall|k: int| 0 <= k < i ==> sv[k] != id@,
        decreases seen.len() - i,
    {
        if str_eq(seen[i].as_str(), id) {
            assert(sv[i as int] == id@);
            return true;
        }
        i = i + 1;
    }
    false
}

/// What `:hide` names: every group the menu draws, then the page or kind behind each of its
/// items, each offered once and in the order the menu draws them, matched on the id or on the
/// label beside it. The Dashboard is left out: it cannot be hidden.
pub fn hideable(catalog: &Catalog, typed: &str) -> (r: Vec<Entry>)
    ensures
        entries_view(r@) == hideable_spec(nav_view(catalog.nav@), typed@),
{
    let cands = hide_candidates(&catalog.nav);
    let ghost cv = crate::form::pairs_view(cands@);
    let mut seen: Vec<String> = Vec::new();
    let mut out: Vec<Entry> = Vec::new();
    let mut i: usize = 0;
    while i < cands.len()
        invariant
            i <= cands@.len(),
            cv == crate::form::pairs_view(cands@),
            (strings_view(seen@), entries_view(out@)) == hide_fold(cv, typed@, i as int),
        decreases cands.len() - i,
    {
        let id = &cands[i].0;
        let label = &cands[i].1;
        assert(cv[i as int] == (id@, label@));
        let ghost s0 = strings_view(seen@);
        let ghost o0 = entries_view(out@);
        if crate::sidebar::protected(id.as_str()) || seen_has(&seen, id.as_str()) {
            i = i + 1;
            continue;
        }
        seen.push(id.clone());
        proof {
            assert(strings_view(seen@) =~= s0.push(id@));
        }
        if contains_ci(id.as_str(), typed) || contains_ci(label.as_str(), typed) {
            out.push(Entry::Value { text: id.clone(), tag: Tag::Nav { hide: true } });
            proof {
                assert(entries_view(out@) =~= o0.push(value_row(id@, Tag::Nav { hide: true })));
            }
        }
        i = i + 1;
    }
    out
}

/// The rows a slot offers for the word being completed. `Actions` and `Kinds` offer nothing
/// yet: a word there completes nothing.
pub open spec fn vocabulary_spec(slot: Slot, word: Seq<char>, v: Vocabulary) -> Seq<EntryV> {
    match slot {
        Slot::Contexts => values_spec(strings_view(v.contexts@), word, Tag::Context),
        Slot::Skins => skins_spec(strings_view(v.catalog.skins@), crate::form::pairs_view(v.catalog.skin_aliases@), word),
        Slot::Hide => hideable_spec(nav_view(v.catalog.nav@), word),
        Slot::Show => values_spec(strings_view(v.hidden@), word, Tag::Nav { hide: false }),
        Slot::Intervals => intervals_spec(word, 7),
        Slot::Levels => levels_spec(word),
        Slot::Actions | Slot::Kinds => Seq::empty(),
    }
}

/// The rows a slot offers for the word being completed.
pub fn vocabulary(slot: Slot, word: &str, vocab: &Vocabulary) -> (r: Vec<Entry>)
    ensures
        entries_view(r@) == vocabulary_spec(slot, word@, *vocab),
{
    match slot {
        Slot::Contexts => values(&vocab.contexts, word, Tag::Context),
        Slot::Skins => skins(&vocab.catalog, word),
        Slot::Hide => hideable(&vocab.catalog, word),
        Slot::Show => values(&vocab.hidden, word, Tag::Nav { hide: false }),
        Slot::Intervals => intervals(word),
        Slot::Levels => levels(word),
        Slot::Actions | Slot::Kinds => {
            let r: Vec<Entry> = Vec::new();
            proof {
                assert(entries_view(r@) =~= Seq::<EntryV>::empty());
            }
            r
        },
    }
}

/// At most this many kinds are offered for the head: a cap on the merged list, applied after
/// the sort, so the cut is never visible.
pub const MAX_KINDS: usize = 30;
/// A command is a verb the user typed on purpose, so it leads its rank.
pub const CLASS_COMMAND: u8 = 0;
/// A kind.
pub const CLASS_KIND: u8 = 2;
/// A page, and a missing menu item, which `sink` has already set apart.
pub const CLASS_PAGE: u8 = 3;
/// A missing menu item sinks below a kind that needs a parameter.
pub const SINK_MISSING: u8 = 3;
/// A row with no declaration order to keep: every row that is not a command.
pub const SEQ_NONE: u16 = 65535;

/// A candidate row of the head's ranking, before the sort: what it sorts by, what it offers,
/// and where it stood among the candidates, which settles every tie the way a stable sort does.
pub struct Cand {
    pub rank: u8,
    pub sink: u8,
    pub class: u8,
    pub route: u8,
    pub seq: u16,
    pub key: String,
    pub entry: Entry,
    pub order: usize,
}

/// A candidate, as values.
pub struct CandV {
    pub rank: u8,
    pub sink: u8,
    pub class: u8,
    pub route: u8,
    pub seq: u16,
    pub key: Seq<char>,
    pub entry: EntryV,
    pub order: nat,
}

impl View for Cand {
    type V = CandV;

    open spec fn view(&self) -> CandV {
        CandV {
            rank: self.rank,
            sink: self.sink,
            class: self.class,
            route: self.route,
            seq: self.seq,
            key: self.key@,
            entry: self.entry@,
            order: self.order as nat,
        }
    }
}

/// The views of a list of candidates.
pub open spec fn cands_view(v: Seq<Cand>) -> Seq<CandV> {
    v.map_values(|c: Cand| c@)
}

/// The rank the catalog's lookup gives a kind for `word`: its id, one of its aliases (a
/// curated alias above a generated one), the start of its display name, or anywhere in its id;
/// `None` for a kind none of these matches.
pub open spec fn lookup_rank_spec(kind: KindV, word: Seq<char>) -> Option<u8> {
    if eq_ci(kind.id, word) {
        Some(0)
    } else if exists|i: int| 0 <= i < kind.aliases.len() && eq_ci(#[trigger] kind.aliases[i], word) {
        Some(if kind.curated { 1u8 } else { 2u8 })
    } else if starts_ci_spec(kind.display, word) {
        Some(3)
    } else if contains_ci_spec(kind.id, word) {
        Some(4)
    } else {
        None
    }
}

/// The rank the catalog's lookup gives this kind for `word`, or `None`.
pub fn lookup_rank(kind: &KindRef, word: &str) -> (r: Option<u8>)
    ensures
        r == lookup_rank_spec(kind@, word@),
{
    if crate::ascii::eq_ignore_case(kind.id.as_str(), word) {
        return Some(0);
    }
    let ghost av = strings_view(kind.aliases@);
    let mut i: usize = 0;
    while i < kind.aliases.len()
        invariant
            i <= kind.aliases@.len(),
            av == strings_view(kind.aliases@),
            !eq_ci(kind@.id, word@),
            forall|k: int| 0 <= k < i ==> !eq_ci(#[trigger] av[k], word@),
        decreases kind.aliases.len() - i,
    {
        if crate::ascii::eq_ignore_case(kind.aliases[i].as_str(), word) {
            assert(kind@.aliases == av);
            assert(eq_ci(kind@.aliases[i as int], word@));
            assert(exists|k: int| 0 <= k < kind@.aliases.len() && eq_ci(#[trigger] kind@.aliases[k], word@));
            let r: Option<u8> = if kind.curated { Some(1) } else { Some(2) };
            return r;
        }
        i = i + 1;
    }
    assert(kind@.aliases == av);
    if starts_ci(kind.display.as_str(), word) {
        return Some(3);
    }
    if contains_ci(kind.id.as_str(), word) {
        return Some(4);
    }
    None
}

/// How far a kind sinks: listed on its own, only under a parent, or needing a parameter.
pub open spec fn sink_of(reach: Reach) -> u8 {
    match reach {
        Reach::Direct => 0,
        Reach::FromParent => 1,
        Reach::NeedsParameter => 2,
    }
}

/// The first index from `k` where the command list holds `c`.
pub open spec fn command_from(c: Command, k: int) -> Option<int>
    decreases 17 - k,
{
    if k < 0 || k >= 17 {
        None
    } else if commands_spec()[k] == c {
        Some(k)
    } else {
        command_from(c, k + 1)
    }
}

/// Where a command stands in the command list.
pub open spec fn command_index(c: Command) -> u16 {
    match command_from(c, 0) {
        Some(i) => i as u16,
        None => SEQ_NONE,
    }
}

/// A kind's candidate row.
pub open spec fn kind_cand(kind: KindV, rank: u8, route: u8, order: nat) -> CandV {
    CandV {
        rank,
        sink: sink_of(kind.reach),
        class: CLASS_KIND,
        route,
        seq: SEQ_NONE,
        key: kind.id,
        entry: EntryV::Kind { kind, reason: None },
        order,
    }
}

/// A page's candidate row.
pub open spec fn page_cand(page: PageV, rank: u8, route: u8, order: nat) -> CandV {
    CandV { rank, sink: 0, class: CLASS_PAGE, route, seq: SEQ_NONE, key: page.id, entry: EntryV::Page(page), order }
}

/// A command's candidate row.
pub open spec fn command_cand(c: Command, rank: u8, route: u8, order: nat) -> CandV {
    CandV {
        rank,
        sink: 0,
        class: CLASS_COMMAND,
        route,
        seq: command_index(c),
        key: label_spec(c),
        entry: EntryV::Command(c),
        order,
    }
}

/// The commands offered for `word`: the one it spells at rank 0, the ones it starts (every
/// one, for an empty word) at rank 3.
pub open spec fn command_cands(word: Seq<char>, n: int) -> Seq<CandV>
    decreases n,
{
    if n <= 0 {
        Seq::empty()
    } else {
        let rest = command_cands(word, n - 1);
        let c = commands_spec()[n - 1];
        let label = label_spec(c);
        if eq_ci(label, word) {
            rest.push(command_cand(c, 0, ROUTE_CATALOG, rest.len()))
        } else if word.len() == 0 || starts_ci_spec(label, word) {
            rest.push(command_cand(c, 3, ROUTE_CATALOG, rest.len()))
        } else {
            rest
        }
    }
}

/// The kinds the lookup finds for `word`, each at its rank, numbered from `base`.
pub open spec fn kind_cands(kinds: Seq<KindV>, word: Seq<char>, base: nat, n: int) -> Seq<CandV>
    decreases n,
{
    if n <= 0 {
        Seq::empty()
    } else {
        let rest = kind_cands(kinds, word, base, n - 1);
        match lookup_rank_spec(kinds[n - 1], word) {
            Some(r) => rest.push(kind_cand(kinds[n - 1], r, ROUTE_CATALOG, base + rest.len())),
            None => rest,
        }
    }
}

/// The pages whose title or id starts with `word` (rank 3) or holds it (rank 4).
pub open spec fn page_cands(pages: Seq<PageV>, word: Seq<char>, base: nat, n: int) -> Seq<CandV>
    decreases n,
{
    if n <= 0 {
        Seq::empty()
    } else {
        let rest = page_cands(pages, word, base, n - 1);
        let p = pages[n - 1];
        if starts_ci_spec(p.title, word) || starts_ci_spec(p.id, word) {
            rest.push(page_cand(p, 3, ROUTE_CATALOG, base + rest.len()))
        } else if contains_ci_spec(p.title, word) || contains_ci_spec(p.id, word) {
            rest.push(page_cand(p, 4, ROUTE_CATALOG, base + rest.len()))
        } else {
            rest
        }
    }
}

/// The first kind from `k` on with this id.
pub open spec fn kind_from(kinds: Seq<KindV>, id: Seq<char>, k: int) -> Option<KindV>
    decreases kinds.len() - k,
{
    if k < 0 || k >= kinds.len() {
        None
    } else if kinds[k].id == id {
        Some(kinds[k])
    } else {
        kind_from(kinds, id, k + 1)
    }
}

/// The first kind with this id.
pub open spec fn kind_by_id(kinds: Seq<KindV>, id: Seq<char>) -> Option<KindV> {
    kind_from(kinds, id, 0)
}

/// The first page from `k` on with this id.
pub open spec fn page_from(pages: Seq<PageV>, id: Seq<char>, k: int) -> Option<PageV>
    decreases pages.len() - k,
{
    if k < 0 || k >= pages.len() {
        None
    } else if pages[k].id == id {
        Some(pages[k])
    } else {
        page_from(pages, id, k + 1)
    }
}

/// The first page with this id.
pub open spec fn page_by_id(pages: Seq<PageV>, id: Seq<char>) -> Option<PageV> {
    page_from(pages, id, 0)
}

/// The candidate a menu item makes at a rank and a route: the kind or page it names (nothing
/// when the catalog has no such one), the command a screen item runs, or the item itself,
/// sunk, when it names nothing the API has.
pub open spec fn item_cand(kinds: Seq<KindV>, pages: Seq<PageV>, item: NavItemV, rank: u8, route: u8, order: nat) -> Option<CandV> {
    match item.target {
        NavTargetV::Kind(id) => match kind_by_id(kinds, id) {
            Some(k) => Some(kind_cand(k, rank, route, order)),
            None => None,
        },
        NavTargetV::Page(id) => match page_by_id(pages, id) {
            Some(p) => Some(page_cand(p, rank, route, order)),
            None => None,
        },
        NavTargetV::Contexts => Some(command_cand(Command::Ctx, rank, route, order)),
        NavTargetV::Settings => Some(command_cand(Command::Settings, rank, route, order)),
        NavTargetV::Missing => Some(CandV {
            rank,
            sink: SINK_MISSING,
            class: CLASS_PAGE,
            route,
            seq: SEQ_NONE,
            key: item.label,
            entry: EntryV::Missing(item),
            order,
        }),
    }
}

/// The candidates of the first `n` items of a group whose labels match `word`.
pub open spec fn item_cands_of(kinds: Seq<KindV>, pages: Seq<PageV>, items: Seq<NavItemV>, word: Seq<char>, base: nat, n: int) -> Seq<CandV>
    decreases n,
{
    if n <= 0 {
        Seq::empty()
    } else {
        let rest = item_cands_of(kinds, pages, items, word, base, n - 1);
        match nav_rank_spec(items[n - 1].label, word) {
            Some((rank, route)) => match item_cand(kinds, pages, items[n - 1], rank, route, base + rest.len()) {
                Some(c) => rest.push(c),
                None => rest,
            },
            None => rest,
        }
    }
}

/// The candidates of the menu's first `n` groups.
pub open spec fn nav_cands(kinds: Seq<KindV>, pages: Seq<PageV>, groups: Seq<NavGroupV>, word: Seq<char>, base: nat, n: int) -> Seq<CandV>
    decreases n,
{
    if n <= 0 {
        Seq::empty()
    } else {
        let rest = nav_cands(kinds, pages, groups, word, base, n - 1);
        rest + item_cands_of(kinds, pages, groups[n - 1].items, word, base + rest.len(), groups[n - 1].items.len() as int)
    }
}

/// The views of the catalog's kinds.
pub open spec fn kinds_of(c: Catalog) -> Seq<KindV> {
    c.kinds@.map_values(|k: KindRef| k@)
}

/// The views of the catalog's pages.
pub open spec fn pages_of(c: Catalog) -> Seq<PageV> {
    c.pages@.map_values(|p: PageRef| p@)
}

/// Every candidate for the head word, in the order they are gathered: the commands, then -
/// for a word that is not empty - the kinds, the pages and the menu items.
pub open spec fn head_cands(word: Seq<char>, c: Catalog) -> Seq<CandV> {
    let cmds = command_cands(word, 17);
    if word.len() == 0 {
        cmds
    } else {
        let kinds = kinds_of(c);
        let pages = pages_of(c);
        let ks = kind_cands(kinds, word, cmds.len(), kinds.len() as int);
        let ps = page_cands(pages, word, cmds.len() + ks.len(), pages.len() as int);
        let ns = nav_cands(kinds, pages, nav_view(c.nav@), word, cmds.len() + ks.len() + ps.len(), c.nav@.len() as int);
        cmds + ks + ps + ns
    }
}

/// Where a command stands in the command list.
fn command_seq(c: Command) -> (r: u16)
    ensures
        r == command_index(c),
{
    let mut k: usize = 0;
    while k < 17
        invariant
            k <= 17,
            COMMANDS@ == commands_spec(),
            command_from(c, 0) == command_from(c, k as int),
        decreases 17 - k,
    {
        if COMMANDS[k] == c {
            return k as u16;
        }
        k = k + 1;
    }
    SEQ_NONE
}

/// The first kind with this id.
fn find_kind<'a>(kinds: &'a Vec<KindRef>, id: &str) -> (r: Option<&'a KindRef>)
    ensures
        match r {
            Some(k) => kind_by_id(kinds@.map_values(|k: KindRef| k@), id@) == Some(k@),
            None => kind_by_id(kinds@.map_values(|k: KindRef| k@), id@) is None,
        },
{
    let ghost kv = kinds@.map_values(|k: KindRef| k@);
    let mut i: usize = 0;
    while i < kinds.len()
        invariant
            i <= kinds@.len(),
            kv == kinds@.map_values(|k: KindRef| k@),
            kind_by_id(kv, id@) == kind_from(kv, id@, i as int),
        decreases kinds.len() - i,
    {
        assert(kv[i as int] == kinds@[i as int]@);
        if str_eq(kinds[i].id.as_str(), id) {
            return Some(&kinds[i]);
        }
        i = i + 1;
    }
    None
}

/// The first page with this id.
fn find_page<'a>(pages: &'a Vec<PageRef>, id: &str) -> (r: Option<&'a PageRef>)
    ensures
        match r {
            Some(p) => page_by_id(pages@.map_values(|p: PageRef| p@), id@) == Some(p@),
            None => page_by_id(pages@.map_values(|p: PageRef| p@), id@) is None,
        },
{
    let ghost pv = pages@.map_values(|p: PageRef| p@);
    let mut i: usize = 0;
    while i < pages.len()
        invariant
            i <= pages@.len(),
            pv == pages@.map_values(|p: PageRef| p@),
            page_by_id(pv, id@) == page_from(pv, id@, i as int),
        decreases pages.len() - i,
    {
        assert(pv[i as int] == pages@[i as int]@);
        if str_eq(pages[i].id.as_str(), id) {
            return Some(&pages[i]);
        }
        i = i + 1;
    }
    None
}

/// A kind's candidate row.
fn kind_row(kind: &KindRef, rank: u8, route: u8, order: usize) -> (r: Cand)
    ensures
        r@ == kind_cand(kind@, rank, route, order as nat),
{
    let sink: u8 = match kind.reach {
        Reach::Direct => 0,
        Reach::FromParent => 1,
        Reach::NeedsParameter => 2,
    };
    Cand {
        rank,
        sink,
        class: CLASS_KIND,
        route,
        seq: SEQ_NONE,
        key: kind.id.clone(),
        entry: Entry::Kind { kind: kind.duplicate(), reason: None },
        order,
    }
}

/// A page's candidate row.
fn page_row(page: &PageRef, rank: u8, route: u8, order: usize) -> (r: Cand)
    ensures
        r@ == page_cand(page@, rank, route, order as nat),
{
    Cand {
        rank,
        sink: 0,
        class: CLASS_PAGE,
        route,
        seq: SEQ_NONE,
        key: page.id.clone(),
        entry: Entry::Page(page.duplicate()),
        order,
    }
}

/// A command's candidate row.
fn command_row(c: Command, rank: u8, route: u8, order: usize) -> (r: Cand)
    ensures
        r@ == command_cand(c, rank, route, order as nat),
{
    Cand {
        rank,
        sink: 0,
        class: CLASS_COMMAND,
        route,
        seq: command_seq(c),
        key: string_of(chars_of(c.label()).as_slice()),
        entry: Entry::Command(c),
        order,
    }
}

/// Every candidate for the head word, in the order they are gathered.
pub fn head_candidates(word: &str, catalog: &Catalog) -> (r: Vec<Cand>)
    ensures
        cands_view(r@) == head_cands(word@, *catalog),
{
    let mut out: Vec<Cand> = Vec::new();
    let mut k: usize = 0;
    while k < 17
        invariant
            k <= 17,
            COMMANDS@ == commands_spec(),
            cands_view(out@) == command_cands(word@, k as int),
            out@.len() <= k,
        decreases 17 - k,
    {
        let c = COMMANDS[k];
        let label = c.label();
        let ghost before = cands_view(out@);
        if crate::ascii::eq_ignore_case(label, word) {
            let n = out.len();
            out.push(command_row(c, 0, ROUTE_CATALOG, n));
            proof {
                assert(cands_view(out@) =~= before.push(command_cand(c, 0, ROUTE_CATALOG, before.len())));
            }
        } else if word.unicode_len() == 0 || starts_ci(label, word) {
            let n = out.len();
            out.push(command_row(c, 3, ROUTE_CATALOG, n));
            proof {
                assert(cands_view(out@) =~= before.push(command_cand(c, 3, ROUTE_CATALOG, before.len())));
            }
        }
        k = k + 1;
    }
    if word.unicode_len() == 0 {
        return out;
    }
    let ghost cmds = cands_view(out@);
    let ghost kinds = kinds_of(*catalog);
    let ghost pages = pages_of(*catalog);
    let mut i: usize = 0;
    while i < catalog.kinds.len()
        invariant
            i <= catalog.kinds@.len(),
            kinds == kinds_of(*catalog),
            cmds.len() <= 17,
            cands_view(out@) == cmds + kind_cands(kinds, word@, cmds.len(), i as int),
            out@.len() <= 17 + i,
        decreases catalog.kinds.len() - i,
    {
        let ghost before = cands_view(out@);
        let ghost ks = kind_cands(kinds, word@, cmds.len(), i as int);
        assert(kinds[i as int] == catalog.kinds@[i as int]@);
        match lookup_rank(&catalog.kinds[i], word) {
            Some(r) => {
                let n = out.len();
                out.push(kind_row(&catalog.kinds[i], r, ROUTE_CATALOG, n));
                proof {
                    assert(cands_view(out@) =~= before.push(kind_cand(kinds[i as int], r, ROUTE_CATALOG, cmds.len() + ks.len())));
                }
            },
            None => {},
        }
        i = i + 1;
    }
    let ghost ks = kind_cands(kinds, word@, cmds.len(), kinds.len() as int);
    let mut i: usize = 0;
    while i < catalog.pages.len()
        invariant
            i <= catalog.pages@.len(),
            pages == pages_of(*catalog),
            cands_view(out@) == cmds + ks + page_cands(pages, word@, cmds.len() + ks.len(), i as int),
        decreases catalog.pages.len() - i,
    {
        let ghost before = cands_view(out@);
        let ghost ps = page_cands(pages, word@, cmds.len() + ks.len(), i as int);
        let p = &catalog.pages[i];
        assert(pages[i as int] == p@);
        let n = out.len();
        if starts_ci(p.title.as_str(), word) || starts_ci(p.id.as_str(), word) {
            out.push(page_row(p, 3, ROUTE_CATALOG, n));
            proof {
                assert(cands_view(out@) =~= before.push(page_cand(p@, 3, ROUTE_CATALOG, cmds.len() + ks.len() + ps.len())));
            }
        } else if contains_ci(p.title.as_str(), word) || contains_ci(p.id.as_str(), word) {
            out.push(page_row(p, 4, ROUTE_CATALOG, n));
            proof {
                assert(cands_view(out@) =~= before.push(page_cand(p@, 4, ROUTE_CATALOG, cmds.len() + ks.len() + ps.len())));
            }
        }
        i = i + 1;
    }
    let ghost ps = page_cands(pages, word@, cmds.len() + ks.len(), pages.len() as int);
    let ghost base = cmds.len() + ks.len() + ps.len();
    let ghost gv = nav_view(catalog.nav@);
    let mut g: usize = 0;
    while g < catalog.nav.len()
        invariant
            g <= catalog.nav@.len(),
            gv == nav_view(catalog.nav@),
            kinds == kinds_of(*catalog),
            pages == pages_of(*catalog),
            base == cmds.len() + ks.len() + ps.len(),
            cands_view(out@) == cmds + ks + ps + nav_cands(kinds, pages, gv, word@, base, g as int),
        decreases catalog.nav.len() - g,
    {
        let group = &catalog.nav[g];
        assert(gv[g as int] == group@);
        let ghost start = cands_view(out@);
        let ghost ns = nav_cands(kinds, pages, gv, word@, base, g as int);
        let ghost iv = crate::catalog::items_view(group.items@);
        let mut i: usize = 0;
        while i < group.items.len()
            invariant
                i <= group.items@.len(),
                iv == crate::catalog::items_view(group.items@),
                kinds == kinds_of(*catalog),
                pages == pages_of(*catalog),
                cands_view(out@) == start + item_cands_of(kinds, pages, iv, word@, base + ns.len(), i as int),
                start.len() == cmds.len() + ks.len() + ps.len() + ns.len(),
                base == cmds.len() + ks.len() + ps.len(),
            decreases group.items.len() - i,
        {
            let it = &group.items[i];
            assert(iv[i as int] == it@);
            let ghost before = cands_view(out@);
            let ghost is = item_cands_of(kinds, pages, iv, word@, base + ns.len(), i as int);
            match crate::palette::nav_rank(it.label.as_str(), word) {
                Some((rank, route)) => {
                    let n = out.len();
                    proof {
                        assert(cands_view(out@).len() == out@.len());
                        assert(before == start + is);
                        assert(n == base + ns.len() + is.len());
                    }
                    match &it.target {
                        NavTarget::Kind(id) => {
                            match find_kind(&catalog.kinds, id.as_str()) {
                                Some(k) => {
                                    out.push(kind_row(k, rank, route, n));
                                },
                                None => {},
                            }
                        },
                        NavTarget::Page(id) => {
                            match find_page(&catalog.pages, id.as_str()) {
                                Some(p) => {
                                    out.push(page_row(p, rank, route, n));
                                },
                                None => {},
                            }
                        },
                        NavTarget::Contexts => {
                            out.push(command_row(Command::Ctx, rank, route, n));
                        },
                        NavTarget::Settings => {
                            out.push(command_row(Command::Settings, rank, route, n));
                        },
                        NavTarget::Missing => {
                            out.push(Cand {
                                rank,
                                sink: SINK_MISSING,
                                class: CLASS_PAGE,
                                route,
                                seq: SEQ_NONE,
                                key: it.label.clone(),
                                entry: Entry::Missing(it.duplicate()),
                                order: n,
                            });
                        },
                    }
                    proof {
                        match item_cand(kinds, pages, it@, rank, route, n as nat) {
                            Some(c) => {
                                assert(cands_view(out@) =~= before.push(c));
                            },
                            None => {
                                assert(cands_view(out@) =~= before);
                            },
                        }
                    }
                },
                None => {},
            }
            i = i + 1;
        }
        proof {
            assert(iv.subrange(0, iv.len() as int) =~= iv);
            assert(cands_view(out@) =~= cmds + ks + ps + nav_cands(kinds, pages, gv, word@, base, g as int + 1));
        }
        g = g + 1;
    }
    out
}

/// The order of the head's ranking: by rank, then sink, class, route, declaration order and
/// key, and then by where the candidate was gathered, which is how a stable sort settles a tie.
pub open spec fn cand_le(a: CandV, b: CandV) -> bool {
    if a.rank != b.rank {
        a.rank < b.rank
    } else if a.sink != b.sink {
        a.sink < b.sink
    } else if a.class != b.class {
        a.class < b.class
    } else if a.route != b.route {
        a.route < b.route
    } else if a.seq != b.seq {
        a.seq < b.seq
    } else if a.key != b.key {
        lex_le(a.key, b.key)
    } else {
        a.order <= b.order
    }
}

/// The candidates are in [`cand_le`] order.
pub open spec fn sorted_cands(s: Seq<CandV>) -> bool {
    forall|i: int, j: int| 0 <= i < j < s.len() ==> cand_le(s[i], s[j])
}

/// `lex_le` both ways means the same word.
pub proof fn lemma_lex_antisym(a: Seq<char>, b: Seq<char>)
    requires
        lex_le(a, b),
        lex_le(b, a),
    ensures
        a == b,
    decreases a.len(),
{
    if a.len() > 0 && b.len() > 0 {
        lemma_lex_antisym(a.drop_first(), b.drop_first());
        assert(a =~= seq![a[0]] + a.drop_first());
        assert(b =~= seq![b[0]] + b.drop_first());
    } else if a.len() == 0 && b.len() > 0 {
    } else if a.len() > 0 && b.len() == 0 {
    } else {
        assert(a =~= b);
    }
}

/// Of two candidates, one sorts no later than the other.
proof fn lemma_cand_le_total(a: CandV, b: CandV)
    ensures
        cand_le(a, b) || cand_le(b, a),
{
    crate::palette::lemma_lex_le_total(a.key, b.key);
}

/// The order is transitive.
proof fn lemma_cand_le_trans(a: CandV, b: CandV, c: CandV)
    requires
        cand_le(a, b),
        cand_le(b, c),
    ensures
        cand_le(a, c),
{
    if a.rank == b.rank && b.rank == c.rank && a.sink == b.sink && b.sink == c.sink && a.class == b.class
        && b.class == c.class && a.route == b.route && b.route == c.route && a.seq == b.seq && b.seq == c.seq {
        if a.key != b.key && b.key != c.key {
            crate::palette::lemma_lex_le_trans(a.key, b.key, c.key);
            if a.key == c.key {
                lemma_lex_antisym(b.key, c.key);
            }
        }
    }
}

/// Whether `a` sorts no later than `b`.
fn cand_le_exec(a: &Cand, b: &Cand) -> (r: bool)
    ensures
        r == cand_le(a@, b@),
{
    if a.rank != b.rank {
        return a.rank < b.rank;
    }
    if a.sink != b.sink {
        return a.sink < b.sink;
    }
    if a.class != b.class {
        return a.class < b.class;
    }
    if a.route != b.route {
        return a.route < b.route;
    }
    if a.seq != b.seq {
        return a.seq < b.seq;
    }
    if !str_eq(a.key.as_str(), b.key.as_str()) {
        let ka = chars_of(a.key.as_str());
        let kb = chars_of(b.key.as_str());
        return lex_le_exec(ka.as_slice(), kb.as_slice());
    }
    a.order <= b.order
}

/// The candidates in [`cand_le`] order: the same candidates, sorted.
pub fn sort_cands(v: Vec<Cand>) -> (r: Vec<Cand>)
    ensures
        sorted_cands(cands_view(r@)),
        cands_view(r@).to_multiset() == cands_view(v@).to_multiset(),
{
    broadcast use vstd::seq_lib::group_to_multiset_ensures;
    let ghost orig = cands_view(v@);
    let mut out: Vec<Cand> = Vec::new();
    let mut rest = v;
    proof {
        assert(cands_view(out@) =~= Seq::<CandV>::empty());
        assert(cands_view(out@).to_multiset() =~= vstd::multiset::Multiset::empty());
    }
    while rest.len() > 0
        invariant
            sorted_cands(cands_view(out@)),
            cands_view(out@).to_multiset().add(cands_view(rest@).to_multiset()) == orig.to_multiset(),
        decreases rest.len(),
    {
        let ghost old_rest = cands_view(rest@);
        let x = rest.remove(0);
        let ghost xv = x@;
        proof {
            assert(old_rest.drop_first() =~= cands_view(rest@));
            assert(old_rest =~= old_rest.drop_first().insert(0, xv));
            crate::menu::lemma_seq_insert_multiset(old_rest.drop_first(), 0, xv);
        }
        let mut at: usize = out.len();
        while at > 0 && !cand_le_exec(&out[at - 1], &x)
            invariant
                at <= out@.len(),
                xv == x@,
                forall|k: int| at <= k < out@.len() ==> !cand_le(#[trigger] cands_view(out@)[k], xv),
            decreases at,
        {
            at = at - 1;
        }
        let ghost before = cands_view(out@);
        proof {
            assert forall|k: int| at <= k < before.len() implies cand_le(xv, before[k]) by {
                lemma_cand_le_total(xv, before[k]);
            }
        }
        out.insert(at, x);
        proof {
            let after = cands_view(out@);
            assert(after =~= before.insert(at as int, xv));
            assert forall|i: int, j: int| 0 <= i < j < after.len() implies cand_le(after[i], after[j]) by {
                if i < at && j < at {
                } else if i < at && j == at {
                    if i < at - 1 {
                        lemma_cand_le_trans(before[i], before[at - 1], xv);
                    }
                } else if i < at && j > at {
                    assert(after[j] == before[j - 1]);
                } else if i == at {
                    assert(after[j] == before[j - 1]);
                } else {
                    assert(after[i] == before[i - 1] && after[j] == before[j - 1]);
                }
            }
            crate::menu::lemma_seq_insert_multiset(before, at as int, xv);
        }
    }
    proof {
        assert(cands_view(rest@) =~= Seq::<CandV>::empty());
        assert(cands_view(rest@).to_multiset() =~= vstd::multiset::Multiset::empty());
    }
    out
}

/// What a candidate resolves to: two routes to the same table are one row, at the better
/// rank.
pub open spec fn target_of(c: CandV) -> (u8, Seq<char>) {
    match c.entry {
        EntryV::Command(cmd) => (0, label_spec(cmd)),
        EntryV::Kind { kind, .. } => (2, kind.id),
        EntryV::Page(p) => (3, p.id),
        EntryV::Missing(item) => (4, item.label),
        EntryV::Value { .. } => (1, c.key),
    }
}

/// Why a kind is greyed: the catalog's own reason, or else the session's.
pub open spec fn kind_reason(kind: KindV, unavailable: Seq<(Seq<char>, Seq<char>)>) -> Option<Seq<char>> {
    match kind.note {
        Some(n) => Some(n),
        None => crate::form::lookup(unavailable, kind.id),
    }
}

/// The first `n` sorted candidates, finished: the targets already offered, how many kinds have
/// been met, and the rows. A target already offered is dropped; past the first
/// [`MAX_KINDS`] kinds every kind is dropped; a kind that stays carries its reason.
pub open spec fn finish_upto(s: Seq<CandV>, unavailable: Seq<(Seq<char>, Seq<char>)>, n: int) -> (Seq<(u8, Seq<char>)>, nat, Seq<EntryV>)
    decreases n,
{
    if n <= 0 {
        (Seq::empty(), 0, Seq::empty())
    } else {
        let (seen, kinds, out) = finish_upto(s, unavailable, n - 1);
        let c = s[n - 1];
        let t = target_of(c);
        if seen.contains(t) {
            (seen, kinds, out)
        } else {
            match c.entry {
                EntryV::Kind { kind, .. } => if kinds + 1 > MAX_KINDS {
                    (seen.push(t), kinds + 1, out)
                } else {
                    (seen.push(t), kinds + 1, out.push(EntryV::Kind { kind, reason: kind_reason(kind, unavailable) }))
                },
                _ => (seen.push(t), kinds, out.push(c.entry)),
            }
        }
    }
}

/// What a row resolves to, for the rows that name a thing of their own - a command, a kind, a
/// page, a menu item; an argument value resolves to nothing here.
pub open spec fn entry_key(e: EntryV) -> Option<(u8, Seq<char>)> {
    match e {
        EntryV::Command(cmd) => Some((0u8, label_spec(cmd))),
        EntryV::Kind { kind, .. } => Some((2u8, kind.id)),
        EntryV::Page(p) => Some((3u8, p.id)),
        EntryV::Missing(item) => Some((4u8, item.label)),
        EntryV::Value { .. } => None,
    }
}

/// How many kinds a list of rows holds.
pub open spec fn kind_count(rows: Seq<EntryV>) -> nat
    decreases rows.len(),
{
    if rows.len() == 0 {
        0
    } else {
        kind_count(rows.drop_last()) + if rows.last() is Kind { 1nat } else { 0nat }
    }
}

/// Finishing never offers more than [`MAX_KINDS`] kinds, and never offers one thing twice:
/// every row it keeps resolves to something not offered before it.
proof fn lemma_finish_dedups_and_caps(s: Seq<CandV>, unavailable: Seq<(Seq<char>, Seq<char>)>, n: int)
    requires
        0 <= n <= s.len(),
    ensures
        kind_count(finish_upto(s, unavailable, n).2) <= MAX_KINDS,
        kind_count(finish_upto(s, unavailable, n).2) <= finish_upto(s, unavailable, n).1,
        forall|i: int| 0 <= i < finish_upto(s, unavailable, n).2.len()
            && #[trigger] entry_key(finish_upto(s, unavailable, n).2[i]) is Some
            ==> finish_upto(s, unavailable, n).0.contains(entry_key(finish_upto(s, unavailable, n).2[i])->0),
        forall|i: int, j: int| 0 <= i < j < finish_upto(s, unavailable, n).2.len()
            && #[trigger] entry_key(finish_upto(s, unavailable, n).2[i]) is Some
            ==> entry_key(finish_upto(s, unavailable, n).2[i]) != #[trigger] entry_key(finish_upto(s, unavailable, n).2[j]),
    decreases n,
{
    if n > 0 {
        lemma_finish_dedups_and_caps(s, unavailable, n - 1);
        let (seen, kinds, out) = finish_upto(s, unavailable, n - 1);
        let c = s[n - 1];
        let t = target_of(c);
        if !seen.contains(t) {
            let (seen2, kinds2, out2) = finish_upto(s, unavailable, n);
            assert(seen2 == seen.push(t));
            assert forall|k: (u8, Seq<char>)| seen.contains(k) implies #[trigger] seen2.contains(k) by {
                let w = choose|w: int| 0 <= w < seen.len() && seen[w] == k;
                assert(seen2[w] == k);
            }
            assert(seen2[seen.len() as int] == t);
            assert(seen2.contains(t));
            if out2.len() > out.len() {
                let e = out2[out.len() as int];
                assert(out2 == out.push(e));
                assert(out2.drop_last() =~= out);
                assert(entry_key(e) is Some ==> entry_key(e)->0 == t);
                assert forall|i: int| 0 <= i < out2.len() && #[trigger] entry_key(out2[i]) is Some
                    implies seen2.contains(entry_key(out2[i])->0) by {
                    if i < out.len() {
                        assert(out2[i] == out[i]);
                    }
                }
                assert forall|i: int, j: int| 0 <= i < j < out2.len() && #[trigger] entry_key(out2[i]) is Some
                    implies entry_key(out2[i]) != #[trigger] entry_key(out2[j]) by {
                    assert(out2[i] == out[i]);
                    if j < out.len() {
                        assert(out2[j] == out[j]);
                    } else {
                        assert(seen.contains(entry_key(out[i])->0));
                    }
                }
            } else {
                assert(out2 == out);
                assert forall|i: int| 0 <= i < out2.len() && #[trigger] entry_key(out2[i]) is Some
                    implies seen2.contains(entry_key(out2[i])->0) by {
                    assert(seen.contains(entry_key(out[i])->0));
                }
            }
        }
    }
}

/// The head's ranking offers at most [`MAX_KINDS`] kinds, and each command, kind, page and menu
/// item at most once.
pub proof fn ranking_offers_each_thing_once(entries: Seq<EntryV>, word: Seq<char>, vocab: Vocabulary)
    requires
        ranked(entries, word, vocab),
    ensures
        kind_count(entries) <= MAX_KINDS,
        forall|i: int, j: int| 0 <= i < j < entries.len() && #[trigger] entry_key(entries[i]) is Some
            ==> entry_key(entries[i]) != #[trigger] entry_key(entries[j]),
{
    let s = choose|s: Seq<CandV>| {
        &&& sorted_cands(s)
        &&& s.to_multiset() == head_cands(word, vocab.catalog).to_multiset()
        &&& entries == finish_upto(s, crate::form::pairs_view(vocab.unavailable@), s.len() as int).2
    };
    lemma_finish_dedups_and_caps(s, crate::form::pairs_view(vocab.unavailable@), s.len() as int);
}

/// What a candidate resolves to.
fn target(c: &Cand) -> (r: (u8, String))
    ensures
        (r.0, r.1@) == target_of(c@),
{
    match &c.entry {
        Entry::Command(cmd) => (0, string_of(chars_of(cmd.label()).as_slice())),
        Entry::Kind { kind, .. } => (2, kind.id.clone()),
        Entry::Page(p) => (3, p.id.clone()),
        Entry::Missing(item) => (4, item.label.clone()),
        Entry::Value { .. } => (1, c.key.clone()),
    }
}

/// The views of a list of targets.
pub open spec fn targets_view(v: Seq<(u8, String)>) -> Seq<(u8, Seq<char>)> {
    v.map_values(|t: (u8, String)| (t.0, t.1@))
}

/// Whether `t` has been offered.
fn seen_target(seen: &Vec<(u8, String)>, t: &(u8, String)) -> (r: bool)
    ensures
        r == targets_view(seen@).contains((t.0, t.1@)),
{
    let ghost sv = targets_view(seen@);
    let mut i: usize = 0;
    while i < seen.len()
        invariant
            i <= seen@.len(),
            sv == targets_view(seen@),
            forall|k: int| 0 <= k < i ==> sv[k] != (t.0, t.1@),
        decreases seen.len() - i,
    {
        if seen[i].0 == t.0 && str_eq(seen[i].1.as_str(), t.1.as_str()) {
            assert(sv[i as int] == (t.0, t.1@));
            return true;
        }
        i = i + 1;
    }
    false
}

/// The sorted candidates finished into rows.
fn finish(sorted: Vec<Cand>, unavailable: &Vec<(String, String)>) -> (r: Vec<Entry>)
    ensures
        entries_view(r@) == finish_upto(cands_view(sorted@), crate::form::pairs_view(unavailable@), sorted@.len() as int).2,
{
    let ghost sv = cands_view(sorted@);
    let ghost uv = crate::form::pairs_view(unavailable@);
    let mut seen: Vec<(u8, String)> = Vec::new();
    let mut kinds: usize = 0;
    let mut out: Vec<Entry> = Vec::new();
    let mut i: usize = 0;
    while i < sorted.len()
        invariant
            i <= sorted@.len(),
            sv == cands_view(sorted@),
            uv == crate::form::pairs_view(unavailable@),
            kinds <= i,
            (targets_view(seen@), kinds as nat, entries_view(out@)) == finish_upto(sv, uv, i as int),
        decreases sorted.len() - i,
    {
        let c = &sorted[i];
        assert(sv[i as int] == c@);
        let t = target(c);
        if seen_target(&seen, &t) {
            i = i + 1;
            continue;
        }
        let ghost s0 = targets_view(seen@);
        let ghost o0 = entries_view(out@);
        let tv = t.1.clone();
        seen.push((t.0, tv));
        proof {
            assert(targets_view(seen@) =~= s0.push((t.0, t.1@)));
        }
        match &c.entry {
            Entry::Kind { kind, .. } => {
                kinds = kinds + 1;
                if kinds <= MAX_KINDS {
                    let reason = match &kind.note {
                        Some(n) => Some(n.clone()),
                        None => crate::form::find_value(unavailable, kind.id.as_str()),
                    };
                    out.push(Entry::Kind { kind: kind.duplicate(), reason });
                    proof {
                        assert(entries_view(out@) =~= o0.push(EntryV::Kind { kind: kind@, reason: kind_reason(kind@, uv) }));
                    }
                }
            },
            _ => {
                out.push(c.entry.duplicate());
                proof {
                    assert(entries_view(out@) =~= o0.push(c@.entry));
                }
            },
        }
        i = i + 1;
    }
    out
}

/// The head's ranking: commands, the kinds the lookup finds, the menu's labels and the pages,
/// merged into one list sorted by rank, sink, class, route, declaration order and key,
/// deduplicated on what each row resolves to, with at most [`MAX_KINDS`] kinds.
pub fn head_ranking(word: &str, vocab: &Vocabulary) -> (r: Vec<Entry>)
    ensures
        exists|s: Seq<CandV>| {
            &&& sorted_cands(s)
            &&& s.to_multiset() == head_cands(word@, vocab.catalog).to_multiset()
            &&& entries_view(r@) == finish_upto(s, crate::form::pairs_view(vocab.unavailable@), s.len() as int).2
        },
{
    let cands = head_candidates(word, &vocab.catalog);
    let sorted = sort_cands(cands);
    let r = finish(sorted, &vocab.unavailable);
    r
}

/// `entries` is the head's ranking of `word` against `vocab`.
pub open spec fn ranked(entries: Seq<EntryV>, word: Seq<char>, vocab: Vocabulary) -> bool {
    exists|s: Seq<CandV>| {
        &&& sorted_cands(s)
        &&& s.to_multiset() == head_cands(word, vocab.catalog).to_multiset()
        &&& entries == finish_upto(s, crate::form::pairs_view(vocab.unavailable@), s.len() as int).2
    }
}

/// What re-ranking does to the palette's rows and slot. At the head, the head's ranking of the
/// word under the cursor. Past it, the rows the slot at that position offers; when it offers
/// none, the command as typed, or - with no command - the head's ranking of the head word.
pub open spec fn refresh_spec(t: Seq<char>, pos: int, vocab: Vocabulary, entries: Seq<EntryV>, slot: Option<Slot>) -> bool {
    let (position, word) = completing_spec(t, pos, slot_count(t));
    let head = head_command_spec(head_spec(t));
    if position == 0 {
        slot is None && ranked(entries, word, vocab)
    } else {
        let at = match head {
            Some(c) => if position - 1 < slots_spec(c).len() { Some(slots_spec(c)[position - 1]) } else { None },
            None => None,
        };
        let rows = match at {
            Some(s) => vocabulary_spec(s, word, vocab),
            None => Seq::empty(),
        };
        if rows.len() == 0 {
            &&& slot is None
            &&& match head {
                Some(c) => entries == seq![EntryV::Command(c)],
                None => ranked(entries, head_spec(t), vocab),
            }
        } else {
            slot == at && entries == rows
        }
    }
}

impl Palette {
    /// Re-ranks the rows for the word under the cursor, and pulls the selection back onto
    /// them.
    pub fn refresh(&mut self, vocab: &Vocabulary)
        ensures
            refresh_spec(old(self).input.text(), old(self).input.pos() as int, *vocab, entries_view(final(self).entries@), final(self).slot),
            final(self).selected == (if old(self).selected as int <= final(self).entries@.len() - 1 {
                old(self).selected as int
            } else if final(self).entries@.len() == 0 {
                0
            } else {
                final(self).entries@.len() - 1
            }),
            final(self).input == old(self).input,
            final(self).history == old(self).history,
            final(self).history_pos == old(self).history_pos,
            final(self).stash == old(self).stash,
    {
        let (head, slots, position, word) = self.completing_at_cursor();
        let word = string_of(word.as_slice());
        let (slot, entries): (Option<Slot>, Vec<Entry>) = if position == 0 {
            (None, head_ranking(word.as_str(), vocab))
        } else {
            let at: Option<Slot> = if position - 1 < slots.len() { Some(slots[position - 1]) } else { None };
            let rows = match at {
                Some(s) => vocabulary(s, word.as_str(), vocab),
                None => {
                    let r: Vec<Entry> = Vec::new();
                    proof {
                        assert(entries_view(r@) =~= Seq::<EntryV>::empty());
                    }
                    r
                },
            };
            if rows.len() == 0 {
                let row = match head {
                    None => {
                        let h = self.head();
                        head_ranking(h.as_str(), vocab)
                    },
                    Some(c) => {
                        let mut v: Vec<Entry> = Vec::new();
                        v.push(Entry::Command(c));
                        proof {
                            assert(entries_view(v@) =~= seq![EntryV::Command(c)]);
                        }
                        v
                    },
                };
                (None, row)
            } else {
                (at, rows)
            }
        };
        self.slot = slot;
        self.entries = entries;
        let n = self.entries.len();
        let last = if n == 0 { 0 } else { n - 1 };
        if self.selected > last {
            self.selected = last;
        }
    }
}

/// What the popup calls the rows a slot offers.
pub open spec fn noun_spec(slot: Slot) -> Seq<char> {
    match slot {
        Slot::Contexts => "contexts"@,
        Slot::Skins => "skins"@,
        Slot::Actions => "actions"@,
        Slot::Kinds => "kinds"@,
        Slot::Hide => "menu items"@,
        Slot::Show => "hidden items"@,
        Slot::Intervals => "intervals"@,
        Slot::Levels => "levels"@,
    }
}

impl Slot {
    /// What the popup calls the rows it is showing: the noun names what is being completed,
    /// so a slot that offers no row is still that slot.
    pub fn noun(self) -> (r: &'static str)
        ensures
            r@ == noun_spec(self),
    {
        match self {
            Slot::Contexts => "contexts",
            Slot::Skins => "skins",
            Slot::Actions => "actions",
            Slot::Kinds => "kinds",
            Slot::Hide => "menu items",
            Slot::Show => "hidden items",
            Slot::Intervals => "intervals",
            Slot::Levels => "levels",
        }
    }
}

/// The candidates are numbered in the order they were gathered, from `base`.
pub open spec fn numbered(s: Seq<CandV>, base: nat) -> bool {
    forall|i: int| 0 <= i < s.len() ==> (#[trigger] s[i]).order == base + i
}

/// Two members of `m` that share a gathering number are the same candidate.
pub open spec fn keyed(m: vstd::multiset::Multiset<CandV>) -> bool {
    forall|a: CandV, b: CandV| m.count(a) > 0 && m.count(b) > 0 && a.order == b.order ==> a == b
}

/// Two candidates that each sort no later than the other agree on everything the order reads.
proof fn lemma_cand_le_antisym(a: CandV, b: CandV)
    requires
        cand_le(a, b),
        cand_le(b, a),
    ensures
        a.order == b.order,
{
    if a.rank == b.rank && a.sink == b.sink && a.class == b.class && a.route == b.route && a.seq == b.seq
        && a.key != b.key {
        lemma_lex_antisym(a.key, b.key);
    }
}

/// The commands are numbered from `0`.
proof fn lemma_command_cands_numbered(word: Seq<char>, n: int)
    ensures
        numbered(command_cands(word, n), 0),
    decreases n,
{
    if n > 0 {
        lemma_command_cands_numbered(word, n - 1);
    }
}

/// The kinds are numbered from `base`.
proof fn lemma_kind_cands_numbered(kinds: Seq<KindV>, word: Seq<char>, base: nat, n: int)
    ensures
        numbered(kind_cands(kinds, word, base, n), base),
    decreases n,
{
    if n > 0 {
        lemma_kind_cands_numbered(kinds, word, base, n - 1);
    }
}

/// The pages are numbered from `base`.
proof fn lemma_page_cands_numbered(pages: Seq<PageV>, word: Seq<char>, base: nat, n: int)
    ensures
        numbered(page_cands(pages, word, base, n), base),
    decreases n,
{
    if n > 0 {
        lemma_page_cands_numbered(pages, word, base, n - 1);
    }
}

/// A group's items are numbered from `base`.
proof fn lemma_item_cands_numbered(kinds: Seq<KindV>, pages: Seq<PageV>, items: Seq<NavItemV>, word: Seq<char>, base: nat, n: int)
    ensures
        numbered(item_cands_of(kinds, pages, items, word, base, n), base),
    decreases n,
{
    if n > 0 {
        lemma_item_cands_numbered(kinds, pages, items, word, base, n - 1);
        let rest = item_cands_of(kinds, pages, items, word, base, n - 1);
        match nav_rank_spec(items[n - 1].label, word) {
            Some((rank, route)) => {
                let c = item_cand(kinds, pages, items[n - 1], rank, route, base + rest.len());
                if c is Some {
                    assert(c->0.order == base + rest.len());
                }
            },
            None => {},
        }
    }
}

/// The menu's labels are numbered from `base`.
proof fn lemma_nav_cands_numbered(kinds: Seq<KindV>, pages: Seq<PageV>, groups: Seq<NavGroupV>, word: Seq<char>, base: nat, n: int)
    ensures
        numbered(nav_cands(kinds, pages, groups, word, base, n), base),
    decreases n,
{
    if n > 0 {
        lemma_nav_cands_numbered(kinds, pages, groups, word, base, n - 1);
        let rest = nav_cands(kinds, pages, groups, word, base, n - 1);
        lemma_item_cands_numbered(kinds, pages, groups[n - 1].items, word, base + rest.len(), groups[n - 1].items.len() as int);
    }
}

/// Every candidate for the head word carries its own place in the gathering as its number.
proof fn lemma_head_cands_numbered(word: Seq<char>, c: Catalog)
    ensures
        numbered(head_cands(word, c), 0),
{
    let cmds = command_cands(word, 17);
    lemma_command_cands_numbered(word, 17);
    if word.len() > 0 {
        let kinds = kinds_of(c);
        let pages = pages_of(c);
        let ks = kind_cands(kinds, word, cmds.len(), kinds.len() as int);
        let ps = page_cands(pages, word, cmds.len() + ks.len(), pages.len() as int);
        let ns = nav_cands(kinds, pages, nav_view(c.nav@), word, cmds.len() + ks.len() + ps.len(), c.nav@.len() as int);
        lemma_kind_cands_numbered(kinds, word, cmds.len(), kinds.len() as int);
        lemma_page_cands_numbered(pages, word, cmds.len() + ks.len(), pages.len() as int);
        lemma_nav_cands_numbered(kinds, pages, nav_view(c.nav@), word, cmds.len() + ks.len() + ps.len(), c.nav@.len() as int);
        let all = cmds + ks + ps + ns;
        assert forall|i: int| 0 <= i < all.len() implies (#[trigger] all[i]).order == i by {
            if i < cmds.len() {
                assert(all[i] == cmds[i]);
            } else if i < cmds.len() + ks.len() {
                assert(all[i] == ks[i - cmds.len()]);
            } else if i < cmds.len() + ks.len() + ps.len() {
                assert(all[i] == ps[i - cmds.len() - ks.len()]);
            } else {
                assert(all[i] == ns[i - cmds.len() - ks.len() - ps.len()]);
            }
        }
    }
}

/// A numbered list holds no two candidates with one number.
proof fn lemma_numbered_keyed(s: Seq<CandV>)
    requires
        numbered(s, 0),
    ensures
        keyed(s.to_multiset()),
{
    assert forall|a: CandV, b: CandV| s.to_multiset().count(a) > 0 && s.to_multiset().count(b) > 0 && a.order == b.order implies a == b by {
        vstd::seq_lib::to_multiset_contains(s, a);
        vstd::seq_lib::to_multiset_contains(s, b);
        let i = choose|i: int| 0 <= i < s.len() && s[i] == a;
        let j = choose|j: int| 0 <= j < s.len() && s[j] == b;
        assert(s[i].order == i && s[j].order == j);
    }
}

/// Two sorted arrangements of the same candidates, no two of which share a number, are the
/// same list.
proof fn lemma_sorted_unique(s1: Seq<CandV>, s2: Seq<CandV>)
    requires
        sorted_cands(s1),
        sorted_cands(s2),
        s1.to_multiset() == s2.to_multiset(),
        keyed(s1.to_multiset()),
    ensures
        s1 == s2,
    decreases s1.len(),
{
    vstd::seq_lib::to_multiset_len(s1);
    vstd::seq_lib::to_multiset_len(s2);
    if s1.len() == 0 {
        assert(s1 =~= s2);
    } else {
        let a = s1[0];
        let b = s2[0];
        vstd::seq_lib::to_multiset_contains(s1, a);
        vstd::seq_lib::to_multiset_contains(s2, a);
        vstd::seq_lib::to_multiset_contains(s1, b);
        vstd::seq_lib::to_multiset_contains(s2, b);
        assert(s1.contains(a));
        assert(s2.contains(b));
        let j = choose|j: int| 0 <= j < s2.len() && s2[j] == a;
        let k = choose|k: int| 0 <= k < s1.len() && s1[k] == b;
        if j > 0 {
            assert(cand_le(s2[0], s2[j]));
        } else {
            assert(cand_le(b, a));
        }
        if k > 0 {
            assert(cand_le(s1[0], s1[k]));
        } else {
            assert(cand_le(a, b));
        }
        lemma_cand_le_antisym(a, b);
        assert(a == b);
        vstd::seq_lib::to_multiset_remove(s1, 0);
        vstd::seq_lib::to_multiset_remove(s2, 0);
        let t1 = s1.remove(0);
        let t2 = s2.remove(0);
        assert(t1 =~= s1.drop_first());
        assert(t2 =~= s2.drop_first());
        let m = s1.to_multiset().remove(a);
        assert forall|x: CandV, y: CandV| m.count(x) > 0 && m.count(y) > 0 && x.order == y.order implies x == y by {
            assert(s1.to_multiset().count(x) > 0);
            assert(s1.to_multiset().count(y) > 0);
        }
        assert(sorted_cands(t1)) by {
            assert forall|i: int, j: int| 0 <= i < j < t1.len() implies cand_le(t1[i], t1[j]) by {
                assert(t1[i] == s1[i + 1] && t1[j] == s1[j + 1]);
            }
        }
        assert(sorted_cands(t2)) by {
            assert forall|i: int, j: int| 0 <= i < j < t2.len() implies cand_le(t2[i], t2[j]) by {
                assert(t2[i] == s2[i + 1] && t2[j] == s2[j + 1]);
            }
        }
        lemma_sorted_unique(t1, t2);
        assert(s1 =~= seq![a] + t1);
        assert(s2 =~= seq![b] + t2);
    }
}

/// The head's ranking is determined by the word and the vocabulary: any two lists that meet
/// [`ranked`] are the same list.
pub proof fn lemma_ranking_determined(e1: Seq<EntryV>, e2: Seq<EntryV>, word: Seq<char>, vocab: Vocabulary)
    requires
        ranked(e1, word, vocab),
        ranked(e2, word, vocab),
    ensures
        e1 == e2,
{
    let s1 = choose|s: Seq<CandV>| {
        &&& sorted_cands(s)
        &&& s.to_multiset() == head_cands(word, vocab.catalog).to_multiset()
        &&& e1 == finish_upto(s, crate::form::pairs_view(vocab.unavailable@), s.len() as int).2
    };
    let s2 = choose|s: Seq<CandV>| {
        &&& sorted_cands(s)
        &&& s.to_multiset() == head_cands(word, vocab.catalog).to_multiset()
        &&& e2 == finish_upto(s, crate::form::pairs_view(vocab.unavailable@), s.len() as int).2
    };
    lemma_head_cands_numbered(word, vocab.catalog);
    lemma_numbered_keyed(head_cands(word, vocab.catalog));
    lemma_sorted_unique(s1, s2);
}

} // verus!
