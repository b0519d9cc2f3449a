//! The decisions the application makes between its screens: which pane the keys go to, which
//! screen is up, how far a page key moves a list, what a palette row runs, what a refused
//! command line says, what the answers of the palette, the detail pane, the child picker and
//! the settings screen come to, what opening a kind or a page comes to, and how the activity
//! screen's table list reads and sorts. Each is a step from state and event to the next state
//! and what the application has to do; the application does it.

use vstd::prelude::*;
use crate::ascii::{concat, decimal, decimal_string};
use crate::catalog::{KindRef, KindV};
use crate::palette::{label_spec, slots_spec, Command, Entry, EntryV, Tag};
use crate::key::Key;
use crate::settings::Action as SettingsAction;
use crate::palette::Action as PaletteAction;

verus! {

/// Which pane the arrow keys move.
#[derive(Debug, Clone, Copy, PartialEq, Eq, Structural)]
pub enum Focus {
    Sidebar,
    Body,
}

/// Which screen is up.
#[derive(Debug, Clone, Copy, PartialEq, Eq, Structural)]
pub enum Mode {
    Contexts,
    Form,
    Table,
    Command,
    Picker,
    Detail,
    Help,
    Skins,
    /// The action menu `a` opens over the table.
    Menu,
    /// The confirm dialog between a chosen action and the request.
    Confirm,
    /// The generic form built from a chosen action's fields, and its reference picker.
    Fields,
    /// `:journal`: what was attempted this session.
    Journal,
    /// `:search`: what every kind already loaded holds under one term.
    Search,
    /// `:settings`: what is set, what it is set to, and who set it.
    Settings,
}

/// What opening something came to: it opened, or it is greyed, with the reason.
#[derive(Debug, Clone, PartialEq, Eq)]
pub enum Open {
    Opened,
    Greyed(String),
}

/// `count` rows down or up from `selected`, kept on a list of `len` rows.
pub open spec fn step_spec(selected: int, down: bool, count: int, len: int) -> int {
    if len == 0 {
        0
    } else if down {
        let last = if len == 0 { 0 } else { len - 1 };
        if selected + count < last { selected + count } else { last }
    } else if selected > count {
        selected - count
    } else {
        0
    }
}

/// `count` rows down or up, clamped to `len`. A `len` of zero pins the selection at zero.
pub fn step(selected: usize, down: bool, count: usize, len: usize) -> (r: usize)
    ensures
        r == step_spec(selected as int, down, count as int, len as int),
        len == 0 ==> r == 0,
        selected < len ==> r < len,
{
    if len == 0 {
        0
    } else if down {
        let last = len - 1;
        let n = selected.saturating_add(count);
        if n < last { n } else { last }
    } else if selected > count {
        selected - count
    } else {
        0
    }
}

/// The words joined with single spaces.
pub open spec fn join_words(args: Seq<Seq<char>>) -> Seq<char>
    decreases args.len(),
{
    if args.len() == 0 {
        Seq::empty()
    } else if args.len() == 1 {
        args[0]
    } else {
        join_words(args.drop_last()) + " "@ + args.last()
    }
}

/// Every word of a rest-of-line argument as the one name it spells, or `None` when there was
/// none: `:hide Compute & Storage` names one group, not three things.
pub fn joined(args: Vec<String>) -> (r: Option<String>)
    ensures
        match r {
            Some(s) => args@.len() > 0 && s@ == join_words(crate::catalog::strings_view(args@)),
            None => args@.len() == 0,
        },
{
    if args.len() == 0 {
        return None;
    }
    let ghost av = crate::catalog::strings_view(args@);
    let mut out = args[0].clone();
    let mut i: usize = 1;
    while i < args.len()
        invariant
            1 <= i <= args@.len(),
            av == crate::catalog::strings_view(args@),
            out@ == join_words(av.subrange(0, i as int)),
        decreases args.len() - i,
    {
        let with_space = concat(out.as_str(), " ");
        out = concat(with_space.as_str(), args[i].as_str());
        proof {
            let pre = av.subrange(0, i as int + 1);
            assert(pre.drop_last() =~= av.subrange(0, i as int));
            assert(pre.last() == av[i as int]);
        }
        i = i + 1;
    }
    proof {
        assert(av.subrange(0, av.len() as int) =~= av);
        if av.len() == 1 {
            assert(av.subrange(0, 1) =~= seq![av[0]]);
        }
    }
    Some(out)
}

/// The command a palette row runs.
pub open spec fn entry_command_spec(e: EntryV) -> Option<Command> {
    match e {
        EntryV::Command(c) => Some(c),
        EntryV::Value { tag: Tag::Context, .. } => Some(Command::Ctx),
        EntryV::Value { tag: Tag::Skin, .. } => Some(Command::Skin),
        EntryV::Value { tag: Tag::Nav { hide }, .. } => Some(if hide { Command::Hide } else { Command::Show }),
        _ => None,
    }
}

/// The command a palette row runs: a command row runs its own, a completed argument runs the
/// one it belongs to, and a kind or a page runs none.
pub fn entry_command(entry: &Entry) -> (r: Option<Command>)
    ensures
        r == entry_command_spec(entry@),
{
    match entry {
        Entry::Command(c) => Some(*c),
        Entry::Value { tag: Tag::Context, .. } => Some(Command::Ctx),
        Entry::Value { tag: Tag::Skin, .. } => Some(Command::Skin),
        Entry::Value { tag: Tag::Nav { hide }, .. } => Some(if *hide { Command::Hide } else { Command::Show }),
        _ => None,
    }
}

/// What a command line with the wrong number of arguments is told.
pub open spec fn arity_refusal_spec(command: Command, slots: nat) -> Seq<char> {
    ":"@ + label_spec(command) + if slots == 0 {
        " takes no argument"@
    } else if slots == 1 {
        " takes one name"@
    } else if slots == 2 {
        " takes two arguments"@
    } else {
        " takes "@ + decimal(slots) + " arguments"@
    }
}

/// `:ctx takes one name`, `:quit takes no argument`, `:can-i takes two arguments`: spelled,
/// not printed as a digit, up to the widest command there is.
pub fn arity_refusal(command: Command, slots: usize) -> (r: String)
    ensures
        r@ == arity_refusal_spec(command, slots as nat),
{
    let head = concat(":", command.label());
    if slots == 0 {
        concat(head.as_str(), " takes no argument")
    } else if slots == 1 {
        concat(head.as_str(), " takes one name")
    } else if slots == 2 {
        concat(head.as_str(), " takes two arguments")
    } else {
        let n = decimal_string(slots as u64);
        let t = concat(head.as_str(), " takes ");
        let t = concat(t.as_str(), n.as_str());
        let r = concat(t.as_str(), " arguments");
        proof {
            assert(r@ =~= arity_refusal_spec(command, slots as nat));
        }
        r
    }
}

/// One row of the activity screen's tables tab.
#[derive(Debug, Clone, PartialEq, Eq)]
pub struct TableLine {
    pub kind: KindRef,
    /// The parents or the filter that narrow it; empty for a top-level table listed whole.
    pub scope: String,
    pub rows: usize,
    pub total: Option<u64>,
    /// Seconds since the last completed cycle; `None` for a table that has never polled.
    pub age: Option<u64>,
    /// Where its rows came from: `cache`, `wire`, or `-` before either.
    pub from: String,
    pub state: String,
}

/// What narrows a table: nothing for a top-level table listed whole, `under a/b` for one under
/// parent rows, the filter itself for a filtered one.
pub open spec fn scope_spec(parents: Seq<Seq<char>>, filter: Option<Seq<char>>) -> Seq<char> {
    match filter {
        Some(f) => f,
        None => if parents.len() == 0 {
            Seq::empty()
        } else {
            "under "@ + join_with_slash(parents)
        },
    }
}

/// The words joined with `/`.
pub open spec fn join_with_slash(args: Seq<Seq<char>>) -> Seq<char>
    decreases args.len(),
{
    if args.len() == 0 {
        Seq::empty()
    } else if args.len() == 1 {
        args[0]
    } else {
        join_with_slash(args.drop_last()) + "/"@ + args.last()
    }
}

/// What narrows a table, as the tables tab prints it.
pub fn table_scope(parents: &Vec<String>, filter: Option<&str>) -> (r: String)
    ensures
        r@ == scope_spec(crate::catalog::strings_view(parents@), match filter {
            Some(f) => Some(f@),
            None => None,
        }),
{
    if let Some(f) = filter {
        return crate::ascii::string_of(crate::ascii::chars_of(f).as_slice());
    }
    if parents.len() == 0 {
        return String::new();
    }
    let ghost pv = crate::catalog::strings_view(parents@);
    let mut out = parents[0].clone();
    let mut i: usize = 1;
    while i < parents.len()
        invariant
            1 <= i <= parents@.len(),
            pv == crate::catalog::strings_view(parents@),
            out@ == join_with_slash(pv.subrange(0, i as int)),
        decreases parents.len() - i,
    {
        let with_slash = concat(out.as_str(), "/");
        out = concat(with_slash.as_str(), parents[i].as_str());
        proof {
            let pre = pv.subrange(0, i as int + 1);
            assert(pre.drop_last() =~= pv.subrange(0, i as int));
            assert(pre.last() == pv[i as int]);
        }
        i = i + 1;
    }
    proof {
        assert(pv.subrange(0, pv.len() as int) =~= pv);
        if pv.len() == 1 {
            assert(pv.subrange(0, 1) =~= seq![pv[0]]);
        }
    }
    concat("under ", out.as_str())
}

/// Where a table's rows came from.
pub open spec fn from_spec(restored: bool, polled: bool) -> Seq<char> {
    if restored { "cache"@ } else if polled { "wire"@ } else { "-"@ }
}

/// Where a table's rows came from: the cache it was restored from, the wire once it has
/// polled, `-` before either.
pub fn table_from(restored: bool, polled: bool) -> (r: String)
    ensures
        r@ == from_spec(restored, polled),
{
    let s = if restored { "cache" } else if polled { "wire" } else { "-" };
    crate::ascii::string_of(crate::ascii::chars_of(s).as_slice())
}

/// A table's state: `not served` before the error text, because a 404 sets both and the word is
/// the one the table's own title uses; then the error; then `loading`; then `ok`.
pub open spec fn state_spec(error: Option<Seq<char>>, not_served: bool, loading: bool) -> Seq<char> {
    if not_served {
        "not served"@
    } else {
        match error {
            Some(e) => e,
            None => if loading { "loading"@ } else { "ok"@ },
        }
    }
}

/// A table's state, as the tables tab prints it.
pub fn table_state(error: Option<&str>, not_served: bool, loading: bool) -> (r: String)
    ensures
        r@ == state_spec(match error {
            Some(e) => Some(e@),
            None => None,
        }, not_served, loading),
{
    let s = if not_served {
        "not served"
    } else {
        match error {
            Some(e) => e,
            None => if loading { "loading" } else { "ok" },
        }
    };
    crate::ascii::string_of(crate::ascii::chars_of(s).as_slice())
}

/// The order the tables tab lists in: most recently polled first, never polled last, then by
/// the kind's display name.
pub open spec fn line_le(a: (Option<u64>, Seq<char>), b: (Option<u64>, Seq<char>)) -> bool {
    let na = a.0 is None;
    let nb = b.0 is None;
    if na != nb {
        !na
    } else {
        let aa = match a.0 { Some(x) => x as int, None => 0 };
        let ab = match b.0 { Some(x) => x as int, None => 0 };
        if aa != ab { aa < ab } else { crate::palette::lex_le(a.1, b.1) }
    }
}

/// A line's sort key, as values.
pub open spec fn line_key(l: TableLine) -> (Option<u64>, Seq<char>) {
    (l.age, l.kind.display@)
}

/// The lines are in [`line_le`] order.
pub open spec fn lines_sorted(s: Seq<TableLine>) -> bool {
    forall|i: int, j: int| 0 <= i < j < s.len() ==> line_le(line_key(s[i]), line_key(s[j]))
}

/// Whether `a` sorts no later than `b`.
fn line_le_exec(a: &TableLine, b: &TableLine) -> (r: bool)
    ensures
        r == line_le(line_key(*a), line_key(*b)),
{
    let na = a.age.is_none();
    let nb = b.age.is_none();
    if na != nb {
        return !na;
    }
    let aa = match a.age { Some(x) => x, None => 0 };
    let ab = match b.age { Some(x) => x, None => 0 };
    if aa != ab {
        return aa < ab;
    }
    let da = crate::ascii::chars_of(a.kind.display.as_str());
    let db = crate::ascii::chars_of(b.kind.display.as_str());
    crate::palette::lex_le_exec(da.as_slice(), db.as_slice())
}

/// Of two keys, one sorts no later than the other.
proof fn lemma_line_le_total(a: (Option<u64>, Seq<char>), b: (Option<u64>, Seq<char>))
    ensures
        line_le(a, b) || line_le(b, a),
{
    crate::palette::lemma_lex_le_total(a.1, b.1);
}

/// The order is transitive.
proof fn lemma_line_le_trans(a: (Option<u64>, Seq<char>), b: (Option<u64>, Seq<char>), c: (Option<u64>, Seq<char>))
    requires
        line_le(a, b),
        line_le(b, c),
    ensures
        line_le(a, c),
{
    if a.0 == b.0 && b.0 == c.0 {
        crate::palette::lemma_lex_le_trans(a.1, b.1, c.1);
    }
}

/// The tables tab's order, as a relation on lines.
pub open spec fn by_line() -> spec_fn(TableLine, TableLine) -> bool {
    |a: TableLine, b: TableLine| line_le(line_key(a), line_key(b))
}

/// The tables tab's lines in [`line_le`] order: the same lines, sorted, with lines that tie
/// kept in the order they came in.
pub fn sort_tables(lines: Vec<TableLine>) -> (r: Vec<TableLine>)
    ensures
        lines_sorted(r@),
        r@.to_multiset() == lines@.to_multiset(),
        exists|p: Seq<int>| crate::menu::stable_order(lines@, r@, p, by_line()),
{
    broadcast use vstd::seq_lib::group_to_multiset_ensures;
    let ghost orig = lines@;
    let ghost n = orig.len();
    let mut out: Vec<TableLine> = Vec::new();
    let mut rest = lines;
    let ghost mut p: Seq<int> = Seq::empty();
    proof {
        assert(out@.to_multiset() =~= vstd::multiset::Multiset::empty());
        assert(rest@ =~= orig.subrange(0, n as int));
    }
    while rest.len() > 0
        invariant
            n == orig.len(),
            rest@.len() <= n,
            rest@ == orig.subrange(n - rest@.len(), n as int),
            lines_sorted(out@),
            out@.to_multiset().add(rest@.to_multiset()) == orig.to_multiset(),
            p.len() == out@.len() == n - rest@.len(),
            forall|i: int| 0 <= i < p.len() ==> 0 <= #[trigger] p[i] < p.len() && out@[i] == orig[p[i]],
            forall|i: int, j: int| 0 <= i < j < p.len() ==> p[i] != p[j],
            forall|k: int| 0 <= k < p.len() ==> #[trigger] crate::menu::placed(p, k),
            forall|i: int, j: int| 0 <= i < j < p.len() && line_le(line_key(out@[j]), line_key(out@[i])) ==> p[i] < p[j],
        decreases rest.len(),
    {
        let ghost k = n - rest@.len();
        let ghost old_rest = rest@;
        let x = rest.remove(0);
        proof {
            assert(x == old_rest[0]);
            assert(old_rest[0] == orig[k]);
            assert(old_rest.drop_first() =~= rest@);
            assert(old_rest =~= old_rest.drop_first().insert(0, x));
            crate::menu::lemma_seq_insert_multiset(old_rest.drop_first(), 0, x);
            assert(rest@ =~= orig.subrange(n - rest@.len(), n as int));
        }
        let mut at: usize = out.len();
        while at > 0 && !line_le_exec(&out[at - 1], &x)
            invariant
                at <= out@.len(),
                forall|k: int| at <= k < out@.len() ==> !line_le(line_key(#[trigger] out@[k]), line_key(x)),
            decreases at,
        {
            at = at - 1;
        }
        let ghost before = out@;
        let ghost pb = p;
        proof {
            assert forall|k: int| at <= k < before.len() implies line_le(line_key(x), line_key(before[k])) by {
                lemma_line_le_total(line_key(x), line_key(before[k]));
            }
        }
        out.insert(at, x);
        proof {
            let after = out@;
            assert forall|i: int, j: int| 0 <= i < j < after.len() implies line_le(line_key(after[i]), line_key(after[j])) by {
                if i < at && j < at {
                } else if i < at && j == at {
                    if i < at - 1 {
                        lemma_line_le_trans(line_key(before[i]), line_key(before[at - 1]), line_key(x));
                    }
                } else if i < at && j > at {
                    assert(after[j] == before[j - 1]);
                } else if i == at {
                    assert(after[j] == before[j - 1]);
                } else {
                    assert(after[i] == before[i - 1] && after[j] == before[j - 1]);
                }
            }
            crate::menu::lemma_seq_insert_multiset(before, at as int, x);
            p = pb.insert(at as int, k);
            assert forall|i: int| 0 <= i < p.len() implies 0 <= #[trigger] p[i] < p.len() && after[i] == orig[p[i]] by {
                if i < at {
                    assert(p[i] == pb[i]);
                } else if i > at {
                    assert(p[i] == pb[i - 1]);
                }
            }
            assert forall|i: int, j: int| 0 <= i < j < p.len() implies p[i] != p[j] by {
                if i < at && j > at {
                    assert(p[j] == pb[j - 1]);
                } else if i > at {
                    assert(p[i] == pb[i - 1] && p[j] == pb[j - 1]);
                } else if j < at {
                } else if i == at {
                    assert(p[j] == pb[j - 1]);
                }
            }
            assert forall|m: int| 0 <= m < p.len() implies #[trigger] crate::menu::placed(p, m) by {
                if m == k {
                    assert(p[at as int] == k);
                } else {
                    assert(crate::menu::placed(pb, m));
                    let i0 = choose|i: int| 0 <= i < pb.len() && #[trigger] pb[i] == m;
                    if i0 < at {
                        assert(p[i0] == m);
                    } else {
                        assert(p[i0 + 1] == m);
                    }
                }
            }
            assert forall|i: int, j: int| 0 <= i < j < p.len() && line_le(line_key(after[j]), line_key(after[i])) implies p[i] < p[j] by {
                if j < at {
                } else if i < at && j == at {
                } else if i < at && j > at {
                    assert(p[j] == pb[j - 1]);
                    assert(after[j] == before[j - 1]);
                } else if i == at {
                    assert(after[j] == before[j - 1]);
                } else {
                    assert(p[i] == pb[i - 1] && p[j] == pb[j - 1]);
                    assert(after[i] == before[i - 1] && after[j] == before[j - 1]);
                }
            }
        }
    }
    proof {
        assert(rest@.to_multiset() =~= vstd::multiset::Multiset::empty());
        assert(crate::menu::stable_order(orig, out@, p, by_line()));
    }
    out
}

} // verus!

verus! {

/// What the key router reads and writes of the application: the screen that is up and the one
/// help returns to, which pane has the keys, the quit flag and the redraw flag, the status line,
/// whether a session is live and has already warned about `q`, the menu's wish and whether it
/// was ever toggled, whether the frame is wide enough for the menu unasked, whether the Contexts
/// screen is under what is up, mouse capture, whether a page is open, and whether a term is
/// being typed in the menu's filter or in the table's.
pub struct Shell {
    pub mode: Mode,
    pub help_from: Mode,
    pub focus: Focus,
    pub quit: bool,
    pub dirty: bool,
    pub status: Option<String>,
    pub live: bool,
    pub quit_asked: bool,
    pub menu_visible: bool,
    pub menu_toggled: bool,
    pub wide: bool,
    pub on_contexts: bool,
    pub mouse_on: bool,
    pub page_open: bool,
    pub menu_filtering: bool,
    pub table_filtering: bool,
}

/// The router's state, as values.
pub struct ShellV {
    pub mode: Mode,
    pub help_from: Mode,
    pub focus: Focus,
    pub quit: bool,
    pub dirty: bool,
    pub status: Option<Seq<char>>,
    pub live: bool,
    pub quit_asked: bool,
    pub menu_visible: bool,
    pub menu_toggled: bool,
    pub wide: bool,
    pub on_contexts: bool,
    pub mouse_on: bool,
    pub page_open: bool,
    pub menu_filtering: bool,
    pub table_filtering: bool,
}

impl View for Shell {
    type V = ShellV;

    open spec fn view(&self) -> ShellV {
        ShellV {
            mode: self.mode,
            help_from: self.help_from,
            focus: self.focus,
            quit: self.quit,
            dirty: self.dirty,
            status: crate::catalog::opt_view(self.status),
            live: self.live,
            quit_asked: self.quit_asked,
            menu_visible: self.menu_visible,
            menu_toggled: self.menu_toggled,
            wide: self.wide,
            on_contexts: self.on_contexts,
            mouse_on: self.mouse_on,
            page_open: self.page_open,
            menu_filtering: self.menu_filtering,
            table_filtering: self.table_filtering,
        }
    }
}

/// Whether the menu is on the frame: wished for, not over the Contexts screen, and either the
/// frame is wide enough or the user asked for it with `ctrl-b`.
pub open spec fn menu_shown(s: ShellV) -> bool {
    s.menu_visible && !s.on_contexts && (s.wide || s.menu_toggled)
}

/// Whether the body has the keys: it is focused, or the menu is not on the frame to have them.
pub open spec fn body_focused(s: ShellV) -> bool {
    s.focus == Focus::Body || !menu_shown(s)
}

/// Where a key went.
#[derive(Debug, Clone, Copy, PartialEq, Eq, Structural)]
pub enum Route {
    /// `ctrl-c`: the application quits, from any screen.
    Quit,
    /// The router used the key itself.
    Handled,
    /// `tab` from the body: the menu takes the keys; a standing `/` term stops taking them.
    FocusMenu,
    /// A digit: the menu opens and takes the keys, and jumps to the group the digit names.
    Jump(u32),
    /// The menu has the keys: the key is the sidebar's.
    Sidebar,
    /// The key is for the screen that is up.
    Screen(Mode),
}

/// The status line `ctrl-o` leaves.
pub open spec fn mouse_status(on: bool) -> Seq<char> {
    if on { "mouse on"@ } else { "mouse off (shift-drag also selects text in most terminals)"@ }
}

/// Whether `c` is an ASCII digit.
pub open spec fn is_digit_char(c: char) -> bool {
    '0' <= c && c <= '9'
}

/// Whether a key types a digit.
pub open spec fn is_digit_key(key: Key) -> bool {
    match key {
        Key::Char(c) => is_digit_char(c),
        _ => false,
    }
}

/// The value of the digit a key types.
#[verifier::opaque]
pub open spec fn digit_of_key(key: Key) -> u32 {
    match key {
        Key::Char(c) => (c as u32 - 48) as u32,
        _ => 0,
    }
}

/// The value of a digit character.
fn digit_value(c: char) -> (r: u32)
    requires
        is_digit_char(c),
    ensures
        r == digit_of_key(Key::Char(c)),
        r < 10,
{
    proof {
        reveal(digit_of_key);
    }
    c as u32 - 48
}

/// Where one key goes and what it does to the router's state. Every key asks for a redraw.
/// `ctrl-c` quits from anywhere, before anything else. Any other key clears the last status
/// line and, unless it is `q`, the standing quit warning. Over the table, `ctrl-b` shows or
/// hides the menu as the frame shows it, `ctrl-o` flips mouse capture, `tab` hands the keys to
/// the menu when no page owns it, and a digit - while no term is typed - jumps to a menu group.
/// Then a focused menu takes the key; on the help screen `esc`, `?` and `q` go back; otherwise
/// the key is the screen's.
pub open spec fn route_spec(old: ShellV, key: Key) -> (ShellV, Route) {
    if key == Key::Ctrl('c') {
        (ShellV { quit: true, dirty: true, ..old }, Route::Quit)
    } else {
        routed(begun(old, key), key)
    }
}

/// What every key but `ctrl-c` does first: ask for a redraw, clear the status line, and -
/// unless it is `q` - the standing quit warning.
pub open spec fn begun(old: ShellV, key: Key) -> ShellV {
    ShellV {
        dirty: true,
        status: None,
        quit_asked: if key != Key::Char('q') && old.live { false } else { old.quit_asked },
        ..old
    }
}

/// Where a key goes once it has begun.
pub open spec fn routed(base: ShellV, key: Key) -> (ShellV, Route) {
    if base.mode == Mode::Table && table_route(base, key) is Some {
        table_route(base, key)->0
    } else if !body_focused(base) && base.mode == Mode::Table {
        (base, Route::Sidebar)
    } else if base.mode == Mode::Help {
        if key == Key::Esc || key == Key::Char('?') || key == Key::Char('q') {
            (ShellV { mode: base.help_from, ..base }, Route::Handled)
        } else {
            (base, Route::Handled)
        }
    } else {
        (base, Route::Screen(base.mode))
    }
}

/// The keys the router itself binds over the table, and what each does; `None` for a key it
/// leaves alone.
#[verifier::opaque]
pub open spec fn table_route(old: ShellV, key: Key) -> Option<(ShellV, Route)> {
    if key == Key::Ctrl('b') {
        let shown = menu_shown(old);
        Some((ShellV { menu_visible: !shown, menu_toggled: true, focus: if shown { Focus::Body } else { old.focus }, ..old }, Route::Handled))
    } else if key == Key::Ctrl('o') {
        Some((ShellV { mouse_on: !old.mouse_on, status: Some(mouse_status(!old.mouse_on)), ..old }, Route::Handled))
    } else if key == Key::Tab && old.focus == Focus::Body && menu_shown(old) && !old.page_open {
        Some((ShellV { focus: Focus::Sidebar, table_filtering: false, ..old }, Route::FocusMenu))
    } else if is_digit_key(key) && !old.menu_filtering && !old.table_filtering {
        Some((ShellV { menu_visible: true, menu_toggled: true, focus: Focus::Sidebar, table_filtering: false, ..old }, Route::Jump(digit_of_key(key))))
    } else {
        None
    }
}

/// `ctrl-c` quits from any screen, whatever has the keys, and changes nothing else but asking
/// for a last frame.
pub proof fn ctrl_c_quits_from_anywhere(s: ShellV)
    ensures
        route_spec(s, Key::Ctrl('c')) == (ShellV { quit: true, dirty: true, ..s }, Route::Quit),
{
}

/// Every key asks for a redraw, and every key but `ctrl-c` and `ctrl-o` leaves the status line
/// empty: a message lasts until the next key.
pub proof fn keys_redraw_and_clear_the_status(s: ShellV, key: Key)
    ensures
        route_spec(s, key).0.dirty,
        key != Key::Ctrl('c') && key != Key::Ctrl('o') ==> route_spec(s, key).0.status is None,
{
    reveal(table_route);
}

/// The status line `ctrl-o` leaves.
fn mouse_message(on: bool) -> (r: String)
    ensures
        r@ == mouse_status(on),
{
    if on {
        proof {
            reveal_strlit("mouse on");
        }
        "mouse on".to_string()
    } else {
        proof {
            reveal_strlit("mouse off (shift-drag also selects text in most terminals)");
        }
        "mouse off (shift-drag also selects text in most terminals)".to_string()
    }
}

impl Shell {
    /// Whether the menu is on the frame.
    pub fn menu_shown(&self) -> (r: bool)
        ensures
            r == menu_shown(self@),
    {
        self.menu_visible && !self.on_contexts && (self.wide || self.menu_toggled)
    }

    /// Every key asks for a redraw and clears the last status line; any key but `q` clears the
    /// standing quit warning.
    fn begin(&mut self, key: Key)
        ensures
            final(self)@ == begun(old(self)@, key),
    {
        self.dirty = true;
        self.status = None;
        if key != Key::Char('q') && self.live {
            self.quit_asked = false;
        }
    }

    /// The keys the router itself binds over the table, or `None` for a key it leaves alone.
    #[verifier::rlimit(100)]
    fn table_key(&mut self, key: Key) -> (r: Option<Route>)
        requires
            old(self).mode == Mode::Table,
        ensures
            match table_route(old(self)@, key) {
                Some((v, rt)) => r == Some(rt) && final(self)@ == v,
                None => r is None && final(self)@ == old(self)@,
            },
    {
        proof {
            reveal(table_route);
        }
        match key {
            Key::Ctrl('b') => {
                let shown = self.menu_shown();
                self.menu_visible = !shown;
                self.menu_toggled = true;
                if shown {
                    self.focus = Focus::Body;
                }
                Some(Route::Handled)
            },
            Key::Ctrl('o') => {
                self.mouse_on = !self.mouse_on;
                self.status = Some(mouse_message(self.mouse_on));
                Some(Route::Handled)
            },
            Key::Tab => {
                if self.focus == Focus::Body && self.menu_shown() && !self.page_open {
                    self.focus = Focus::Sidebar;
                    self.table_filtering = false;
                    Some(Route::FocusMenu)
                } else {
                    None
                }
            },
            Key::Char(c) => {
                if '0' <= c && c <= '9' && !self.menu_filtering && !self.table_filtering {
                    self.menu_visible = true;
                    self.menu_toggled = true;
                    self.focus = Focus::Sidebar;
                    self.table_filtering = false;
                    Some(Route::Jump(digit_value(c)))
                } else {
                    None
                }
            },
            _ => None,
        }
    }

    /// One key: where it goes, and what it does to the router's state on the way.
    pub fn route(&mut self, key: Key) -> (r: Route)
        ensures
            final(self)@ == route_spec(old(self)@, key).0,
            r == route_spec(old(self)@, key).1,
    {
        if key == Key::Ctrl('c') {
            self.dirty = true;
            self.quit = true;
            return Route::Quit;
        }
        self.begin(key);
        self.dispatch(key)
    }

    /// Open a kind as the root table. `reach` is why the catalog greys the kind, if it does,
    /// and `unavailable` why this session cannot serve it. A greyed kind explains instead and
    /// leaves the screen alone; otherwise the application drops the stack and every modal and
    /// pushes the table, and the table is up.
    pub fn open_root(&mut self, reach: Option<String>, unavailable: Option<String>) -> (r: Open)
        ensures
            match reach {
                Some(why) => r matches Open::Greyed(g) && g@ == why@ && final(self)@ == old(self)@,
                None => if !old(self).live {
                    r matches Open::Greyed(g) && g@ == "not connected"@ && final(self)@ == old(self)@
                } else {
                    match unavailable {
                        Some(why) => r matches Open::Greyed(g) && g@ == why@ && final(self)@ == old(self)@,
                        None => r == Open::Opened && final(self)@ == (ShellV { mode: Mode::Table, dirty: true, ..old(self)@ }),
                    }
                },
            },
    {
        if let Some(why) = reach {
            return Open::Greyed(why);
        }
        if !self.live {
            proof {
                reveal_strlit("not connected");
            }
            return Open::Greyed("not connected".to_string());
        }
        if let Some(why) = unavailable {
            return Open::Greyed(why);
        }
        self.mode = Mode::Table;
        self.dirty = true;
        Open::Opened
    }

    /// Open a feature page as the root view. A page has no reach of its own - a pane the
    /// session cannot serve says so inside its block - so only a missing session greys it.
    pub fn open_page(&mut self) -> (r: Open)
        ensures
            !old(self).live ==> (r matches Open::Greyed(g) && g@ == "not connected"@ && final(self)@ == old(self)@),
            old(self).live ==> r == Open::Opened && final(self)@ == (ShellV { mode: Mode::Table, dirty: true, ..old(self)@ }),
    {
        if !self.live {
            proof {
                reveal_strlit("not connected");
            }
            return Open::Greyed("not connected".to_string());
        }
        self.mode = Mode::Table;
        self.dirty = true;
        Open::Opened
    }

    /// Where a key goes once it has begun.
    fn dispatch(&mut self, key: Key) -> (r: Route)
        ensures
            final(self)@ == routed(old(self)@, key).0,
            r == routed(old(self)@, key).1,
    {
        if self.mode == Mode::Table {
            if let Some(r) = self.table_key(key) {
                return r;
            }
        }
        let body = self.focus == Focus::Body || !self.menu_shown();
        if !body && self.mode == Mode::Table {
            return Route::Sidebar;
        }
        if self.mode == Mode::Help {
            if key == Key::Esc || key == Key::Char('?') || key == Key::Char('q') {
                self.mode = self.help_from;
            }
            return Route::Handled;
        }
        Route::Screen(self.mode)
    }
}

/// What `q` comes to with `running` tasks still running: quit when there are none or when the
/// warning was already given; otherwise warn once.
pub open spec fn quit_spec(old: ShellV, running: nat) -> ShellV {
    if running == 0 || (old.live && old.quit_asked) {
        ShellV { quit: true, ..old }
    } else {
        ShellV {
            quit_asked: if old.live { true } else { old.quit_asked },
            status: Some(decimal(running) + (if running == 1 { " task"@ } else { " tasks"@ }) + " still running; press q again to quit"@),
            ..old
        }
    }
}

impl Shell {
    /// `q` with unfinished watches asks once; a second `q` quits. `running` is how many watched
    /// tasks the session still has running. Nothing is cancelled on the way out.
    pub fn request_quit(&mut self, running: usize)
        ensures
            final(self)@ == quit_spec(old(self)@, running as nat),
    {
        if running == 0 || (self.live && self.quit_asked) {
            self.quit = true;
            return;
        }
        if self.live {
            self.quit_asked = true;
        }
        let n = decimal_string(running as u64);
        let noun = if running == 1 { " task" } else { " tasks" };
        let head = concat(n.as_str(), noun);
        proof {
            reveal_strlit(" task");
            reveal_strlit(" tasks");
            reveal_strlit(" still running; press q again to quit");
        }
        self.status = Some(concat(head.as_str(), " still running; press q again to quit"));
    }
}

/// What `enter` on a palette row asks the application to do.
#[derive(Debug, Clone, PartialEq, Eq)]
pub enum Chosen {
    /// Too many words for the command: the status line says so and nothing runs.
    Refused(String),
    Quit,
    /// The help screen, over the screen that is up.
    Help,
    /// Run the command with these words.
    Run(Command, Vec<String>),
    /// `:skin`, with its first word.
    Skin(Option<String>),
    /// A completed skin name: apply it.
    ApplySkin(String),
    /// `:search`, with the rest of the line as one term.
    Search(String),
    /// `:hide` (`true`) or `:show`, with the rest of the line as one name.
    Nav(Option<String>, bool),
    /// A kind reached only from a row of its parent: open the parent and say which row to use.
    OpenParentOf(KindRef),
    /// Open this kind.
    OpenKind(KindRef),
    /// Open this page.
    OpenPage(crate::catalog::PageRef),
    /// Nothing to open: the status line says why.
    Status(String),
}

/// The first word, if there is one.
pub open spec fn first_word(args: Seq<Seq<char>>) -> Option<Seq<char>> {
    if args.len() > 0 { Some(args[0]) } else { None }
}

/// Whether `r` is what `enter` on row `e` with the words `args` asks for. A command given more
/// words than it takes - and not one whose last slot swallows the rest of the line - is
/// refused first. Otherwise each command asks for its own work, a completed argument runs the
/// command it belongs to, a kind or page opens, and a greyed row says why.
pub open spec fn chosen_spec(e: EntryV, args: Seq<Seq<char>>, r: Chosen) -> bool {
    match entry_command_spec(e) {
        Some(c) if args.len() > slots_spec(c).len() && !rest_of_line_spec(c) =>
            r matches Chosen::Refused(m) && m@ == arity_refusal_spec(c, slots_spec(c).len()),
        _ => match e {
            EntryV::Command(c) => match c {
                Command::Quit => r == Chosen::Quit,
                Command::Help => r == Chosen::Help,
                Command::Skin => r matches Chosen::Skin(w) && crate::catalog::opt_view(w) == first_word(args),
                Command::Search => r matches Chosen::Search(t) && t@ == join_words(args),
                Command::Hide | Command::Show => r matches Chosen::Nav(n, hide) && hide == (c == Command::Hide)
                    && crate::catalog::opt_view(n) == (if args.len() == 0 { None } else { Some(join_words(args)) }),
                _ => r matches Chosen::Run(rc, words) && rc == c && crate::catalog::strings_view(words@) == args,
            },
            EntryV::Value { text, tag } => match tag {
                Tag::Context => r matches Chosen::Run(rc, words) && rc == Command::Ctx && crate::catalog::strings_view(words@) == seq![text],
                Tag::Skin => r matches Chosen::ApplySkin(t) && t@ == text,
                Tag::Nav { hide } => r matches Chosen::Nav(n, h) && h == hide && crate::catalog::opt_view(n) == Some(text),
                Tag::Interval => r matches Chosen::Run(rc, words) && rc == Command::Refresh && crate::catalog::strings_view(words@) == seq![text],
                Tag::Level => r matches Chosen::Run(rc, words) && rc == Command::Log && crate::catalog::strings_view(words@) == seq![text],
            },
            EntryV::Kind { kind, reason } => match reason {
                Some(why) => if kind.reach == crate::catalog::Reach::FromParent {
                    r matches Chosen::OpenParentOf(k) && k@ == kind
                } else {
                    r matches Chosen::Status(m) && m@ == why
                },
                None => r matches Chosen::OpenKind(k) && k@ == kind,
            },
            EntryV::Page(p) => r matches Chosen::OpenPage(q) && q@ == p,
            EntryV::Missing(item) => r matches Chosen::Status(m) && m@ == item.label + ": "@ + match item.note {
                Some(note) => note,
                None => "nothing to open"@,
            },
        },
    }
}

/// Whether a command's last slot takes the rest of the line.
pub open spec fn rest_of_line_spec(c: Command) -> bool {
    c == Command::Hide || c == Command::Show || c == Command::Search
}

/// One word as a list of one.
fn one_word(text: &String) -> (r: Vec<String>)
    ensures
        crate::catalog::strings_view(r@) == seq![text@],
{
    let mut r: Vec<String> = Vec::new();
    r.push(text.clone());
    proof {
        assert(crate::catalog::strings_view(r@) =~= seq![text@]);
    }
    r
}

/// The words joined with single spaces; nothing for no words.
fn join_all(args: &Vec<String>) -> (r: String)
    ensures
        r@ == join_words(crate::catalog::strings_view(args@)),
{
    match joined(crate::catalog::copy_strings(args)) {
        Some(s) => s,
        None => String::new(),
    }
}

/// What `enter` in the palette asks for, for the row under the cursor and every word after the
/// command word.
pub fn choose_entry(entry: &Entry, args: Vec<String>) -> (r: Chosen)
    ensures
        chosen_spec(entry@, crate::catalog::strings_view(args@), r),
{
    let ghost av = crate::catalog::strings_view(args@);
    if let Some(command) = entry_command(entry) {
        let slots = command.slots().len();
        if args.len() > slots && !command.rest_of_line() {
            return Chosen::Refused(arity_refusal(command, slots));
        }
    }
    match entry {
        Entry::Command(c) => match c {
            Command::Quit => Chosen::Quit,
            Command::Help => Chosen::Help,
            Command::Skin => Chosen::Skin(if args.len() > 0 { Some(args[0].clone()) } else { None }),
            Command::Search => Chosen::Search(join_all(&args)),
            Command::Hide | Command::Show => {
                let name = joined(args);
                Chosen::Nav(name, *c == Command::Hide)
            },
            _ => Chosen::Run(*c, args),
        },
        Entry::Value { text, tag } => match tag {
            Tag::Context => Chosen::Run(Command::Ctx, one_word(text)),
            Tag::Skin => Chosen::ApplySkin(text.clone()),
            Tag::Nav { hide } => Chosen::Nav(Some(text.clone()), *hide),
            Tag::Interval => Chosen::Run(Command::Refresh, one_word(text)),
            Tag::Level => Chosen::Run(Command::Log, one_word(text)),
        },
        Entry::Kind { kind, reason } => match reason {
            Some(why) => if kind.reach == crate::catalog::Reach::FromParent {
                Chosen::OpenParentOf(kind.duplicate())
            } else {
                Chosen::Status(why.clone())
            },
            None => Chosen::OpenKind(kind.duplicate()),
        },
        Entry::Page(p) => Chosen::OpenPage(p.duplicate()),
        Entry::Missing(item) => {
            proof {
                reveal_strlit(": ");
                reveal_strlit("nothing to open");
            }
            let head = concat(item.label.as_str(), ": ");
            match &item.note {
                Some(note) => Chosen::Status(concat(head.as_str(), note.as_str())),
                None => Chosen::Status(concat(head.as_str(), "nothing to open")),
            }
        },
    }
}

/// What opening the parent of a kind reached only from its parent's rows says.
pub open spec fn parent_hint_spec(kind: Seq<char>, parent: Seq<char>) -> Seq<char> {
    "open "@ + kind + " from a row of "@ + parent + ": pick one and press enter"@
}

/// The status line after a child kind's parent opened in its place.
pub fn parent_hint(kind: &str, parent: &str) -> (r: String)
    ensures
        r@ == parent_hint_spec(kind@, parent@),
{
    proof {
        reveal_strlit("open ");
        reveal_strlit(" from a row of ");
        reveal_strlit(": pick one and press enter");
    }
    let a = concat("open ", kind);
    let b = concat(a.as_str(), " from a row of ");
    let c = concat(b.as_str(), parent);
    concat(c.as_str(), ": pick one and press enter")
}

/// What `:all` says, having flipped to `all`: how much it shows, and the one thing it never
/// does - undo what the user hid by hand.
pub open spec fn all_status_spec(all: bool, hidden: nat, hide_unserved: bool) -> Seq<char> {
    if all {
        if hidden == 0 {
            "showing every kind this session"@
        } else {
            "showing every kind this session except the "@ + decimal(hidden) + " you hid"@
        }
    } else if hide_unserved {
        "hiding what this Prism Central does not serve"@
    } else {
        "nothing is hidden but what you asked for"@
    }
}

/// `:all`: the flag flipped, and the status line that says what it now means.
pub fn toggle_all(all: bool, hidden: usize, hide_unserved: bool) -> (r: (bool, String))
    ensures
        r.0 == !all,
        r.1@ == all_status_spec(!all, hidden as nat, hide_unserved),
{
    let now = !all;
    proof {
        reveal_strlit("showing every kind this session");
        reveal_strlit("showing every kind this session except the ");
        reveal_strlit(" you hid");
        reveal_strlit("hiding what this Prism Central does not serve");
        reveal_strlit("nothing is hidden but what you asked for");
    }
    let text = if now {
        if hidden == 0 {
            "showing every kind this session".to_string()
        } else {
            let a = concat("showing every kind this session except the ", decimal_string(hidden as u64).as_str());
            concat(a.as_str(), " you hid")
        }
    } else if hide_unserved {
        "hiding what this Prism Central does not serve".to_string()
    } else {
        "nothing is hidden but what you asked for".to_string()
    };
    (now, text)
}

/// What an answer of the settings screen asks the application to do.
#[derive(Debug, Clone, PartialEq, Eq)]
pub enum SettingsEffect {
    Nothing,
    /// Close the screen and go back to where it was opened from.
    Close,
    /// Say this on the status line.
    Status(String),
    /// The skin list, over the settings screen.
    OpenSkins,
    /// Close the screen and open the palette on `hide `.
    AddHide,
    /// Take this entry off the `[nav] hide` list, then rebuild the screen.
    Unhide(String),
    /// Ask every view for a cycle now.
    RefreshAll,
    /// Rebuild the screen: the set of open namespaces changed.
    Reopen,
    /// Step this namespace's refresh ladder.
    CycleNamespace(String),
    /// Step the refresh ladder of this kind, or the default one.
    CycleRefresh(Option<String>),
    /// Run the command that owns this setting, then rebuild the screen.
    Cycle(crate::settings::SettingId),
    /// Write this switch, then rebuild the screen.
    SetFlag(crate::settings::SettingId, bool),
}

/// `open` with `ns` in it when it was not, and without it when it was.
pub open spec fn toggled_set(old: Seq<Seq<char>>, new: Seq<Seq<char>>, ns: Seq<char>) -> bool {
    forall|x: Seq<char>| #[trigger] new.contains(x) <==> (if x == ns { !old.contains(ns) } else { old.contains(x) })
}

/// What each answer of the settings screen comes to.
pub open spec fn settings_effect_spec(a: crate::settings::Action, r: SettingsEffect) -> bool {
    match a {
        SettingsAction::Moved | SettingsAction::Ignored => r == SettingsEffect::Nothing,
        SettingsAction::Cancelled => r == SettingsEffect::Close,
        SettingsAction::Fixed(why) => r matches SettingsEffect::Status(m) && m@ == why@,
        SettingsAction::Skins => r == SettingsEffect::OpenSkins,
        SettingsAction::Add => r == SettingsEffect::AddHide,
        SettingsAction::Remove(name) => r matches SettingsEffect::Unhide(n) && n@ == name@,
        SettingsAction::RefreshAll => r == SettingsEffect::RefreshAll,
        SettingsAction::Expand(_) => r == SettingsEffect::Reopen,
        SettingsAction::CycledNamespace(ns) => r matches SettingsEffect::CycleNamespace(n) && n@ == ns@,
        SettingsAction::Cycled(_, kind) => r matches SettingsEffect::CycleRefresh(k) && crate::catalog::opt_view(k) == crate::catalog::opt_view(kind),
        SettingsAction::Cycle(id) => r == SettingsEffect::Cycle(id),
        SettingsAction::Toggled(id, on) => r == SettingsEffect::SetFlag(id, on),
    }
}

/// One answer of the settings screen: what the application does with it. `enter` on a
/// namespace shows or hides its kinds, so it flips that namespace in `open`; nothing else
/// touches `open`.
pub fn settings_step(open: &mut Vec<String>, a: crate::settings::Action) -> (r: SettingsEffect)
    ensures
        settings_effect_spec(a, r),
        a matches SettingsAction::Expand(ns) ==> toggled_set(
            crate::catalog::strings_view(old(open)@),
            crate::catalog::strings_view(final(open)@),
            ns@,
        ),
        !(a is Expand) ==> final(open)@ == old(open)@,
{
    match a {
        SettingsAction::Moved | SettingsAction::Ignored => SettingsEffect::Nothing,
        SettingsAction::Cancelled => SettingsEffect::Close,
        SettingsAction::Fixed(why) => SettingsEffect::Status(why),
        SettingsAction::Skins => SettingsEffect::OpenSkins,
        SettingsAction::Add => SettingsEffect::AddHide,
        SettingsAction::Remove(name) => SettingsEffect::Unhide(name),
        SettingsAction::RefreshAll => SettingsEffect::RefreshAll,
        SettingsAction::Expand(ns) => {
            flip(open, &ns);
            SettingsEffect::Reopen
        },
        SettingsAction::CycledNamespace(ns) => SettingsEffect::CycleNamespace(ns),
        SettingsAction::Cycled(_, kind) => SettingsEffect::CycleRefresh(kind),
        SettingsAction::Cycle(id) => SettingsEffect::Cycle(id),
        SettingsAction::Toggled(id, on) => SettingsEffect::SetFlag(id, on),
    }
}

/// Takes `ns` out of `open` when it is there, and puts it in when it is not.
fn flip(open: &mut Vec<String>, ns: &String)
    ensures
        toggled_set(crate::catalog::strings_view(old(open)@), crate::catalog::strings_view(final(open)@), ns@),
{
    let ghost ov = crate::catalog::strings_view(open@);
    let mut kept: Vec<String> = Vec::new();
    let mut found = false;
    let mut i: usize = 0;
    while i < open.len()
        invariant
            i <= open@.len(),
            ov == crate::catalog::strings_view(open@),
            found == ov.subrange(0, i as int).contains(ns@),
            forall|x: Seq<char>| #[trigger] crate::catalog::strings_view(kept@).contains(x)
                <==> (x != ns@ && ov.subrange(0, i as int).contains(x)),
        decreases open.len() - i,
    {
        let ghost before = crate::catalog::strings_view(kept@);
        let ghost pre = ov.subrange(0, i as int);
        let ghost next = ov.subrange(0, i as int + 1);
        proof {
            assert(next =~= pre.push(ov[i as int]));
            assert(ov[i as int] == open@[i as int]@);
        }
        if crate::ascii::str_eq(open[i].as_str(), ns.as_str()) {
            found = true;
            proof {
                assert forall|x: Seq<char>| #[trigger] crate::catalog::strings_view(kept@).contains(x)
                    <==> (x != ns@ && next.contains(x)) by {
                    if next.contains(x) && x != ns@ {
                        let w = choose|w: int| 0 <= w < next.len() && next[w] == x;
                        if w < pre.len() {
                            assert(pre[w] == x);
                        }
                    }
                    if pre.contains(x) {
                        let w = choose|w: int| 0 <= w < pre.len() && pre[w] == x;
                        assert(next[w] == x);
                    }
                }
                assert(next[i as int] == ns@);
            }
        } else {
            kept.push(open[i].clone());
            proof {
                let after = crate::catalog::strings_view(kept@);
                assert(after =~= before.push(ov[i as int]));
                assert(ov[i as int] != ns@);
                assert forall|x: Seq<char>| #[trigger] after.contains(x) <==> (x != ns@ && next.contains(x)) by {
                    if after.contains(x) {
                        let w = choose|w: int| 0 <= w < after.len() && after[w] == x;
                        if w < before.len() {
                            assert(before[w] == x);
                            assert(before.contains(x));
                            let v = choose|v: int| 0 <= v < pre.len() && pre[v] == x;
                            assert(next[v] == x);
                        } else {
                            assert(after[w] == ov[i as int]);
                            assert(next[i as int] == x);
                        }
                    }
                    if next.contains(x) && x != ns@ {
                        let w = choose|w: int| 0 <= w < next.len() && next[w] == x;
                        if w < pre.len() {
                            assert(pre[w] == x);
                            assert(before.contains(x));
                            let v = choose|v: int| 0 <= v < before.len() && before[v] == x;
                            assert(after[v] == x);
                        } else {
                            assert(after[before.len() as int] == x);
                        }
                    }
                }
                if found {
                    let w = choose|w: int| 0 <= w < pre.len() && pre[w] == ns@;
                    assert(next[w] == ns@);
                }
                if next.contains(ns@) {
                    let w = choose|w: int| 0 <= w < next.len() && next[w] == ns@;
                    if w < pre.len() {
                        assert(pre[w] == ns@);
                    }
                }
            }
        }
        i = i + 1;
    }
    proof {
        assert(ov.subrange(0, ov.len() as int) =~= ov);
        assert(found == ov.contains(ns@));
        assert forall|x: Seq<char>| #[trigger] crate::catalog::strings_view(kept@).contains(x)
            <==> (x != ns@ && ov.contains(x)) by {
            assert(ov.subrange(0, i as int) == ov);
        }
    }
    if !found {
        let ghost before = crate::catalog::strings_view(kept@);
        kept.push(ns.clone());
        proof {
            let after = crate::catalog::strings_view(kept@);
            assert(after =~= before.push(ns@));
            assert(!ov.contains(ns@));
            assert forall|x: Seq<char>| #[trigger] after.contains(x) <==> (if x == ns@ { !ov.contains(ns@) } else { ov.contains(x) }) by {
                if after.contains(x) {
                    let w = choose|w: int| 0 <= w < after.len() && after[w] == x;
                    if w < before.len() {
                        assert(before[w] == x);
                        assert(before.contains(x));
                    }
                }
                if x == ns@ {
                    assert(after[before.len() as int] == ns@);
                } else if ov.contains(x) {
                    assert(before.contains(x));
                    let v = choose|v: int| 0 <= v < before.len() && before[v] == x;
                    assert(after[v] == x);
                }
            }
        }
    }
    *open = kept;
}

/// What `RefreshAll` says, for the number of views it asked for a cycle.
pub open spec fn refresh_status_spec(n: nat) -> Seq<char> {
    if n == 0 {
        "nothing subscribed to refresh"@
    } else if n == 1 {
        "refreshing 1 view"@
    } else {
        "refreshing "@ + decimal(n) + " views"@
    }
}

/// The status line after the settings screen asked `n` views for a cycle now.
pub fn refresh_status(n: usize) -> (r: String)
    ensures
        r@ == refresh_status_spec(n as nat),
{
    proof {
        reveal_strlit("nothing subscribed to refresh");
        reveal_strlit("refreshing 1 view");
        reveal_strlit("refreshing ");
        reveal_strlit(" views");
    }
    if n == 0 {
        "nothing subscribed to refresh".to_string()
    } else if n == 1 {
        "refreshing 1 view".to_string()
    } else {
        let a = concat("refreshing ", decimal_string(n as u64).as_str());
        concat(a.as_str(), " views")
    }
}

/// What writing a switch says: its label and its new state, or why it was not saved.
pub open spec fn flag_status_spec(label: Seq<char>, on: bool, error: Option<Seq<char>>) -> Seq<char> {
    match error {
        None => label + " "@ + (if on { "on"@ } else { "off"@ }),
        Some(e) => label + " not saved: "@ + e,
    }
}

/// The status line after a switch was written, or failed to be: `error` is the writer's own
/// account of the failure.
pub fn flag_status(label: &str, on: bool, error: Option<&str>) -> (r: String)
    ensures
        r@ == flag_status_spec(label@, on, match error {
            Some(e) => Some(e@),
            None => None,
        }),
{
    proof {
        reveal_strlit(" ");
        reveal_strlit("on");
        reveal_strlit("off");
        reveal_strlit(" not saved: ");
    }
    match error {
        None => {
            let a = concat(label, " ");
            concat(a.as_str(), if on { "on" } else { "off" })
        },
        Some(e) => {
            let a = concat(label, " not saved: ");
            concat(a.as_str(), e)
        },
    }
}


/// What a palette answer comes to.
#[derive(Debug, Clone, PartialEq, Eq)]
pub enum PaletteStep {
    /// The line or the cursor changed: rank again.
    Rerank,
    Nothing,
    /// The palette closed and the screen it was opened over is back.
    Closed,
    /// The palette closed on a row: the trimmed line goes into the history before the command
    /// runs - a `:ctx other` swaps the history with the session - and then this.
    Chose { line: String, chosen: Chosen },
}

/// One answer of the palette. `from` is the screen it was opened over and `line` what was on
/// it when the answer came.
#[verifier::rlimit(50)]
pub fn palette_step(s: &mut Shell, from: Mode, a: PaletteAction, line: &str) -> (r: PaletteStep)
    ensures
        match a {
            PaletteAction::Edited | PaletteAction::Moved | PaletteAction::Completed => r == PaletteStep::Rerank && final(s)@ == old(s)@,
            PaletteAction::Ignored => r == PaletteStep::Nothing && final(s)@ == old(s)@,
            PaletteAction::Cancelled => r == PaletteStep::Closed && final(s)@ == (ShellV { mode: from, ..old(s)@ }),
            PaletteAction::Chose(e, args) => {
                &&& final(s)@ == (ShellV { mode: from, ..old(s)@ })
                &&& r matches PaletteStep::Chose { line: l, chosen } && l@ == crate::text::trimmed(line@)
                    && chosen_spec(e@, crate::catalog::strings_view(args@), chosen)
            },
        },
{
    match a {
        PaletteAction::Edited | PaletteAction::Moved | PaletteAction::Completed => PaletteStep::Rerank,
        PaletteAction::Ignored => PaletteStep::Nothing,
        PaletteAction::Cancelled => {
            s.mode = from;
            PaletteStep::Closed
        },
        PaletteAction::Chose(e, args) => {
            s.mode = from;
            let l = trimmed_line(line);
            let chosen = choose_entry(&e, args);
            PaletteStep::Chose { line: l, chosen }
        },
    }
}

/// The line with its surrounding blanks gone.
fn trimmed_line(line: &str) -> (r: String)
    ensures
        r@ == crate::text::trimmed(line@),
{
    let chars = crate::ascii::chars_of(line);
    let t = crate::text::trim_chars(chars.as_slice());
    crate::ascii::string_of(t.as_slice())
}


/// What a key over the detail pane comes to.
#[derive(Debug, Clone, Copy, PartialEq, Eq, Structural)]
pub enum DetailStep {
    /// `a`: the action menu, on the row the pane is over.
    Menu,
    /// `ctrl-t`: the next refresh interval for the pane's kind.
    Retime,
    Nothing,
    /// The help screen, over the pane.
    Help,
    /// The pane closes; the table is back.
    Closed,
}

/// The keys the application takes before the pane sees them, so that they mean the same over
/// the pane as over the table: `a` and `ctrl-t`. `None` hands the key to the pane.
pub fn detail_first(key: Key) -> (r: Option<DetailStep>)
    ensures
        r == (if key == Key::Char('a') {
            Some(DetailStep::Menu)
        } else if key == Key::Ctrl('t') {
            Some(DetailStep::Retime)
        } else {
            None::<DetailStep>
        }),
{
    if key == Key::Char('a') {
        Some(DetailStep::Menu)
    } else if key == Key::Ctrl('t') {
        Some(DetailStep::Retime)
    } else {
        None
    }
}

/// The pane's answer to a key.
pub fn detail_step(s: &mut Shell, a: crate::detail::Action) -> (r: DetailStep)
    ensures
        match a {
            crate::detail::Action::Help => r == DetailStep::Help
                && final(s)@ == (ShellV { help_from: Mode::Detail, mode: Mode::Help, ..old(s)@ }),
            crate::detail::Action::Closed => r == DetailStep::Closed && final(s)@ == (ShellV { mode: Mode::Table, ..old(s)@ }),
            _ => r == DetailStep::Nothing && final(s)@ == old(s)@,
        },
{
    match a {
        crate::detail::Action::Help => {
            s.help_from = Mode::Detail;
            s.mode = Mode::Help;
            DetailStep::Help
        },
        crate::detail::Action::Closed => {
            s.mode = Mode::Table;
            DetailStep::Closed
        },
        _ => DetailStep::Nothing,
    }
}

/// What an answer of the child picker comes to.
#[derive(Debug, Clone, PartialEq, Eq)]
pub enum PickerStep {
    Nothing,
    /// The picker closed.
    Closed,
    /// The picker closed; start this action on the row, refused or not by the same reason the
    /// menu greys it with.
    Run(crate::menu::ActionRef),
    /// The picker closed; open this child kind under the row.
    Open(KindRef),
    /// The picker closed on a greyed child: the status line is its reason.
    Greyed(String),
}

/// One answer of the child picker. `reason` is why the child under the cursor is greyed, if
/// it is.
#[verifier::rlimit(60)]
pub fn picker_step(s: &mut Shell, e: crate::picker::Event, reason: Option<String>) -> (r: PickerStep)
    ensures
        match e {
            crate::picker::Event::Filtered | crate::picker::Event::Moved | crate::picker::Event::Ignored =>
                r == PickerStep::Nothing && final(s)@ == old(s)@,
            crate::picker::Event::Cancelled => r == PickerStep::Closed && final(s)@ == (ShellV { mode: Mode::Table, ..old(s)@ }),
            crate::picker::Event::Run(act) => r == PickerStep::Run(act) && final(s)@ == (ShellV { mode: Mode::Table, ..old(s)@ }),
            crate::picker::Event::Chose(child) => match reason {
                Some(why) => {
                    &&& r matches PickerStep::Greyed(g) && g@ == why@
                    &&& final(s)@ == (ShellV { mode: Mode::Table, status: Some(why@), ..old(s)@ })
                },
                None => r == PickerStep::Open(child) && final(s)@ == (ShellV { mode: Mode::Table, ..old(s)@ }),
            },
        },
{
    match e {
        crate::picker::Event::Filtered | crate::picker::Event::Moved | crate::picker::Event::Ignored => PickerStep::Nothing,
        crate::picker::Event::Cancelled => {
            s.mode = Mode::Table;
            PickerStep::Closed
        },
        crate::picker::Event::Run(act) => {
            s.mode = Mode::Table;
            PickerStep::Run(act)
        },
        crate::picker::Event::Chose(child) => {
            s.mode = Mode::Table;
            match reason {
                Some(why) => {
                    s.status = Some(why.clone());
                    PickerStep::Greyed(why)
                },
                None => PickerStep::Open(child),
            }
        },
    }
}


/// The settings screen reopened over `fresh` rows after a change it made: the cursor where it
/// was on `was`, held to the last row, and the screen it goes back to on `esc` still `from` -
/// not the settings screen itself.
pub fn reopen_settings(was: &crate::settings::Settings, fresh: crate::settings::Settings, from: Mode) -> (r: (crate::settings::Settings, Mode))
    ensures
        r.0.rows == fresh.rows,
        r.0.selected == crate::settings::kept_cursor(was.selected as int, fresh.rows@.len() as int),
        r.1 == from,
{
    let mut screen = fresh;
    screen.keep_cursor(was.selected);
    (screen, from)
}

} // verus!
