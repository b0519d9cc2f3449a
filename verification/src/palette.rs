//! `:` palette: a text input over a ranked list of kinds and commands. It owns its input and
//! its scroll window; the app applies the effects a key asks for.

use vstd::prelude::*;
use crate::ascii::{chars_of, contains_ci_spec, eq_ci, is_alphanumeric, slice_chars, starts_ci_spec, string_of, unicode_alphanumeric};
use crate::catalog::{copy_opt, opt_view, strings_view, KindRef, KindV, NavItem, NavItemV, PageRef, PageV};
use crate::key::Key;
use crate::text::{back_over, Edit, Input};

verus! {

/// The entries of the palette that are not kinds.
#[derive(Debug, Clone, Copy, PartialEq, Eq, Structural)]
pub enum Command {
    Ctx,
    Quit,
    Help,
    Skin,
    /// `:journal` - what was attempted this session.
    Journal,
    /// `:activity` - every request this session made, and every table it holds.
    Activity,
    /// `:search <term>` - every kind already loaded, looked at for one term.
    Search,
    /// `:can-i <action> <kind>` - the one refusal string, asked about any kind.
    CanI,
    /// `:try <kind>` - ask for a kind the pinned API version does not list.
    Try,
    /// `:mouse` - capture on or off.
    Mouse,
    /// `:header` - auto, compact or full.
    Header,
    /// `:log [level]` - what this session writes down.
    Log,
    /// `:settings` - every setting, its value and where that value came from.
    Settings,
    /// `:refresh <auto|off|N>` - how often the current view's kind polls.
    Refresh,
    /// Show everything the unserved-kind rule hid, for this session.
    All,
    /// `:hide <id|group>` and `:show <id>`: the user's own hide list.
    Hide,
    Show,
}

/// Which fixed set an argument position draws on.
#[derive(Debug, Clone, Copy, PartialEq, Eq, Structural)]
pub enum Slot {
    Contexts,
    Skins,
    Actions,
    Kinds,
    /// A kind id, a page id or a group name: what `:hide` takes.
    Hide,
    /// The rungs of the refresh ladder: what `:refresh` takes.
    Intervals,
    /// The six log levels: what `:log` takes.
    Levels,
    /// What is hidden: what `:show` takes.
    Show,
}

/// What a completed argument is, drawn as a coloured tag at the popup's right edge.
#[derive(Debug, Clone, Copy, PartialEq, Eq, Structural)]
pub enum Tag {
    Context,
    Skin,
    /// A menu item, page or group, named by `:hide` (`hide: true`) or by `:show`.
    Nav { hide: bool },
    /// A rung of the refresh ladder, named by `:refresh`.
    Interval,
    /// A log level, named by `:log`.
    Level,
}

/// What the user types and reads for each command.
pub open spec fn label_spec(c: Command) -> Seq<char> {
    match c {
        Command::Ctx => seq!['c', 't', 'x'],
        Command::Quit => seq!['q', 'u', 'i', 't'],
        Command::Help => seq!['h', 'e', 'l', 'p'],
        Command::Skin => seq!['s', 'k', 'i', 'n'],
        Command::Journal => seq!['j', 'o', 'u', 'r', 'n', 'a', 'l'],
        Command::Activity => seq!['a', 'c', 't', 'i', 'v', 'i', 't', 'y'],
        Command::Search => seq!['s', 'e', 'a', 'r', 'c', 'h'],
        Command::CanI => seq!['c', 'a', 'n', '-', 'i'],
        Command::Try => seq!['t', 'r', 'y'],
        Command::Mouse => seq!['m', 'o', 'u', 's', 'e'],
        Command::Header => seq!['h', 'e', 'a', 'd', 'e', 'r'],
        Command::Log => seq!['l', 'o', 'g'],
        Command::Settings => seq!['s', 'e', 't', 't', 'i', 'n', 'g', 's'],
        Command::Refresh => seq!['r', 'e', 'f', 'r', 'e', 's', 'h'],
        Command::All => seq!['a', 'l', 'l'],
        Command::Hide => seq!['h', 'i', 'd', 'e'],
        Command::Show => seq!['s', 'h', 'o', 'w'],
    }
}

/// One slot per argument position of each command.
pub open spec fn slots_spec(c: Command) -> Seq<Slot> {
    match c {
        Command::Ctx => seq![Slot::Contexts],
        Command::Skin => seq![Slot::Skins],
        Command::CanI => seq![Slot::Actions, Slot::Kinds],
        Command::Try => seq![Slot::Kinds],
        Command::Hide => seq![Slot::Hide],
        Command::Show => seq![Slot::Show],
        Command::Refresh => seq![Slot::Intervals],
        Command::Log => seq![Slot::Levels],
        _ => Seq::empty(),
    }
}

/// Every command, in the order the palette lists them.
pub open spec fn commands_spec() -> Seq<Command> {
    seq![
        Command::Ctx,
        Command::Quit,
        Command::Help,
        Command::Skin,
        Command::Journal,
        Command::Activity,
        Command::Search,
        Command::CanI,
        Command::Try,
        Command::Mouse,
        Command::Header,
        Command::Log,
        Command::Settings,
        Command::Refresh,
        Command::All,
        Command::Hide,
        Command::Show,
    ]
}

/// Every command, in the order the palette lists them: with an empty word every command is
/// offered, in this order.
pub const COMMANDS: [Command; 17] = [
    Command::Ctx,
    Command::Quit,
    Command::Help,
    Command::Skin,
    Command::Journal,
    Command::Activity,
    Command::Search,
    Command::CanI,
    Command::Try,
    Command::Mouse,
    Command::Header,
    Command::Log,
    Command::Settings,
    Command::Refresh,
    Command::All,
    Command::Hide,
    Command::Show,
];

impl Command {
    /// What the user types and reads.
    pub fn label(self) -> (r: &'static str)
        ensures
            r@ == label_spec(self),
    {
        let r = match self {
            Command::Ctx => "ctx",
            Command::Quit => "quit",
            Command::Help => "help",
            Command::Skin => "skin",
            Command::Journal => "journal",
            Command::Activity => "activity",
            Command::Search => "search",
            Command::CanI => "can-i",
            Command::Try => "try",
            Command::Mouse => "mouse",
            Command::Header => "header",
            Command::Log => "log",
            Command::Settings => "settings",
            Command::Refresh => "refresh",
            Command::All => "all",
            Command::Hide => "hide",
            Command::Show => "show",
        };
        proof {
            reveal_strlit("ctx");
            reveal_strlit("quit");
            reveal_strlit("help");
            reveal_strlit("skin");
            reveal_strlit("journal");
            reveal_strlit("activity");
            reveal_strlit("search");
            reveal_strlit("can-i");
            reveal_strlit("try");
            reveal_strlit("mouse");
            reveal_strlit("header");
            reveal_strlit("log");
            reveal_strlit("settings");
            reveal_strlit("refresh");
            reveal_strlit("all");
            reveal_strlit("hide");
            reveal_strlit("show");
        }
        r
    }

    /// Whether the last slot swallows every remaining word rather than one: `:hide` and
    /// `:show` name display text with spaces in it, and `:search` takes a free term.
    pub fn rest_of_line(self) -> (r: bool)
        ensures
            r == (self == Command::Hide || self == Command::Show || self == Command::Search),
    {
        match self {
            Command::Hide | Command::Show | Command::Search => true,
            _ => false,
        }
    }

    /// One slot per argument position.
    pub fn slots(self) -> (r: &'static [Slot])
        ensures
            r@ == slots_spec(self),
    {
        match self {
            Command::Ctx => &[Slot::Contexts],
            Command::Skin => &[Slot::Skins],
            Command::CanI => &[Slot::Actions, Slot::Kinds],
            Command::Try => &[Slot::Kinds],
            Command::Hide => &[Slot::Hide],
            Command::Show => &[Slot::Show],
            Command::Refresh => &[Slot::Intervals],
            Command::Log => &[Slot::Levels],
            Command::Quit
            | Command::Help
            | Command::Journal
            | Command::Activity
            | Command::Search
            | Command::Mouse
            | Command::Header
            | Command::Settings
            | Command::All => &[],
        }
    }
}

} // verus!

verus! {

/// One maximal run of non-space characters: where it starts, and its characters.
pub type Run = (usize, Vec<char>);

/// Where run `r` ends (exclusive).
pub open spec fn run_end(r: Run) -> int {
    r.0 + r.1@.len()
}

/// A run, as values.
pub open spec fn run_view(r: Run) -> (int, Seq<char>) {
    (r.0 as int, r.1@)
}

/// Runs, as values.
pub open spec fn runs_view(r: Seq<Run>) -> Seq<(int, Seq<char>)> {
    r.map_values(|x: Run| run_view(x))
}

/// The maximal runs of non-space characters of `s[..n]`, with where each starts: the runs
/// before the last word, then the last word.
pub open spec fn runs_upto(s: Seq<char>, n: int) -> Seq<(int, Seq<char>)>
    decreases n,
{
    if n <= 0 || n > s.len() {
        Seq::empty()
    } else if s[n - 1] == ' ' {
        runs_upto(s, n - 1)
    } else {
        let st = back_over(s, n, false);
        if 0 <= st < n {
            runs_upto(s, st).push((st, s.subrange(st, n)))
        } else {
            Seq::empty()
        }
    }
}

/// The maximal runs of non-space characters of `s`.
pub open spec fn runs_spec(s: Seq<char>) -> Seq<(int, Seq<char>)> {
    runs_upto(s, s.len() as int)
}

/// Walking back over non-spaces from the end of a space-free stretch lands on its start.
proof fn lemma_back_over_run(s: Seq<char>, st: int, n: int)
    requires
        0 <= st <= n <= s.len(),
        forall|j: int| st <= j < n ==> s[j] != ' ',
        st == 0 || s[st - 1] == ' ',
    ensures
        back_over(s, n, false) == st,
    decreases n,
{
    if n > st {
        lemma_back_over_run(s, st, n - 1);
    }
}

/// Walking back over non-spaces never goes forward.
proof fn lemma_back_over_le(s: Seq<char>, n: int)
    requires
        0 <= n <= s.len(),
    ensures
        0 <= back_over(s, n, false) <= n,
    decreases n,
{
    if n > 0 && s[n - 1] != ' ' {
        lemma_back_over_le(s, n - 1);
    }
}

/// The maximal runs of non-space characters, with the index each starts at. Only `' '`
/// separates, so the grammar and the words handed to the app agree on where a word ends.
pub fn word_runs(input: &[char]) -> (runs: Vec<Run>)
    ensures
        runs_view(runs@) == runs_spec(input@),
{
    let mut runs: Vec<Run> = Vec::new();
    let mut start: Option<usize> = None;
    let mut i: usize = 0;
    let ghost s = input@;
    while i < input.len()
        invariant
            s == input@,
            i <= s.len(),
            match start {
                Some(st) => {
                    &&& st < i
                    &&& forall|j: int| st <= j < i ==> s[j] != ' '
                    &&& (st == 0 || s[st - 1] == ' ')
                    &&& runs_view(runs@) == runs_upto(s, st as int)
                },
                None => {
                    &&& runs_view(runs@) == runs_upto(s, i as int)
                    &&& (i == 0 || s[i - 1] == ' ')
                },
            },
        decreases s.len() - i,
    {
        let c = input[i];
        if c != ' ' {
            if start.is_none() {
                start = Some(i);
            }
        } else {
            if let Some(st) = start {
                let word = slice_chars(input, st, i);
                let ghost old_runs = runs@;
                runs.push((st, word));
                proof {
                    lemma_back_over_run(s, st as int, i as int);
                    assert(runs_view(runs@) =~= runs_view(old_runs).push((st as int, s.subrange(st as int, i as int))));
                    assert(runs_upto(s, i + 1) == runs_upto(s, i as int));
                }
                start = None;
            } else {
                proof {
                    assert(runs_upto(s, i + 1) == runs_upto(s, i as int));
                }
            }
        }
        i = i + 1;
    }
    if let Some(st) = start {
        let word = slice_chars(input, st, input.len());
        let ghost old_runs = runs@;
        runs.push((st, word));
        proof {
            lemma_back_over_run(s, st as int, s.len() as int);
            assert(runs_view(runs@) =~= runs_view(old_runs).push((st as int, s.subrange(st as int, s.len() as int))));
        }
    }
    runs
}

} // verus!

verus! {

/// The first run from `k` on that the cursor touches: one it stands in, or immediately after.
pub open spec fn touched_from(runs: Seq<(int, Seq<char>)>, cursor: int, k: int) -> Option<int>
    decreases runs.len() - k,
{
    if k < 0 || k >= runs.len() {
        None
    } else if runs[k].0 <= cursor <= runs[k].0 + runs[k].1.len() {
        Some(k)
    } else {
        touched_from(runs, cursor, k + 1)
    }
}

/// How many of `runs[..k]` end strictly before the cursor.
pub open spec fn ended_before(runs: Seq<(int, Seq<char>)>, cursor: int, k: int) -> nat
    decreases k,
{
    if k <= 0 || k > runs.len() {
        0
    } else {
        ended_before(runs, cursor, k - 1) + if runs[k - 1].0 + runs[k - 1].1.len() < cursor {
            1nat
        } else {
            0nat
        }
    }
}

/// The word the cursor touches and its position: a cursor immediately after a run belongs to
/// that run, and a cursor in a gap starts an empty word whose position is the number of runs
/// that end before it.
pub open spec fn word_at_spec(runs: Seq<(int, Seq<char>)>, cursor: int) -> (nat, Seq<char>) {
    match touched_from(runs, cursor, 0) {
        Some(k) => (k as nat, runs[k].1),
        None => (ended_before(runs, cursor, runs.len() as int), Seq::empty()),
    }
}

/// The run the cursor touches and its position.
pub fn word_at(runs: &[Run], cursor: usize) -> (r: (usize, Vec<char>))
    ensures
        (r.0 as nat, r.1@) == word_at_spec(runs_view(runs@), cursor as int),
{
    let ghost rv = runs_view(runs@);
    let mut i: usize = 0;
    while i < runs.len()
        invariant
            rv == runs_view(runs@),
            i <= runs@.len(),
            touched_from(rv, cursor as int, 0) == touched_from(rv, cursor as int, i as int),
        decreases runs.len() - i,
    {
        let start = runs[i].0;
        let len = runs[i].1.len();
        if cursor >= start && (cursor - start) <= len {
            return (i, runs[i].1.clone());
        }
        i = i + 1;
    }
    let mut count: usize = 0;
    let mut j: usize = 0;
    while j < runs.len()
        invariant
            rv == runs_view(runs@),
            j <= runs@.len(),
            count == ended_before(rv, cursor as int, j as int),
            count <= j,
        decreases runs.len() - j,
    {
        let start = runs[j].0;
        let len = runs[j].1.len();
        if start < cursor && len < cursor - start {
            count = count + 1;
        }
        j = j + 1;
    }
    (count, Vec::new())
}

/// The completion position and the word at it: a trailing empty word past the last slot never
/// advances the position; it stays on the last run, at that run's own position.
pub open spec fn completing_spec(s: Seq<char>, cursor: int, slots: int) -> (nat, Seq<char>) {
    let runs = runs_spec(s);
    let (position, word) = word_at_spec(runs, cursor);
    if word.len() == 0 && position > slots {
        if runs.len() == 0 {
            (0, Seq::empty())
        } else {
            ((runs.len() - 1) as nat, runs.last().1)
        }
    } else {
        (position, word)
    }
}

/// The completion position and the word at it, after the clamp.
pub fn completing(input: &[char], cursor: usize, slots: usize) -> (r: (usize, Vec<char>))
    ensures
        (r.0 as nat, r.1@) == completing_spec(input@, cursor as int, slots as int),
{
    let runs = word_runs(input);
    let (position, word) = word_at(runs.as_slice(), cursor);
    if word.len() == 0 && position > slots {
        if runs.len() == 0 {
            return (0, Vec::new());
        }
        let last = runs.len() - 1;
        return (last, runs[last].1.clone());
    }
    (position, word)
}

/// The command a head word names exactly, ASCII case set aside.
pub open spec fn head_command_spec(word: Seq<char>) -> Option<Command> {
    first_command_from(word, 0)
}

/// The first command from position `k` of [`commands_spec`] that `word` names.
pub open spec fn first_command_from(word: Seq<char>, k: int) -> Option<Command>
    decreases commands_spec().len() - k,
{
    if k < 0 || k >= commands_spec().len() {
        None
    } else if eq_ci(label_spec(commands_spec()[k]), word) {
        Some(commands_spec()[k])
    } else {
        first_command_from(word, k + 1)
    }
}

/// The command a head word names exactly, case-insensitively; `None` for a kind, a page, or
/// anything nothing knows - all of which take no arguments.
pub fn head_command(head_word: &str) -> (r: Option<Command>)
    ensures
        r == head_command_spec(head_word@),
{
    let mut i: usize = 0;
    while i < COMMANDS.len()
        invariant
            i <= 17,
            COMMANDS@ == commands_spec(),
            first_command_from(head_word@, 0) == first_command_from(head_word@, i as int),
        decreases 17 - i,
    {
        let c = COMMANDS[i];
        if crate::ascii::eq_ignore_case(c.label(), head_word) {
            return Some(c);
        }
        i = i + 1;
    }
    None
}

} // verus!

verus! {

/// Where a window of `rows` rows over `len` entries starts, with `selected` on its bottom edge
/// while it moves down.
pub open spec fn window_offset(selected: int, rows: int) -> int {
    if rows == 0 {
        0
    } else if selected + 1 - rows > 0 {
        selected + 1 - rows
    } else {
        0
    }
}

/// The `rows`-long slice of `entries` that contains `selected`, and where it starts.
pub fn window<T>(entries: &[T], selected: usize, rows: usize) -> (r: (usize, &[T]))
    requires
        selected < usize::MAX,
    ensures
        rows == 0 ==> r.0 == 0 && r.1@.len() == 0,
        rows > 0 ==> {
            let offset = window_offset(selected as int, rows as int);
            let end = if offset + rows < entries@.len() { offset + rows } else { entries@.len() as int };
            &&& r.0 == offset
            &&& r.1@ == entries@.subrange(if offset < end { offset } else { end }, end)
        },
{
    if rows == 0 {
        return (0, &entries[0..0]);
    }
    let offset = (selected + 1).saturating_sub(rows);
    let end = if offset < entries.len() && rows <= entries.len() - offset {
        offset + rows
    } else {
        entries.len()
    };
    let lo = if offset < end { offset } else { end };
    (offset, &entries[lo..end])
}

/// Where a centred window of `rows` rows over `len` entries starts.
pub open spec fn centred_offset(len: int, selected: int, rows: int) -> int {
    if rows == 0 || len <= rows {
        0
    } else {
        let half = (rows - 1) / 2;
        let start = if selected - half > 0 { selected - half } else { 0 };
        if start < len - rows { start } else { len - rows }
    }
}

/// The `rows`-long slice of `entries` that keeps `selected` in the middle of the pane, and where
/// it starts. It rides an edge only at the two ends of the list.
pub fn centred<T>(entries: &[T], selected: usize, rows: usize) -> (r: (usize, &[T]))
    ensures
        r.0 == centred_offset(entries@.len() as int, selected as int, rows as int),
        rows == 0 ==> r.1@.len() == 0,
        rows > 0 && entries@.len() <= rows ==> r.1@ == entries@,
        rows > 0 && entries@.len() > rows ==> r.1@ == entries@.subrange(r.0 as int, r.0 + rows),
{
    if rows == 0 {
        return (0, &entries[0..0]);
    }
    if entries.len() <= rows {
        return (0, entries);
    }
    let half = (rows - 1) / 2;
    let start = selected.saturating_sub(half);
    let offset = if start < entries.len() - rows { start } else { entries.len() - rows };
    (offset, &entries[offset..offset + rows])
}

/// The window always holds the selected row: it starts at or before it, reaches past it, and is
/// no taller than the pane.
pub proof fn lemma_window_frames_selection(len: int, selected: int, rows: int)
    requires
        0 <= selected < len,
        rows > 0,
    ensures
        ({
            let offset = window_offset(selected, rows);
            let end = if offset + rows < len { offset + rows } else { len };
            &&& 0 <= offset <= selected < end
            &&& end - offset <= rows
        }),
{
}

/// The centred window holds the selected row and fits the list; away from the two ends of the
/// list the selected row sits in the pane's middle row.
pub proof fn lemma_centred_frames_selection(len: int, selected: int, rows: int)
    requires
        0 <= selected < len,
        rows > 0,
    ensures
        ({
            let offset = centred_offset(len, selected, rows);
            let shown = if len <= rows { len } else { rows };
            let half = (rows - 1) / 2;
            &&& 0 <= offset <= selected < offset + shown
            &&& offset + shown <= len
            &&& (len > rows && selected >= half && selected + rows - half <= len) ==> offset == selected - half
        }),
{
}

} // verus!

verus! {

/// A row's rank came from the catalog itself.
pub const ROUTE_CATALOG: u8 = 0;
/// A row's rank came from a nav label matching as a whole.
pub const ROUTE_NAV_LABEL: u8 = 1;
/// A row's rank came from one word of a nav label.
pub const ROUTE_NAV_WORD: u8 = 2;

/// A word of `label` - a maximal run of alphanumeric characters - starts at `i` and begins with
/// `word`, ASCII case set aside.
pub open spec fn word_prefix_at(label: Seq<char>, word: Seq<char>, i: int) -> bool {
    &&& 0 <= i
    &&& i + word.len() <= label.len()
    &&& word.len() > 0
    &&& (i == 0 || !unicode_alphanumeric(label[i - 1]))
    &&& forall|j: int| i <= j < i + word.len() ==> unicode_alphanumeric(#[trigger] label[j])
    &&& eq_ci(label.subrange(i, i + word.len()), word)
}

/// How a nav label matches `word`, and how strongly: the whole label, its start, the start of
/// one of its words, or anywhere in it.
pub open spec fn nav_rank_spec(label: Seq<char>, word: Seq<char>) -> Option<(u8, u8)> {
    if eq_ci(label, word) {
        Some((0, ROUTE_NAV_LABEL))
    } else if starts_ci_spec(label, word) {
        Some((3, ROUTE_NAV_LABEL))
    } else if exists|i: int| word_prefix_at(label, word, i) {
        Some((3, ROUTE_NAV_WORD))
    } else if contains_ci_spec(label, word) {
        Some((4, ROUTE_NAV_WORD))
    } else {
        None
    }
}

/// How a nav label matches, and how strongly. A label is another display name for a target the
/// catalog already has, so it borrows the rank the same match on a display name would have.
pub fn nav_rank(label: &str, word: &str) -> (r: Option<(u8, u8)>)
    ensures
        r == nav_rank_spec(label@, word@),
{
    if crate::ascii::eq_ignore_case(label, word) {
        return Some((0, ROUTE_NAV_LABEL));
    }
    if crate::ascii::starts_ci(label, word) {
        return Some((3, ROUTE_NAV_LABEL));
    }
    let l = chars_of(label);
    let w = chars_of(word);
    if w.len() > 0 && word_prefix_somewhere(l.as_slice(), w.as_slice()) {
        return Some((3, ROUTE_NAV_WORD));
    }
    proof {
        if w@.len() == 0 {
            assert forall|i: int| !word_prefix_at(label@, word@, i) by {}
        }
    }
    if crate::ascii::contains_ci(label, word) {
        return Some((4, ROUTE_NAV_WORD));
    }
    None
}

/// Whether some word of `label` starts with `word`.
fn word_prefix_somewhere(label: &[char], word: &[char]) -> (r: bool)
    requires
        word@.len() > 0,
    ensures
        r == exists|i: int| word_prefix_at(label@, word@, i),
{
    let mut i: usize = 0;
    while i < label.len()
        invariant
            i <= label@.len(),
            word@.len() > 0,
            forall|k: int| 0 <= k < i ==> !word_prefix_at(label@, word@, k),
        decreases label.len() - i,
    {
        if word_prefix_here(label, word, i) {
            return true;
        }
        i = i + 1;
    }
    proof {
        assert forall|k: int| !word_prefix_at(label@, word@, k) by {
            if k >= label@.len() {
            }
        }
    }
    false
}

/// Whether a word of `label` starts at `i` and begins with `word`.
fn word_prefix_here(label: &[char], word: &[char], i: usize) -> (r: bool)
    requires
        i < label@.len(),
        word@.len() > 0,
    ensures
        r == word_prefix_at(label@, word@, i as int),
{
    if word.len() > label.len() - i {
        return false;
    }
    if i > 0 && is_alphanumeric(label[i - 1]) {
        return false;
    }
    let mut j: usize = 0;
    while j < word.len()
        invariant
            i + word.len() <= label.len(),
            j <= word.len(),
            forall|k: int| i <= k < i + j ==> unicode_alphanumeric(#[trigger] label@[k]),
            forall|k: int| 0 <= k < j ==> crate::ascii::fold(#[trigger] label@[i + k]) == crate::ascii::fold(word@[k]),
        decreases word.len() - j,
    {
        if !is_alphanumeric(label[i + j]) {
            return false;
        }
        if !crate::ascii::char_eq_ci(label[i + j], word[j]) {
            proof {
                let s = label@.subrange(i as int, i + word@.len());
                assert(crate::ascii::fold_seq(s)[j as int] != crate::ascii::fold_seq(word@)[j as int]);
            }
            return false;
        }
        j = j + 1;
    }
    proof {
        let s = label@.subrange(i as int, i + word@.len());
        assert forall|k: int| 0 <= k < word@.len() implies crate::ascii::fold_seq(s)[k] == crate::ascii::fold_seq(word@)[k] by {
            assert(s[k] == label@[i + k]);
        }
        assert(crate::ascii::fold_seq(s) =~= crate::ascii::fold_seq(word@));
    }
    true
}

} // verus!

verus! {

/// `a` comes no later than `b` in code-point order, which is the byte order of their UTF-8.
pub open spec fn lex_le(a: Seq<char>, b: Seq<char>) -> bool
    decreases a.len(),
{
    if a.len() == 0 {
        true
    } else if b.len() == 0 {
        false
    } else if a[0] != b[0] {
        a[0] < b[0]
    } else {
        lex_le(a.drop_first(), b.drop_first())
    }
}

/// The order a completion is picked in: the shorter first, ties alphabetically.
pub open spec fn key_le(a: Seq<char>, b: Seq<char>) -> bool {
    a.len() < b.len() || (a.len() == b.len() && lex_le(a, b))
}

/// Whether `a` comes no later than `b` in code-point order.
pub fn lex_le_exec(a: &[char], b: &[char]) -> (r: bool)
    ensures
        r == lex_le(a@, b@),
{
    let mut i: usize = 0;
    proof {
        assert(a@.subrange(0, a@.len() as int) =~= a@);
        assert(b@.subrange(0, b@.len() as int) =~= b@);
    }
    while i < a.len() && i < b.len() && a[i] == b[i]
        invariant
            i <= a@.len(),
            i <= b@.len(),
            lex_le(a@, b@) == lex_le(a@.subrange(i as int, a@.len() as int), b@.subrange(i as int, b@.len() as int)),
        decreases a.len() - i,
    {
        proof {
            let x = a@.subrange(i as int, a@.len() as int);
            let y = b@.subrange(i as int, b@.len() as int);
            assert(x.drop_first() =~= a@.subrange(i + 1, a@.len() as int));
            assert(y.drop_first() =~= b@.subrange(i + 1, b@.len() as int));
        }
        i = i + 1;
    }
    if i == a.len() {
        return true;
    }
    if i == b.len() {
        return false;
    }
    a[i] < b[i]
}

/// A row of the palette.
#[derive(Debug, Clone, PartialEq, Eq)]
pub enum Entry {
    /// A kind, with the reason it cannot be opened from here when there is one.
    Kind { kind: KindRef, reason: Option<String> },
    Command(Command),
    /// A feature page, matched on its title or its id.
    Page(PageRef),
    /// An argument for the command already typed.
    Value { text: String, tag: Tag },
    /// A menu item with nothing behind it: greyed, with its note as the reason.
    Missing(NavItem),
}

/// A row, as values.
pub enum EntryV {
    Kind { kind: KindV, reason: Option<Seq<char>> },
    Command(Command),
    Page(PageV),
    Value { text: Seq<char>, tag: Tag },
    Missing(NavItemV),
}

impl View for Entry {
    type V = EntryV;

    open spec fn view(&self) -> EntryV {
        match self {
            Entry::Kind { kind, reason } => EntryV::Kind { kind: kind@, reason: opt_view(*reason) },
            Entry::Command(c) => EntryV::Command(*c),
            Entry::Page(p) => EntryV::Page(p@),
            Entry::Value { text, tag } => EntryV::Value { text: text@, tag: *tag },
            Entry::Missing(item) => EntryV::Missing(item@),
        }
    }
}

/// The strings that, typed in full, would select this row.
pub open spec fn candidates_spec(e: EntryV) -> Seq<Seq<char>> {
    match e {
        EntryV::Command(c) => seq![label_spec(c)],
        EntryV::Kind { kind, .. } => seq![kind.id, kind.display] + kind.aliases,
        EntryV::Page(p) => seq![p.id, p.title],
        EntryV::Value { text, .. } => seq![text],
        EntryV::Missing(item) => seq![item.label],
    }
}

/// A candidate can carry a ghost of `word`: it has no space in it, and `word` starts it.
pub open spec fn completes(c: Seq<char>, word: Seq<char>) -> bool {
    !c.contains(' ') && starts_ci_spec(c, word)
}

/// The shortest candidate `word` starts, ties broken alphabetically; `None` when none does.
pub open spec fn completion_ok(e: EntryV, word: Seq<char>, r: Option<Seq<char>>) -> bool {
    let cands = candidates_spec(e);
    match r {
        Some(c) => {
            &&& cands.contains(c)
            &&& completes(c, word)
            &&& forall|d: Seq<char>| cands.contains(d) && completes(d, word) ==> key_le(c, d)
        },
        None => forall|d: Seq<char>| cands.contains(d) ==> !completes(d, word),
    }
}

impl Entry {
    /// A copy of this row.
    pub fn duplicate(&self) -> (r: Entry)
        ensures
            r@ == self@,
    {
        match self {
            Entry::Kind { kind, reason } => Entry::Kind { kind: kind.duplicate(), reason: copy_opt(reason) },
            Entry::Command(c) => Entry::Command(*c),
            Entry::Page(p) => Entry::Page(p.duplicate()),
            Entry::Value { text, tag } => Entry::Value { text: text.clone(), tag: *tag },
            Entry::Missing(item) => Entry::Missing(item.duplicate()),
        }
    }

    /// The strings that, typed in full, would select this row: a kind's id, display and
    /// aliases; a page's id and title; a command's label; a value's text; a menu item's label.
    pub fn candidates(&self) -> (r: Vec<String>)
        ensures
            strings_view(r@) == candidates_spec(self@),
    {
        let mut r: Vec<String> = Vec::new();
        match self {
            Entry::Command(c) => {
                r.push(c.label().to_string());
                proof {
                    assert(strings_view(r@) =~= candidates_spec(self@));
                }
            },
            Entry::Kind { kind, .. } => {
                r.push(kind.id.clone());
                r.push(kind.display.clone());
                let mut i: usize = 0;
                while i < kind.aliases.len()
                    invariant
                        i <= kind.aliases@.len(),
                        strings_view(r@) == seq![kind.id@, kind.display@] + strings_view(
                            kind.aliases@.subrange(0, i as int),
                        ),
                    decreases kind.aliases.len() - i,
                {
                    let ghost before = r@;
                    r.push(kind.aliases[i].clone());
                    proof {
                        assert(strings_view(r@) =~= strings_view(before).push(kind.aliases@[i as int]@));
                        assert(strings_view(kind.aliases@.subrange(0, i + 1)) =~= strings_view(
                            kind.aliases@.subrange(0, i as int),
                        ).push(kind.aliases@[i as int]@));
                        assert(strings_view(r@) =~= seq![kind.id@, kind.display@] + strings_view(
                            kind.aliases@.subrange(0, i + 1),
                        ));
                    }
                    i = i + 1;
                }
                proof {
                    assert(kind.aliases@.subrange(0, kind.aliases@.len() as int) =~= kind.aliases@);
                }
            },
            Entry::Page(p) => {
                r.push(p.id.clone());
                r.push(p.title.clone());
                proof {
                    assert(strings_view(r@) =~= candidates_spec(self@));
                }
            },
            Entry::Value { text, .. } => {
                r.push(text.clone());
                proof {
                    assert(strings_view(r@) =~= candidates_spec(self@));
                }
            },
            Entry::Missing(item) => {
                r.push(item.label.clone());
                proof {
                    assert(strings_view(r@) =~= candidates_spec(self@));
                }
            },
        }
        r
    }

    /// The shortest candidate `word` prefixes, ASCII case set aside, ties broken
    /// alphabetically. A candidate with a space in it is no candidate: the grammar is
    /// space-separated, so completing one would produce two words.
    pub fn completion(&self, word: &str) -> (r: Option<String>)
        ensures
            completion_ok(self@, word@, opt_view(r)),
    {
        let cands = self.candidates();
        let ghost cv = strings_view(cands@);
        let w = chars_of(word);
        let mut best: Option<String> = None;
        let mut best_chars: Vec<char> = Vec::new();
        let mut i: usize = 0;
        while i < cands.len()
            invariant
                cv == strings_view(cands@),
                cv == candidates_spec(self@),
                w@ == word@,
                i <= cands@.len(),
                match best {
                    Some(b) => {
                        &&& b@ == best_chars@
                        &&& cv.contains(b@)
                        &&& completes(b@, word@)
                        &&& forall|k: int| 0 <= k < i && completes(cv[k], word@) ==> key_le(b@, cv[k])
                    },
                    None => forall|k: int| 0 <= k < i ==> !completes(cv[k], word@),
                },
            decreases cands.len() - i,
        {
            let c = chars_of(cands[i].as_str());
            let ok = !has_space(c.as_slice()) && crate::ascii::starts_ci_chars(c.as_slice(), w.as_slice());
            proof {
                assert(cv[i as int] == c@);
            }
            if ok {
                let better = match &best {
                    None => true,
                    Some(_) => c.len() < best_chars.len() || (c.len() == best_chars.len() && lex_le_exec(c.as_slice(), best_chars.as_slice()) && !lex_le_exec(best_chars.as_slice(), c.as_slice())),
                };
                if better {
                    proof {
                        assert(cv.contains(c@)) by {
                            assert(cv[i as int] == c@);
                        }
                        if best is Some {
                            assert forall|k: int| 0 <= k < i + 1 && completes(cv[k], word@) implies key_le(c@, cv[k]) by {
                                if k < i {
                                    lemma_key_le_trans(c@, best_chars@, cv[k]);
                                } else {
                                    lemma_lex_le_refl(c@);
                                }
                            }
                        } else {
                            assert forall|k: int| 0 <= k < i + 1 && completes(cv[k], word@) implies key_le(c@, cv[k]) by {
                                lemma_lex_le_refl(c@);
                            }
                        }
                    }
                    best = Some(string_of(c.as_slice()));
                    best_chars = c;
                } else {
                    proof {
                        assert forall|k: int| 0 <= k < i + 1 && completes(cv[k], word@) implies key_le(best->0@, cv[k]) by {
                            if k == i {
                                lemma_lex_le_total(best_chars@, c@);
                            }
                        }
                    }
                }
            }
            i = i + 1;
        }
        proof {
            match best {
                Some(ref b) => {
                    assert forall|d: Seq<char>| cv.contains(d) && completes(d, word@) implies key_le(b@, d) by {
                        let k = choose|k: int| 0 <= k < cv.len() && cv[k] == d;
                    }
                },
                None => {
                    assert forall|d: Seq<char>| cv.contains(d) implies !completes(d, word@) by {
                        let k = choose|k: int| 0 <= k < cv.len() && cv[k] == d;
                    }
                },
            }
        }
        best
    }
}

/// Whether `s` holds a space.
fn has_space(s: &[char]) -> (r: bool)
    ensures
        r == s@.contains(' '),
{
    let mut i: usize = 0;
    while i < s.len()
        invariant
            i <= s@.len(),
            forall|k: int| 0 <= k < i ==> s@[k] != ' ',
        decreases s.len() - i,
    {
        if s[i] == ' ' {
            proof {
                assert(s@[i as int] == ' ');
            }
            return true;
        }
        i = i + 1;
    }
    false
}

/// Every sequence comes no later than itself.
pub proof fn lemma_lex_le_refl(a: Seq<char>)
    ensures
        lex_le(a, a),
    decreases a.len(),
{
    if a.len() > 0 {
        lemma_lex_le_refl(a.drop_first());
    }
}

/// Of two sequences, one comes no later than the other.
pub proof fn lemma_lex_le_total(a: Seq<char>, b: Seq<char>)
    ensures
        lex_le(a, b) || lex_le(b, a),
    decreases a.len(),
{
    if a.len() > 0 && b.len() > 0 && a[0] == b[0] {
        lemma_lex_le_total(a.drop_first(), b.drop_first());
    }
}

/// Code-point order is transitive.
pub proof fn lemma_lex_le_trans(a: Seq<char>, b: Seq<char>, c: Seq<char>)
    requires
        lex_le(a, b),
        lex_le(b, c),
    ensures
        lex_le(a, c),
    decreases a.len(),
{
    if a.len() > 0 && b.len() > 0 && c.len() > 0 && a[0] == b[0] && b[0] == c[0] {
        lemma_lex_le_trans(a.drop_first(), b.drop_first(), c.drop_first());
    }
}

/// The completion order is transitive.
pub proof fn lemma_key_le_trans(a: Seq<char>, b: Seq<char>, c: Seq<char>)
    requires
        key_le(a, b),
        key_le(b, c),
    ensures
        key_le(a, c),
{
    if a.len() == b.len() && b.len() == c.len() {
        lemma_lex_le_trans(a, b, c);
    }
}

} // verus!

verus! {

/// Two sequences that each come no later than the other are the same sequence.
pub proof fn lemma_lex_le_antisym(a: Seq<char>, b: Seq<char>)
    requires
        lex_le(a, b),
        lex_le(b, a),
        a.len() == b.len(),
    ensures
        a == b,
    decreases a.len(),
{
    if a.len() > 0 {
        lemma_lex_le_antisym(a.drop_first(), b.drop_first());
        assert(a =~= seq![a[0]] + a.drop_first());
        assert(b =~= seq![b[0]] + b.drop_first());
    } else {
        assert(a =~= b);
    }
}

/// At most one answer meets [`completion_ok`].
pub proof fn lemma_completion_unique(e: EntryV, word: Seq<char>, r1: Option<Seq<char>>, r2: Option<Seq<char>>)
    requires
        completion_ok(e, word, r1),
        completion_ok(e, word, r2),
    ensures
        r1 == r2,
{
    match (r1, r2) {
        (Some(a), Some(b)) => {
            assert(key_le(a, b));
            assert(key_le(b, a));
            lemma_lex_le_antisym(a, b);
        },
        (Some(a), None) => {
            assert(candidates_spec(e).contains(a));
        },
        (None, Some(b)) => {
            assert(candidates_spec(e).contains(b));
        },
        _ => {},
    }
}

/// The completion a row offers for `word`: the one answer [`completion_ok`] admits.
pub open spec fn completion_spec(e: EntryV, word: Seq<char>) -> Option<Seq<char>> {
    choose|r: Option<Seq<char>>| completion_ok(e, word, r)
}

/// What a key did, for the app to act on: the palette cannot reach the session or the store.
#[derive(Debug, Clone, PartialEq, Eq)]
pub enum Action {
    /// The input changed; the ranking has to be recomputed.
    Edited,
    Moved,
    /// `enter` on this entry, with every word after the command word.
    Chose(Entry, Vec<String>),
    /// The ghost was accepted: the input changed, so the list has to be recomputed.
    Completed,
    Cancelled,
    Ignored,
}

/// The head word of a line: its first run, or nothing.
pub open spec fn head_spec(s: Seq<char>) -> Seq<char> {
    if runs_spec(s).len() > 0 {
        runs_spec(s)[0].1
    } else {
        Seq::empty()
    }
}

/// Every word of a line after the head word.
pub open spec fn args_spec(s: Seq<char>) -> Seq<Seq<char>> {
    if runs_spec(s).len() <= 1 {
        Seq::empty()
    } else {
        runs_spec(s).skip(1).map_values(|r: (int, Seq<char>)| r.1)
    }
}

/// How many argument positions the head word of a line gives it.
pub open spec fn slot_count(s: Seq<char>) -> int {
    match head_command_spec(head_spec(s)) {
        Some(c) => slots_spec(c).len() as int,
        None => 0,
    }
}

/// The rest of the selected row's completion after the word under the cursor: `None` when the
/// cursor is not at the end, when the line ends in a space, when the word is empty, when the
/// rows are not about the word (a position past the head with no slot), when nothing
/// completes, or when the completion adds nothing.
pub open spec fn ghost_spec(
    t: Seq<char>,
    pos: int,
    entries: Seq<EntryV>,
    selected: int,
    slot: Option<Slot>,
) -> Option<Seq<char>> {
    let (position, word) = completing_spec(t, pos, slot_count(t));
    if pos != t.len() || (t.len() > 0 && t.last() == ' ') {
        None
    } else if word.len() == 0 || (position > 0 && slot is None) {
        None
    } else if !(0 <= selected < entries.len()) {
        None
    } else {
        match completion_spec(entries[selected], word) {
            Some(c) => if c.len() > word.len() {
                Some(c.skip(word.len() as int))
            } else {
                None
            },
            None => None,
        }
    }
}

/// The views of a list of rows.
pub open spec fn entries_view(v: Seq<Entry>) -> Seq<EntryV> {
    v.map_values(|e: Entry| e@)
}

/// The palette: its input line, the rows ranked for it, and the lines this context accepted.
#[derive(Debug)]
pub struct Palette {
    pub input: Input,
    pub selected: usize,
    pub entries: Vec<Entry>,
    /// The slot being completed, for the popup's title; `None` at the head, and when a slot
    /// completed nothing and the list collapsed to the command row.
    pub slot: Option<Slot>,
    /// The lines this context has accepted, newest last.
    pub history: Vec<String>,
    /// `None` while editing, `Some(i)` while showing `history[i]`.
    pub history_pos: Option<usize>,
    /// The line that was being typed when the first `ctrl-p` fired.
    pub stash: Option<String>,
}

impl Default for Palette {
    fn default() -> (r: Palette)
        ensures
            r.input.text() == Seq::<char>::empty(),
            r.selected == 0,
            r.entries@.len() == 0,
            r.slot is None,
            r.history@.len() == 0,
            r.history_pos is None,
            r.stash is None,
    {
        Palette::with_history(Vec::new())
    }
}

impl Palette {
    /// A palette that remembers what this context accepted.
    pub fn with_history(history: Vec<String>) -> (r: Palette)
        ensures
            r.input.text() == Seq::<char>::empty(),
            r.input.pos() == 0,
            r.selected == 0,
            r.entries@.len() == 0,
            r.slot is None,
            r.history == history,
            r.history_pos is None,
            r.stash is None,
    {
        Palette {
            input: Input::new(),
            selected: 0,
            entries: Vec::new(),
            slot: None,
            history,
            history_pos: None,
            stash: None,
        }
    }

    /// A palette whose line holds `line`, with the cursor at its end.
    pub fn typed(line: &str) -> (r: Palette)
        ensures
            r.input.text() == line@,
            r.input.pos() == line@.len(),
            r.selected == 0,
            r.entries@.len() == 0,
            r.slot is None,
            r.history@.len() == 0,
            r.history_pos is None,
            r.stash is None,
    {
        let mut p = Palette::with_history(Vec::new());
        p.input = Input::from_str(line);
        p
    }

    /// The head word, position 0: what decides which grammar the rest of the line follows.
    pub fn head(&self) -> (r: String)
        ensures
            r@ == head_spec(self.input.text()),
    {
        let runs = word_runs(self.input.chars());
        if runs.len() == 0 {
            return String::new();
        }
        proof {
            assert(runs_view(runs@)[0] == run_view(runs@[0]));
        }
        string_of(runs[0].1.as_slice())
    }

    /// Every word after the head word, as the grammar reads them.
    pub fn args(&self) -> (r: Vec<String>)
        ensures
            strings_view(r@) == args_spec(self.input.text()),
    {
        let runs = word_runs(self.input.chars());
        let ghost rv = runs_view(runs@);
        let mut out: Vec<String> = Vec::new();
        if runs.len() <= 1 {
            proof {
                assert(rv.len() == runs@.len());
                assert(args_spec(self.input.text()) =~= Seq::<Seq<char>>::empty());
                assert(strings_view(out@) =~= Seq::<Seq<char>>::empty());
            }
            return out;
        }
        let mut i: usize = 1;
        proof {
            assert(strings_view(out@) =~= rv.subrange(1, 1).map_values(|r: (int, Seq<char>)| r.1));
        }
        while i < runs.len()
            invariant
                rv == runs_view(runs@),
                rv == runs_spec(self.input.text()),
                1 <= i <= runs@.len(),
                strings_view(out@) == rv.subrange(1, i as int).map_values(|r: (int, Seq<char>)| r.1),
            decreases runs.len() - i,
        {
            let ghost before = out@;
            out.push(string_of(runs[i].1.as_slice()));
            proof {
                assert(rv[i as int] == run_view(runs@[i as int]));
                assert(strings_view(out@) =~= strings_view(before).push(rv[i as int].1));
                assert(rv.subrange(1, i + 1).map_values(|r: (int, Seq<char>)| r.1) =~= rv.subrange(1, i as int).map_values(|r: (int, Seq<char>)| r.1).push(rv[i as int].1));
            }
            i = i + 1;
        }
        proof {
            assert(rv.subrange(1, rv.len() as int) =~= rv.skip(1));
        }
        out
    }

    /// The word the cursor is in, and its position, before the clamp.
    pub fn word_at_cursor(&self) -> (r: (usize, String))
        ensures
            (r.0 as nat, r.1@) == word_at_spec(runs_spec(self.input.text()), self.input.pos() as int),
    {
        let runs = word_runs(self.input.chars());
        let (position, word) = word_at(runs.as_slice(), self.input.char_cursor());
        (position, string_of(word.as_slice()))
    }

    /// The selected row.
    pub fn current(&self) -> (r: Option<&Entry>)
        ensures
            self.selected < self.entries@.len() ==> r == Some(&self.entries@[self.selected as int]),
            self.selected >= self.entries@.len() ==> r is None,
    {
        if self.selected < self.entries.len() {
            Some(&self.entries[self.selected])
        } else {
            None
        }
    }

    /// The `rows` entries to draw and the index the first of them has, framing the selection.
    pub fn window(&self, rows: usize) -> (r: (usize, &[Entry]))
        requires
            self.selected < usize::MAX,
        ensures
            rows == 0 ==> r.0 == 0 && r.1@.len() == 0,
            rows > 0 ==> {
                let offset = window_offset(self.selected as int, rows as int);
                let end = if offset + rows < self.entries@.len() { offset + rows } else { self.entries@.len() as int };
                &&& r.0 == offset
                &&& r.1@ == self.entries@.subrange(if offset < end { offset } else { end }, end)
            },
    {
        window(self.entries.as_slice(), self.selected, rows)
    }

    /// The head command, its slots, the completion position and the word at it.
    pub fn completing_at_cursor(&self) -> (r: (Option<Command>, &'static [Slot], usize, Vec<char>))
        ensures
            r.0 == head_command_spec(head_spec(self.input.text())),
            r.1@.len() == slot_count(self.input.text()),
            r.0 matches Some(c) ==> r.1@ == slots_spec(c),
            (r.2 as nat, r.3@) == completing_spec(self.input.text(), self.input.pos() as int, slot_count(self.input.text())),
    {
        let head = self.head();
        let command = head_command(head.as_str());
        let slots: &'static [Slot] = match command {
            Some(c) => c.slots(),
            None => &[],
        };
        let (position, word) = completing(self.input.chars(), self.input.char_cursor(), slots.len());
        (command, slots, position, word)
    }

    /// The selected row's remainder after the word under the cursor, drawn dim after the
    /// cursor block.
    pub fn ghost(&self) -> (r: Option<String>)
        ensures
            opt_view(r) == ghost_spec(
                self.input.text(),
                self.input.pos() as int,
                entries_view(self.entries@),
                self.selected as int,
                self.slot,
            ),
    {
        let t = self.input.chars();
        if !self.input.at_end() || (t.len() > 0 && t[t.len() - 1] == ' ') {
            return None;
        }
        let (_, _, position, word) = self.completing_at_cursor();
        if word.len() == 0 || (position > 0 && self.slot.is_none()) {
            return None;
        }
        let entry = match self.current() {
            Some(e) => e,
            None => return None,
        };
        let w = string_of(word.as_slice());
        let c = entry.completion(w.as_str());
        proof {
            assert(entries_view(self.entries@)[self.selected as int] == entry@);
            let rc = completion_spec(entry@, word@);
            assert(completion_ok(entry@, word@, rc));
            lemma_completion_unique(entry@, word@, rc, opt_view(c));
        }
        match c {
            Some(cand) => {
                let cc = chars_of(cand.as_str());
                if cc.len() > word.len() {
                    let rest = slice_chars(cc.as_slice(), word.len(), cc.len());
                    proof {
                        assert(rest@ =~= cc@.skip(word@.len() as int));
                    }
                    Some(string_of(rest.as_slice()))
                } else {
                    None
                }
            },
            None => None,
        }
    }
}

} // verus!

verus! {

/// The recall position, when there is one, names an accepted line.
pub open spec fn recall_ok(history_len: int, pos: Option<usize>) -> bool {
    pos matches Some(i) ==> i < history_len
}

/// One row down, and never past the last one.
pub open spec fn down_spec(selected: int, len: int) -> int {
    let last = if len > 0 { len - 1 } else { 0 };
    if selected + 1 < last { selected + 1 } else { last }
}

/// What accepting the ghost appends: the ghost, and one space after it when the selected row is
/// a command with an argument to take next.
pub open spec fn accepted_spec(g: Seq<char>, current: Option<EntryV>) -> Seq<char> {
    match current {
        Some(EntryV::Command(c)) => if slots_spec(c).len() > 0 { g.push(' ') } else { g },
        _ => g,
    }
}

impl Palette {
    /// The row under the cursor, as a value.
    pub open spec fn current_view(&self) -> Option<EntryV> {
        if self.selected < self.entries@.len() {
            Some(self.entries@[self.selected as int]@)
        } else {
            None
        }
    }

    /// The ghost this palette shows now.
    pub open spec fn ghost_now(&self) -> Option<Seq<char>> {
        ghost_spec(self.input.text(), self.input.pos() as int, entries_view(self.entries@), self.selected as int, self.slot)
    }

    /// One row down, and never past the last one.
    fn down(&mut self)
        ensures
            final(self).selected == down_spec(old(self).selected as int, old(self).entries@.len() as int),
            final(self).input == old(self).input,
            final(self).entries == old(self).entries,
            final(self).slot == old(self).slot,
            final(self).history == old(self).history,
            final(self).history_pos == old(self).history_pos,
            final(self).stash == old(self).stash,
    {
        let last = if self.entries.len() > 0 { self.entries.len() - 1 } else { 0 };
        self.selected = if self.selected < last { self.selected + 1 } else { last };
    }

    /// An edit ends a recall, and the ranking is about to change, so the selection goes back
    /// to the top row.
    fn edited(&mut self) -> (r: Action)
        ensures
            r == Action::Edited,
            final(self).selected == 0,
            final(self).history_pos is None,
            final(self).stash is None,
            final(self).input == old(self).input,
            final(self).entries == old(self).entries,
            final(self).slot == old(self).slot,
            final(self).history == old(self).history,
    {
        self.history_pos = None;
        self.stash = None;
        self.selected = 0;
        Action::Edited
    }

    /// `ctrl-p`: the first press stashes the line being typed and shows the newest accepted
    /// line; later presses walk back. At the oldest it stops.
    fn recall_back(&mut self) -> (r: Action)
        requires
            recall_ok(old(self).history@.len() as int, old(self).history_pos),
        ensures
            recall_ok(final(self).history@.len() as int, final(self).history_pos),
            final(self).history == old(self).history,
            final(self).entries == old(self).entries,
            final(self).slot == old(self).slot,
            recall_back_spec(*old(self), *final(self), r),
    {
        let next = match self.history_pos {
            None => {
                if self.history.len() == 0 {
                    return Action::Ignored;
                }
                self.stash = Some(self.input.as_str());
                self.history.len() - 1
            },
            Some(i) => {
                if i == 0 {
                    return Action::Ignored;
                }
                i - 1
            },
        };
        self.history_pos = Some(next);
        let line = self.history[next].clone();
        self.input.set(line.as_str());
        self.selected = 0;
        Action::Edited
    }

    /// `ctrl-n`: walks forward; past the newest it restores the stash, clears it and goes back
    /// to editing.
    fn recall_forward(&mut self) -> (r: Action)
        requires
            recall_ok(old(self).history@.len() as int, old(self).history_pos),
        ensures
            recall_ok(final(self).history@.len() as int, final(self).history_pos),
            final(self).history == old(self).history,
            final(self).entries == old(self).entries,
            final(self).slot == old(self).slot,
            recall_forward_spec(*old(self), *final(self), r),
    {
        let i = match self.history_pos {
            None => return Action::Ignored,
            Some(i) => i,
        };
        if i < self.history.len() - 1 {
            self.history_pos = Some(i + 1);
            let line = self.history[i + 1].clone();
            self.input.set(line.as_str());
        } else {
            self.history_pos = None;
            let stash = match self.stash.take() {
                Some(s) => s,
                None => String::new(),
            };
            self.input.set(stash.as_str());
        }
        self.selected = 0;
        Action::Edited
    }

    /// Puts the ghost at the cursor - and a space after it when the row is a command that takes
    /// an argument, so `:ct` + `tab` opens the context list in one keystroke. `false` when there
    /// is no ghost.
    fn accept_ghost(&mut self) -> (took: bool)
        ensures
            took == (old(self).ghost_now() is Some),
            took ==> {
                &&& final(self).input.text() == old(self).input.text() + accepted_spec(
                    old(self).ghost_now()->0,
                    old(self).current_view(),
                )
                &&& final(self).input.pos() == final(self).input.text().len()
                &&& final(self).history_pos is None
                &&& final(self).stash is None
                &&& final(self).selected == 0
            },
            !took ==> *final(self) == *old(self),
            final(self).history == old(self).history,
            final(self).entries == old(self).entries,
            final(self).slot == old(self).slot,
    {
        let g = match self.ghost() {
            Some(g) => g,
            None => return false,
        };
        let command = match self.current() {
            Some(Entry::Command(c)) => Some(*c),
            _ => None,
        };
        let ghost t0 = self.input.text();
        self.input.insert_str(g.as_str());
        proof {
            assert(t0.subrange(0, t0.len() as int) =~= t0);
            assert(t0.subrange(t0.len() as int, t0.len() as int) =~= Seq::<char>::empty());
            assert(self.input.text() =~= t0 + g@);
        }
        match command {
            Some(c) => {
                if c.slots().len() > 0 {
                    self.input.insert(' ');
                    proof {
                        assert(self.input.text() =~= t0 + g@.push(' '));
                    }
                }
            },
            None => {},
        }
        self.history_pos = None;
        self.stash = None;
        self.selected = 0;
        true
    }

    /// One key. Editing keys go to the input, `tab` and `→` at the end take the ghost, the
    /// arrows move the selection, `ctrl-p`/`ctrl-n` walk the history, and `enter` hands the app
    /// the selected row with every word after the head.
    pub fn key(&mut self, key: Key) -> (r: Action)
        requires
            recall_ok(old(self).history@.len() as int, old(self).history_pos),
        ensures
            recall_ok(final(self).history@.len() as int, final(self).history_pos),
            final(self).history == old(self).history,
            final(self).entries == old(self).entries,
            final(self).slot == old(self).slot,
            key_spec(*old(self), key, *final(self), r),
    {
        match key {
            Key::Esc => Action::Cancelled,
            Key::Tab => {
                if self.accept_ghost() {
                    Action::Completed
                } else {
                    self.down();
                    Action::Moved
                }
            },
            Key::Right => {
                if self.input.at_end() {
                    if self.accept_ghost() {
                        Action::Completed
                    } else {
                        Action::Ignored
                    }
                } else {
                    self.input_key(key)
                }
            },
            Key::Down => {
                self.down();
                Action::Moved
            },
            Key::Up | Key::BackTab => {
                self.selected = if self.selected > 0 { self.selected - 1 } else { 0 };
                Action::Moved
            },
            Key::Enter => {
                let args = self.args();
                match self.current() {
                    Some(entry) => Action::Chose(entry.duplicate(), args),
                    None => Action::Ignored,
                }
            },
            Key::Ctrl('p') => self.recall_back(),
            Key::Ctrl('n') => self.recall_forward(),
            _ => self.input_key(key),
        }
    }

    /// An editing key, from the one key map the input owns.
    fn input_key(&mut self, key: Key) -> (r: Action)
        ensures
            final(self).history == old(self).history,
            final(self).entries == old(self).entries,
            final(self).slot == old(self).slot,
            edit_spec(*old(self), key, *final(self), r),
    {
        match self.input.key(key) {
            Some(Edit::Changed) => self.edited(),
            Some(Edit::Moved) => Action::Moved,
            _ => Action::Ignored,
        }
    }
}

/// What an editing key does to the palette: the input changes as its key map says; a change
/// also resets the selection and ends a recall.
pub open spec fn edit_spec(old: Palette, key: Key, new: Palette, r: Action) -> bool {
    let (edit, text, pos) = crate::text::key_edit(old.input, key);
    &&& new.input.text() == text
    &&& new.input.pos() == pos
    &&& match edit {
        Some(Edit::Changed) => {
            &&& r == Action::Edited
            &&& new.selected == 0
            &&& new.history_pos is None
            &&& new.stash is None
        },
        Some(Edit::Moved) => {
            &&& r == Action::Moved
            &&& new.selected == old.selected
            &&& new.history_pos == old.history_pos
            &&& new.stash == old.stash
        },
        _ => {
            &&& r == Action::Ignored
            &&& new.selected == old.selected
            &&& new.history_pos == old.history_pos
            &&& new.stash == old.stash
        },
    }
}


/// What `ctrl-p` does: the first press stashes the line and shows the newest accepted line;
/// later presses walk back; at the oldest nothing happens.
pub open spec fn recall_back_spec(old: Palette, new: Palette, r: Action) -> bool {
    &&& new.history == old.history
    &&& {
                let h = old.history@;
                match old.history_pos {
                    None => if h.len() == 0 {
                        r == Action::Ignored && new == old
                    } else {
                        &&& r == Action::Edited
                        &&& opt_view(new.stash) == Some(old.input.text())
                        &&& new.history_pos == Some((h.len() - 1) as usize)
                        &&& new.input.text() == h[h.len() - 1]@
                        &&& new.input.pos() == h[h.len() - 1]@.len()
                        &&& new.selected == 0
                    },
                    Some(i) => if i == 0 {
                        r == Action::Ignored && new == old
                    } else {
                        &&& r == Action::Edited
                        &&& new.stash == old.stash
                        &&& new.history_pos == Some((i - 1) as usize)
                        &&& new.input.text() == h[i - 1]@
                        &&& new.input.pos() == h[i - 1]@.len()
                        &&& new.selected == 0
                    },
                }
            }
}

/// What `ctrl-n` does: walks forward; past the newest it gives the stash back.
pub open spec fn recall_forward_spec(old: Palette, new: Palette, r: Action) -> bool {
    &&& new.history == old.history
    &&& {
                let h = old.history@;
                match old.history_pos {
                    None => r == Action::Ignored && new == old,
                    Some(i) => {
                        &&& r == Action::Edited
                        &&& new.selected == 0
                        &&& if i + 1 < h.len() {
                            &&& new.history_pos == Some((i + 1) as usize)
                            &&& new.stash == old.stash
                            &&& new.input.text() == h[i + 1]@
                            &&& new.input.pos() == h[i + 1]@.len()
                        } else {
                            &&& new.history_pos is None
                            &&& new.stash is None
                            &&& new.input.text() == match opt_view(old.stash) {
                                Some(s) => s,
                                None => Seq::<char>::empty(),
                            }
                            &&& new.input.pos() == new.input.text().len()
                        }
                    },
                }
            }
}

/// What one key does to the palette.
pub open spec fn key_spec(old: Palette, key: Key, new: Palette, r: Action) -> bool {
    let unchanged = new == old;
    let took = old.ghost_now() is Some;
    let completed = {
        &&& r == Action::Completed
        &&& new.input.text() == old.input.text() + accepted_spec(old.ghost_now()->0, old.current_view())
        &&& new.input.pos() == new.input.text().len()
        &&& new.history_pos is None
        &&& new.stash is None
        &&& new.selected == 0
    };
    match key {
        Key::Esc => r == Action::Cancelled && unchanged,
        Key::Tab => if took {
            completed
        } else {
            &&& r == Action::Moved
            &&& new.selected == down_spec(old.selected as int, old.entries@.len() as int)
            &&& new.input == old.input
            &&& new.history_pos == old.history_pos
            &&& new.stash == old.stash
        },
        Key::Right => if old.input.pos() == old.input.text().len() {
            if took { completed } else { r == Action::Ignored && unchanged }
        } else {
            edit_spec(old, key, new, r)
        },
        Key::Down => {
            &&& r == Action::Moved
            &&& new.selected == down_spec(old.selected as int, old.entries@.len() as int)
            &&& new.input == old.input
            &&& new.history_pos == old.history_pos
            &&& new.stash == old.stash
        },
        Key::Up | Key::BackTab => {
            &&& r == Action::Moved
            &&& new.selected == if old.selected > 0 { old.selected - 1 } else { 0 }
            &&& new.input == old.input
            &&& new.history_pos == old.history_pos
            &&& new.stash == old.stash
        },
        Key::Enter => unchanged && match old.current_view() {
            Some(e) => r matches Action::Chose(chosen, args) && chosen@ == e && strings_view(args@) == args_spec(old.input.text()),
            None => r == Action::Ignored,
        },
        Key::Ctrl(c) => if c == 'p' {
            recall_back_spec(old, new, r)
        } else if c == 'n' {
            recall_forward_spec(old, new, r)
        } else {
            edit_spec(old, key, new, r)
        },
        _ => edit_spec(old, key, new, r),
    }
}

/// `ctrl-p` then `ctrl-n`, from a line being typed with something accepted before it, gives the
/// typed line back: the recall is left, nothing stays stashed, and the cursor is at its end.
pub proof fn lemma_recall_round_trip(typing: Palette, recalled: Palette, back: Palette, r1: Action, r2: Action)
    requires
        typing.history_pos is None,
        typing.history@.len() > 0,
        key_spec(typing, Key::Ctrl('p'), recalled, r1),
        key_spec(recalled, Key::Ctrl('n'), back, r2),
    ensures
        r1 == Action::Edited,
        r2 == Action::Edited,
        back.input.text() == typing.input.text(),
        back.input.pos() == typing.input.text().len(),
        back.history_pos is None,
        back.stash is None,
        back.history == typing.history,
{
    let n = typing.history@.len();
    assert(n == typing.history.len());
    assert(recall_back_spec(typing, recalled, r1));
    assert(recalled.history_pos == Some((n - 1) as usize));
    assert(opt_view(recalled.stash) == Some(typing.input.text()));
    assert(recall_forward_spec(recalled, back, r2));
    assert(!((n - 1) as usize + 1 < recalled.history@.len()));
}

} // verus!

