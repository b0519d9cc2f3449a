//! What happens between choosing an action and its result: the rows it applies to, the
//! refusal that stops it before the wire - journalled, every row of it - the menu's and the
//! confirm's answers, the requests it plans, and what each answer settles the journal to and
//! says.

use vstd::prelude::*;
use crate::ascii::{concat, decimal, decimal_string};
use crate::catalog::opt_view;
use crate::confirm::{ConfirmKind, Event as ConfirmEvent};
use crate::form::pairs_view;
use crate::catalog::strings_view;
use crate::contexts::holds;
use crate::shell::{Mode, Shell, ShellV};
use crate::menu::{ActionRef, Event as MenuEvent};

verus! {

/// The guardrails' answer for an action about to run.
#[derive(Debug, Clone, PartialEq, Eq)]
pub enum Verdict {
    Allow,
    /// Ask first, with this confirm.
    Confirm(ConfirmKind),
    ReadOnly,
    Deny(String),
    NotPermitted(String),
    TooMany,
}

/// A copy of a list of `(ext_id, name)` rows.
fn copy_rows(rows: &Vec<(String, String)>) -> (r: Vec<(String, String)>)
    ensures
        pairs_view(r@) == pairs_view(rows@),
{
    let mut r: Vec<(String, String)> = Vec::new();
    let mut i: usize = 0;
    while i < rows.len()
        invariant
            i <= rows@.len(),
            pairs_view(r@) == pairs_view(rows@.subrange(0, i as int)),
        decreases rows.len() - i,
    {
        r.push((rows[i].0.clone(), rows[i].1.clone()));
        proof {
            assert(pairs_view(rows@.subrange(0, i + 1)) =~= pairs_view(rows@.subrange(0, i as int)).push((rows@[i as int].0@, rows@[i as int].1@)));
            assert(pairs_view(r@) =~= pairs_view(rows@.subrange(0, i + 1)));
        }
        i = i + 1;
    }
    proof {
        assert(rows@.subrange(0, rows@.len() as int) =~= rows@);
    }
    r
}

/// What starting an action comes to.
#[derive(Debug, Clone, PartialEq, Eq)]
pub enum Start {
    /// Refused before the wire: every row is journalled as refused, and the status line is the
    /// reason. Nothing is sent.
    Refused { journal: Vec<(String, String)>, status: String },
    /// No row to act on: the status line says so.
    NoRow(String),
    /// The curated body did not parse: the status line says so and nothing is sent.
    Malformed(String),
    /// The action's form opens first, over these rows; the confirm comes after it.
    Form(Vec<(String, String)>),
    /// Straight on to the confirm, or to the run, for these rows.
    Confirm(Vec<(String, String)>),
}

/// What starting an action on `subjects` comes to. A refusal comes first and journals every
/// subject; then an empty selection; then a curated body that does not parse; then the form,
/// when the action asks for a body nobody curated.
pub open spec fn start_spec(
    refusal: Option<Seq<char>>,
    subjects: Seq<(Seq<char>, Seq<char>)>,
    title: Seq<char>,
    body_error: Option<Seq<char>>,
    asks: bool,
    r: Start,
) -> bool {
    match refusal {
        Some(why) => r matches Start::Refused { journal, status } && pairs_view(journal@) == subjects && status@ == why,
        None => if subjects.len() == 0 {
            r matches Start::NoRow(m) && m@ == "no row selected"@
        } else {
            match body_error {
                Some(e) => r matches Start::Malformed(m) && m@ == title + ": malformed curated body: "@ + e,
                None => if asks {
                    r matches Start::Form(rows) && pairs_view(rows@) == subjects
                } else {
                    r matches Start::Confirm(rows) && pairs_view(rows@) == subjects
                },
            }
        },
    }
}

/// The menu's `enter`, and every curated key. `refusal` is what read-only, the guardrails and
/// the account's permissions say of the action on this many rows; `subjects` the rows it would
/// act on; `body_error` why the curated body did not parse, when it did not; `asks` whether the
/// action needs a body from its form.
pub fn start(
    refusal: Option<String>,
    subjects: Vec<(String, String)>,
    title: &str,
    body_error: Option<String>,
    asks: bool,
) -> (r: Start)
    ensures
        start_spec(opt_view(refusal), pairs_view(subjects@), title@, opt_view(body_error), asks, r),
{
    if let Some(why) = refusal {
        return Start::Refused { journal: subjects, status: why };
    }
    if subjects.len() == 0 {
        proof {
            reveal_strlit("no row selected");
        }
        return Start::NoRow("no row selected".to_string());
    }
    if let Some(e) = body_error {
        proof {
            reveal_strlit(": malformed curated body: ");
        }
        let head = concat(title, ": malformed curated body: ");
        return Start::Malformed(concat(head.as_str(), e.as_str()));
    }
    if asks {
        Start::Form(subjects)
    } else {
        Start::Confirm(subjects)
    }
}

/// What the last check before the wire comes to.
#[derive(Debug, Clone, PartialEq, Eq)]
pub enum Step {
    /// Refused: every pending row is journalled as refused, the status line is the reason, the
    /// pending action is dropped, and nothing is sent.
    Refused { journal: Vec<(String, String)>, status: String },
    /// No table to act in: nothing happens.
    Nothing,
    /// The confirm opens, of this kind.
    Confirm(ConfirmKind),
    /// Run it.
    Run,
    /// Dropped without a send.
    Dropped,
}

/// The last check before the wire, asked again rather than carried from the start: a refusal
/// that landed while the form sat open must not become a send. A refusal journals every pending
/// row; `Confirm` opens the dialog; `Allow` runs; any other verdict drops the action.
pub open spec fn confirm_or_run_spec(rows: Seq<(Seq<char>, Seq<char>)>, refusal: Option<Seq<char>>, verdict: Option<Verdict>, r: Step) -> bool {
    match refusal {
        Some(why) => r matches Step::Refused { journal, status } && pairs_view(journal@) == rows && status@ == why,
        None => match verdict {
            None => r == Step::Nothing,
            Some(Verdict::Confirm(k)) => r == Step::Confirm(k),
            Some(Verdict::Allow) => r == Step::Run,
            Some(_) => r == Step::Dropped,
        },
    }
}

/// The last check before the wire, for the pending `rows`. `refusal` is what the policy says
/// now; `verdict` the guardrails' answer, `None` when there is no table to act in.
pub fn confirm_or_run(rows: &Vec<(String, String)>, refusal: Option<String>, verdict: Option<Verdict>) -> (r: Step)
    ensures
        confirm_or_run_spec(pairs_view(rows@), opt_view(refusal), verdict, r),
{
    if let Some(why) = refusal {
        return Step::Refused { journal: copy_rows(rows), status: why };
    }
    match verdict {
        None => Step::Nothing,
        Some(Verdict::Confirm(k)) => Step::Confirm(k),
        Some(Verdict::Allow) => Step::Run,
        Some(_) => Step::Dropped,
    }
}

/// What the confirm dialog's answer comes to.
#[derive(Debug, Clone, PartialEq, Eq)]
pub enum ConfirmStep {
    Nothing,
    /// The names typed are not the ones asked for: the status line says so.
    Mismatch(String),
    /// The dialog, the menu and the pending action go, and the screen acted from comes back.
    Cancel,
    Run,
}

/// What the confirm dialog's answer comes to: `Run` runs, `Cancelled` drops the action, a
/// mismatch says so, and typing does nothing more.
pub fn confirm_step(e: ConfirmEvent) -> (r: ConfirmStep)
    ensures
        match e {
            ConfirmEvent::Typed | ConfirmEvent::Ignored => r == ConfirmStep::Nothing,
            ConfirmEvent::Cancelled => r == ConfirmStep::Cancel,
            ConfirmEvent::Run => r == ConfirmStep::Run,
            ConfirmEvent::Mismatch => r matches ConfirmStep::Mismatch(m) && m@ == "names do not match"@,
        },
{
    match e {
        ConfirmEvent::Typed | ConfirmEvent::Ignored => ConfirmStep::Nothing,
        ConfirmEvent::Cancelled => ConfirmStep::Cancel,
        ConfirmEvent::Run => ConfirmStep::Run,
        ConfirmEvent::Mismatch => {
            proof {
                reveal_strlit("names do not match");
            }
            ConfirmStep::Mismatch("names do not match".to_string())
        },
    }
}

/// How one pending row's request came out of planning.
#[derive(Debug, Clone, PartialEq, Eq)]
pub enum RowPlan {
    /// The row is no longer in the table: nothing is sent for it.
    Missing,
    /// Its body or its request could not be built: why.
    Failed(String),
    /// Planned: it is journalled as started and sent.
    Planned,
}

/// What running the pending action plans.
#[derive(Debug, Clone, PartialEq, Eq)]
pub struct RunPlan {
    /// The rows that are journalled as started and sent, in table order.
    pub started: Vec<usize>,
    /// Whether the marks are spent.
    pub clear_marks: bool,
    pub status: Option<String>,
}

/// The rows of the first `n` that were planned, in order.
pub open spec fn planned_upto(plans: Seq<RowPlan>, n: int) -> Seq<usize>
    decreases n,
{
    if n <= 0 {
        Seq::empty()
    } else if plans[n - 1] == RowPlan::Planned {
        planned_upto(plans, n - 1).push((n - 1) as usize)
    } else {
        planned_upto(plans, n - 1)
    }
}

/// The first planning failure among the first `n` rows.
pub open spec fn first_failure(plans: Seq<RowPlan>, n: int) -> Option<Seq<char>>
    decreases n,
{
    if n <= 0 {
        None
    } else {
        match first_failure(plans, n - 1) {
            Some(f) => Some(f),
            None => match plans[n - 1] {
                RowPlan::Failed(why) => Some(why@),
                _ => None,
            },
        }
    }
}

/// What running the pending action comes to. With no runtime to send from nothing is sent and
/// the status line says so. Otherwise every planned row, in table order, is journalled and
/// sent; the marks are spent when any was; the status line is the first failure, or the count
/// when more than one started.
pub open spec fn run_plan_spec(plans: Seq<RowPlan>, runtime: bool, r: RunPlan) -> bool {
    if !runtime {
        &&& r.started@.len() == 0
        &&& !r.clear_marks
        &&& opt_view(r.status) == Some("no async runtime: cannot act from here"@)
    } else {
        let started = planned_upto(plans, plans.len() as int);
        &&& r.started@ == started
        &&& r.clear_marks == (started.len() > 0)
        &&& opt_view(r.status) == match first_failure(plans, plans.len() as int) {
            Some(f) => Some(f),
            None => if started.len() > 1 { Some(decimal(started.len()) + " actions started"@) } else { None },
        }
    }
}

/// One request per planned row, journalled in table order whatever the network does with them;
/// a row that failed to plan does not stop the rest.
pub fn plan_run(plans: &Vec<RowPlan>, runtime: bool) -> (r: RunPlan)
    ensures
        run_plan_spec(plans@, runtime, r),
{
    if !runtime {
        proof {
            reveal_strlit("no async runtime: cannot act from here");
        }
        return RunPlan { started: Vec::new(), clear_marks: false, status: Some("no async runtime: cannot act from here".to_string()) };
    }
    let mut started: Vec<usize> = Vec::new();
    let mut failure: Option<String> = None;
    let mut i: usize = 0;
    while i < plans.len()
        invariant
            i <= plans@.len(),
            started@ == planned_upto(plans@, i as int),
            opt_view(failure) == first_failure(plans@, i as int),
        decreases plans.len() - i,
    {
        match &plans[i] {
            RowPlan::Planned => started.push(i),
            RowPlan::Failed(why) => {
                if failure.is_none() {
                    failure = Some(why.clone());
                }
            },
            RowPlan::Missing => {},
        }
        i = i + 1;
    }
    let n = started.len();
    let status = match failure {
        Some(f) => Some(f),
        None => if n > 1 {
            proof {
                reveal_strlit(" actions started");
            }
            Some(concat(decimal_string(n as u64).as_str(), " actions started"))
        } else {
            None
        },
    };
    RunPlan { started, clear_marks: n > 0, status }
}

/// What a request came back with.
#[derive(Debug, Clone, PartialEq, Eq)]
pub enum Outcome {
    /// A task was started: its extId.
    Started(String),
    Done,
    /// A document came back for the user to read.
    Returned,
    /// It failed: what the status line says, the far end's own words, and whether the server
    /// refused the account.
    Failed { text: String, upstream: String, forbidden: bool },
}

/// What a journal entry settles to.
#[derive(Debug, Clone, PartialEq, Eq)]
pub enum JournalState {
    Started,
    Succeeded,
    /// Failed, with the far end's own words.
    Failed(String),
}

/// What an answer settles.
#[derive(Debug, Clone, PartialEq, Eq)]
pub struct Settled {
    pub journal: JournalState,
    /// The task id the entry records, when a task was started.
    pub task: Option<String>,
    /// Whether a watch opens on the task.
    pub watch: bool,
    /// Whether the row is refreshed out of band.
    pub refresh: bool,
    /// The title of the document pane to open, when a document came back.
    pub payload: Option<String>,
    /// Whether the answer to "may this account act" is to be asked again.
    pub invalidate: bool,
}

/// What an answer to `action` on the row `name` settles, and what the status line says. A
/// started task is watched and its id recorded; a done action refreshes its row; a document is
/// opened; a failure journals the far end's words, says the short account, and - when the server
/// refused the account - asks the permissions again.
pub open spec fn settle_spec(action: Seq<char>, title: Seq<char>, name: Seq<char>, o: Outcome, s: Settled, status: Seq<char>) -> bool {
    match o {
        Outcome::Started(task) => {
            &&& s.journal == JournalState::Started
            &&& opt_view(s.task) == Some(task@)
            &&& s.watch && !s.refresh && s.payload is None && !s.invalidate
            &&& status == action + " "@ + name + ": task started"@
        },
        Outcome::Done => {
            &&& s.journal == JournalState::Succeeded
            &&& s.task is None && !s.watch && s.refresh && s.payload is None && !s.invalidate
            &&& status == action + " "@ + name + ": done"@
        },
        Outcome::Returned => {
            &&& s.journal == JournalState::Succeeded
            &&& s.task is None && !s.watch && !s.refresh && !s.invalidate
            &&& opt_view(s.payload) == Some(title + " "@ + name)
            &&& status == action + " "@ + name + ": done"@
        },
        Outcome::Failed { text, upstream, forbidden } => {
            &&& s.journal matches JournalState::Failed(u) && u@ == upstream@
            &&& s.task is None && !s.watch && !s.refresh && s.payload is None
            &&& s.invalidate == forbidden
            &&& status == action + " "@ + name + " failed: "@ + text@
        },
    }
}

/// The result of a mutation: what its journal entry settles to, what follows from it, and the
/// status line.
pub fn settle(action: &str, title: &str, name: &str, o: Outcome) -> (r: (Settled, String))
    ensures
        settle_spec(action@, title@, name@, o, r.0, r.1@),
{
    proof {
        reveal_strlit(" ");
        reveal_strlit(": task started");
        reveal_strlit(": done");
        reveal_strlit(" failed: ");
    }
    let head = concat(action, " ");
    let head = concat(head.as_str(), name);
    match o {
        Outcome::Started(task) => (
            Settled { journal: JournalState::Started, task: Some(task), watch: true, refresh: false, payload: None, invalidate: false },
            concat(head.as_str(), ": task started"),
        ),
        Outcome::Done => (
            Settled { journal: JournalState::Succeeded, task: None, watch: false, refresh: true, payload: None, invalidate: false },
            concat(head.as_str(), ": done"),
        ),
        Outcome::Returned => {
            let t = concat(title, " ");
            (
                Settled { journal: JournalState::Succeeded, task: None, watch: false, refresh: false, payload: Some(concat(t.as_str(), name)), invalidate: false },
                concat(head.as_str(), ": done"),
            )
        },
        Outcome::Failed { text, upstream, forbidden } => {
            let s = concat(head.as_str(), " failed: ");
            (
                Settled { journal: JournalState::Failed(upstream), task: None, watch: false, refresh: false, payload: None, invalidate: forbidden },
                concat(s.as_str(), text.as_str()),
            )
        },
    }
}


/// The ids among the first `n` of `ordered` that are marked, in order.
pub open spec fn marked_upto(ordered: Seq<Seq<char>>, marks: Seq<Seq<char>>, n: int) -> Seq<Seq<char>>
    decreases n,
{
    if n <= 0 {
        Seq::empty()
    } else if marks.contains(ordered[n - 1]) {
        marked_upto(ordered, marks, n - 1).push(ordered[n - 1])
    } else {
        marked_upto(ordered, marks, n - 1)
    }
}

/// The rows an action applies to: the marked ones in the order the view shows them, or - with
/// nothing marked - the row under the cursor, when there is one.
pub open spec fn subjects_spec(ordered: Seq<Seq<char>>, selected: int, marks: Seq<Seq<char>>) -> Seq<Seq<char>> {
    if marks.len() == 0 {
        if 0 <= selected < ordered.len() { seq![ordered[selected]] } else { Seq::empty() }
    } else {
        marked_upto(ordered, marks, ordered.len() as int)
    }
}

/// The ids of the rows an action applies to. `ordered` is the view's ids in the order it shows
/// them, filter included, so a mark made before a term narrowed the view is left out - and the
/// confirm names every row it is about to send to.
pub fn subjects(ordered: &Vec<String>, selected: usize, marks: &Vec<String>) -> (r: Vec<String>)
    ensures
        strings_view(r@) == subjects_spec(strings_view(ordered@), selected as int, strings_view(marks@)),
{
    let ghost ov = strings_view(ordered@);
    let mut r: Vec<String> = Vec::new();
    if marks.len() == 0 {
        if selected < ordered.len() {
            r.push(ordered[selected].clone());
            proof {
                assert(strings_view(r@) =~= seq![ov[selected as int]]);
            }
        } else {
            proof {
                assert(strings_view(r@) =~= Seq::<Seq<char>>::empty());
            }
        }
        return r;
    }
    let mut i: usize = 0;
    while i < ordered.len()
        invariant
            i <= ordered@.len(),
            ov == strings_view(ordered@),
            strings_view(r@) == marked_upto(ov, strings_view(marks@), i as int),
        decreases ordered.len() - i,
    {
        if holds(marks.as_slice(), ordered[i].as_str()) {
            r.push(ordered[i].clone());
            proof {
                assert(strings_view(r@) =~= marked_upto(ov, strings_view(marks@), i as int).push(ov[i as int]));
            }
        }
        i = i + 1;
    }
    r
}

/// What the action menu says it acts on: the one row's name, the count and the kind for
/// several, and that no row is selected for none.
pub open spec fn menu_subject_spec(subjects: Seq<(Seq<char>, Seq<char>)>, display: Seq<char>) -> Seq<char> {
    if subjects.len() == 1 {
        subjects[0].1
    } else if subjects.len() == 0 {
        "no row selected"@
    } else {
        decimal(subjects.len()) + " "@ + display
    }
}

/// What the action menu says it acts on.
pub fn menu_subject(subjects: &Vec<(String, String)>, display: &str) -> (r: String)
    ensures
        r@ == menu_subject_spec(pairs_view(subjects@), display@),
{
    if subjects.len() == 1 {
        subjects[0].1.clone()
    } else if subjects.len() == 0 {
        proof {
            reveal_strlit("no row selected");
        }
        "no row selected".to_string()
    } else {
        proof {
            reveal_strlit(" ");
        }
        let n = decimal_string(subjects.len() as u64);
        let head = concat(n.as_str(), " ");
        concat(head.as_str(), display)
    }
}


/// A refused action journals every row it would have acted on, whatever the rest of it is.
pub proof fn a_refusal_journals_every_row(
    why: Seq<char>,
    subjects: Seq<(Seq<char>, Seq<char>)>,
    title: Seq<char>,
    body_error: Option<Seq<char>>,
    asks: bool,
    r: Start,
    rows: Seq<(Seq<char>, Seq<char>)>,
    verdict: Option<Verdict>,
    s: Step,
)
    requires
        start_spec(Some(why), subjects, title, body_error, asks, r),
        confirm_or_run_spec(rows, Some(why), verdict, s),
    ensures
        r matches Start::Refused { journal, status } && pairs_view(journal@) == subjects && status@ == why,
        s matches Step::Refused { journal, status } && pairs_view(journal@) == rows && status@ == why,
{
}

/// Every planned row is started exactly once, in table order, and no other row is.
pub proof fn planned_rows_start_once_in_table_order(plans: Seq<RowPlan>, n: int)
    requires
        0 <= n <= plans.len(),
        n <= usize::MAX,
    ensures
        forall|k: int| 0 <= k < planned_upto(plans, n).len() ==> {
            let i = #[trigger] planned_upto(plans, n)[k];
            &&& i < n
            &&& plans[i as int] == RowPlan::Planned
        },
        forall|j: int, k: int| 0 <= j < k < planned_upto(plans, n).len() ==> planned_upto(plans, n)[j] < planned_upto(plans, n)[k],
        forall|i: int| 0 <= i < n && plans[i] == RowPlan::Planned ==> #[trigger] planned_upto(plans, n).contains(i as usize),
    decreases n,
{
    if n > 0 {
        planned_rows_start_once_in_table_order(plans, n - 1);
        let prev = planned_upto(plans, n - 1);
        if plans[n - 1] == RowPlan::Planned {
            let cur = prev.push((n - 1) as usize);
            assert(planned_upto(plans, n) == cur);
            assert forall|i: int| 0 <= i < n && plans[i] == RowPlan::Planned implies #[trigger] cur.contains(i as usize) by {
                if i < n - 1 {
                    assert(prev.contains(i as usize));
                    let w = choose|w: int| 0 <= w < prev.len() && prev[w] == i as usize;
                    assert(cur[w] == i as usize);
                } else {
                    assert(cur[prev.len() as int] == i as usize);
                }
            }
        } else {
            assert forall|i: int| 0 <= i < n && plans[i] == RowPlan::Planned implies #[trigger] prev.contains(i as usize) by {
                assert(i < n - 1);
            }
        }
    }
}


/// The screen an action was started from, and goes back to: the detail pane when one is open,
/// else the table.
pub open spec fn acting_from_spec(detail_open: bool) -> Mode {
    if detail_open { Mode::Detail } else { Mode::Table }
}

/// The screen an action was started from, and goes back to.
pub fn acting_from(detail_open: bool) -> (r: Mode)
    ensures
        r == acting_from_spec(detail_open),
{
    if detail_open { Mode::Detail } else { Mode::Table }
}

/// What an answer of the action menu comes to.
#[derive(Debug, Clone, PartialEq, Eq)]
pub enum MenuStep {
    Nothing,
    /// The menu closed and the screen it was opened from is back.
    Closed,
    /// Start this action. A greyed row is not refused here: starting it composes the same
    /// reason the row shows, so the menu and a direct key never disagree about why.
    Start(ActionRef),
}

/// One answer of the action menu. `detail_open` is whether a detail pane is under it.
pub fn menu_step(s: &mut Shell, detail_open: bool, e: MenuEvent) -> (r: MenuStep)
    ensures
        match e {
            MenuEvent::Cancelled => r == MenuStep::Closed && final(s)@ == (ShellV { mode: acting_from_spec(detail_open), ..old(s)@ }),
            MenuEvent::Chose(a) => r == MenuStep::Start(a) && final(s)@ == old(s)@,
            _ => r == MenuStep::Nothing && final(s)@ == old(s)@,
        },
{
    match e {
        MenuEvent::Cancelled => {
            s.mode = acting_from(detail_open);
            MenuStep::Closed
        },
        MenuEvent::Chose(a) => MenuStep::Start(a),
        _ => MenuStep::Nothing,
    }
}


/// What of an action is in flight over the screen.
#[derive(Debug, Clone, Copy, PartialEq, Eq, Structural)]
pub struct Acting {
    /// An action chosen and waiting to run.
    pub pending: bool,
    /// The confirm dialog is open.
    pub confirm: bool,
    /// The action menu is open.
    pub menu: bool,
}

/// The status line after a run: what the plan says, or what was there when it says nothing.
pub open spec fn status_after(old: Option<Seq<char>>, plan: RunPlan) -> Option<Seq<char>> {
    match plan.status {
        Some(st) => Some(st@),
        None => old,
    }
}

/// Run the pending action. With nothing pending nothing happens. Otherwise the pending action,
/// the confirm and the menu all go, the screen acted from comes back - the detail pane when one
/// is open, else the table - and the rows are planned as [`plan_run`] plans them: with no
/// runtime to send from, nothing is journalled or sent and the status line says so.
pub fn run_pending(s: &mut Shell, a: &mut Acting, detail_open: bool, plans: &Vec<RowPlan>, runtime: bool) -> (r: Option<RunPlan>)
    ensures
        !old(a).pending ==> r is None && *final(a) == *old(a) && final(s)@ == old(s)@,
        old(a).pending ==> {
            &&& *final(a) == (Acting { pending: false, confirm: false, menu: false })
            &&& r matches Some(p) && run_plan_spec(plans@, runtime, p)
                && final(s)@ == (ShellV { mode: acting_from_spec(detail_open), status: status_after(old(s)@.status, p), ..old(s)@ })
        },
{
    if !a.pending {
        return None;
    }
    a.pending = false;
    a.confirm = false;
    a.menu = false;
    s.mode = acting_from(detail_open);
    let p = plan_run(plans, runtime);
    match &p.status {
        Some(st) => s.status = Some(st.clone()),
        None => {},
    }
    Some(p)
}

/// The confirm dialog's answer applied: a cancel drops the dialog, the menu and the pending
/// action and goes back where the action was started; a mismatch says so on the status line.
pub fn confirm_answer(s: &mut Shell, a: &mut Acting, detail_open: bool, e: ConfirmEvent) -> (r: ConfirmStep)
    ensures
        match e {
            ConfirmEvent::Cancelled => r == ConfirmStep::Cancel
                && *final(a) == (Acting { pending: false, confirm: false, menu: false })
                && final(s)@ == (ShellV { mode: acting_from_spec(detail_open), ..old(s)@ }),
            ConfirmEvent::Mismatch => (r matches ConfirmStep::Mismatch(m) && m@ == "names do not match"@)
                && *final(a) == *old(a)
                && final(s)@ == (ShellV { status: Some("names do not match"@), ..old(s)@ }),
            ConfirmEvent::Run => r == ConfirmStep::Run && *final(a) == *old(a) && final(s)@ == old(s)@,
            _ => r == ConfirmStep::Nothing && *final(a) == *old(a) && final(s)@ == old(s)@,
        },
{
    let r = confirm_step(e);
    match &r {
        ConfirmStep::Cancel => {
            a.pending = false;
            a.confirm = false;
            a.menu = false;
            s.mode = acting_from(detail_open);
        },
        ConfirmStep::Mismatch(m) => {
            s.status = Some(m.clone());
        },
        _ => {},
    }
    r
}

} // verus!
