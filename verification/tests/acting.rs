use nutsh_tui::acting::{
    confirm_answer, run_pending, Acting, acting_from, menu_step, MenuStep, menu_subject, subjects, confirm_or_run, confirm_step, plan_run, settle, start, ConfirmStep, JournalState, Outcome, RowPlan, Settled, Start,
    Step, Verdict,
};
use nutsh_tui::confirm::{ConfirmKind, Event as ConfirmEvent};
use nutsh_tui::menu::{ActionRef, Event as MenuEvent};
use nutsh_tui::shell::{Focus, Mode, Shell};

fn rows(names: &[&str]) -> Vec<(String, String)> {
    names.iter().enumerate().map(|(i, n): (usize, &&str)| (format!("id-{i}"), n.to_string())).collect()
}

#[test]
fn read_only_refuses_before_the_wire_and_journals_every_row() {
    let r = start(Some("read-only: :ctx rw to act".to_string()), rows(&["web01", "web02"]), "Power off", None, false);
    assert_eq!(
        r,
        Start::Refused { journal: rows(&["web01", "web02"]), status: "read-only: :ctx rw to act".to_string() }
    );
}

#[test]
fn starting_on_no_rows_or_a_broken_body_sends_nothing() {
    assert_eq!(start(None, vec![], "Power off", None, false), Start::NoRow("no row selected".to_string()));
    assert_eq!(
        start(None, rows(&["web01"]), "Power off", Some("expected value at line 1".to_string()), false),
        Start::Malformed("Power off: malformed curated body: expected value at line 1".to_string())
    );
    assert_eq!(start(None, rows(&["web01"]), "Clone", None, true), Start::Form(rows(&["web01"])));
    assert_eq!(start(None, rows(&["web01"]), "Power off", None, false), Start::Confirm(rows(&["web01"])));
}

#[test]
fn the_last_check_before_the_wire_answers_each_verdict() {
    let pending = rows(&["web01", "web02", "web03"]);
    assert_eq!(
        confirm_or_run(&pending, Some("not permitted".to_string()), Some(Verdict::Allow)),
        Step::Refused { journal: pending.clone(), status: "not permitted".to_string() }
    );
    assert_eq!(confirm_or_run(&pending, None, None), Step::Nothing);
    assert_eq!(confirm_or_run(&pending, None, Some(Verdict::Allow)), Step::Run);
    assert_eq!(
        confirm_or_run(&pending, None, Some(Verdict::Confirm(ConfirmKind::TypeName))),
        Step::Confirm(ConfirmKind::TypeName)
    );
    assert_eq!(confirm_or_run(&pending, None, Some(Verdict::TooMany)), Step::Dropped);
    assert_eq!(confirm_or_run(&pending, None, Some(Verdict::Deny("guardrail".to_string()))), Step::Dropped);
    assert_eq!(confirm_or_run(&pending, None, Some(Verdict::ReadOnly)), Step::Dropped);
}

#[test]
fn the_confirm_answer_runs_cancels_or_says_the_names_differ() {
    assert_eq!(confirm_step(ConfirmEvent::Run), ConfirmStep::Run);
    assert_eq!(confirm_step(ConfirmEvent::Cancelled), ConfirmStep::Cancel);
    assert_eq!(confirm_step(ConfirmEvent::Typed), ConfirmStep::Nothing);
    assert_eq!(confirm_step(ConfirmEvent::Mismatch), ConfirmStep::Mismatch("names do not match".to_string()));
}

#[test]
fn planning_journals_every_planned_row_in_table_order() {
    let plans = vec![
        RowPlan::Planned,
        RowPlan::Missing,
        RowPlan::Failed("no body".to_string()),
        RowPlan::Planned,
        RowPlan::Failed("later".to_string()),
    ];
    let p = plan_run(&plans, true);
    assert_eq!(p.started, vec![0, 3]);
    assert!(p.clear_marks);
    assert_eq!(p.status.as_deref(), Some("no body"), "the first failure is what the status line says");
    let p = plan_run(&vec![RowPlan::Planned, RowPlan::Planned, RowPlan::Planned], true);
    assert_eq!(p.status.as_deref(), Some("3 actions started"));
    let p = plan_run(&vec![RowPlan::Planned], true);
    assert_eq!(p.status, None);
    let p = plan_run(&vec![RowPlan::Missing], true);
    assert!(!p.clear_marks && p.started.is_empty());
}

#[test]
fn without_a_runtime_nothing_is_sent() {
    let p = plan_run(&vec![RowPlan::Planned], false);
    assert!(p.started.is_empty() && !p.clear_marks);
    assert_eq!(p.status.as_deref(), Some("no async runtime: cannot act from here"));
}

#[test]
fn each_answer_settles_its_journal_entry() {
    let (s, status) = settle("power-off", "Power off", "web01", Outcome::Started("task-1".to_string()));
    assert_eq!(
        s,
        Settled {
            journal: JournalState::Started,
            task: Some("task-1".to_string()),
            watch: true,
            refresh: false,
            payload: None,
            invalidate: false
        }
    );
    assert_eq!(status, "power-off web01: task started");

    let (s, status) = settle("power-off", "Power off", "web01", Outcome::Done);
    assert_eq!(s.journal, JournalState::Succeeded);
    assert!(s.refresh && !s.watch);
    assert_eq!(status, "power-off web01: done");

    let (s, _) = settle("console", "Console", "web01", Outcome::Returned);
    assert_eq!(s.payload.as_deref(), Some("Console web01"));

    let (s, status) = settle(
        "delete",
        "Delete",
        "web01",
        Outcome::Failed { text: "forbidden".to_string(), upstream: "403 {..}".to_string(), forbidden: true },
    );
    assert_eq!(s.journal, JournalState::Failed("403 {..}".to_string()));
    assert!(s.invalidate);
    assert_eq!(status, "delete web01 failed: forbidden");
}

fn ids(v: &[&str]) -> Vec<String> {
    v.iter().map(|s| s.to_string()).collect()
}

#[test]
fn an_action_applies_to_the_marks_in_view_order_or_to_the_cursor_row() {
    let ordered = ids(&["c", "a", "b", "d"]);
    assert_eq!(subjects(&ordered, 2, &vec![]), ids(&["b"]));
    assert_eq!(subjects(&ordered, 9, &vec![]), Vec::<String>::new());
    assert_eq!(subjects(&ordered, 2, &ids(&["d", "c", "gone"])), ids(&["c", "d"]), "a mark the view no longer shows is left out");
}

#[test]
fn the_menu_names_what_it_acts_on() {
    assert_eq!(menu_subject(&rows(&["web01"]), "Virtual Machines"), "web01");
    assert_eq!(menu_subject(&vec![], "Virtual Machines"), "no row selected");
    assert_eq!(menu_subject(&rows(&["a", "b", "c"]), "Virtual Machines"), "3 Virtual Machines");
}

fn menu_shell() -> Shell {
    Shell {
        mode: Mode::Menu,
        help_from: Mode::Table,
        focus: Focus::Body,
        quit: false,
        dirty: false,
        status: None,
        live: true,
        quit_asked: false,
        menu_visible: true,
        menu_toggled: false,
        wide: true,
        on_contexts: false,
        mouse_on: true,
        page_open: false,
        menu_filtering: false,
        table_filtering: false,
    }
}

#[test]
fn closing_the_menu_goes_back_where_the_action_was_started() {
    assert_eq!(acting_from(true), Mode::Detail);
    assert_eq!(acting_from(false), Mode::Table);
    let mut s = menu_shell();
    assert_eq!(menu_step(&mut s, true, MenuEvent::Cancelled), MenuStep::Closed);
    assert_eq!(s.mode, Mode::Detail);
    let power = ActionRef { name: "power-on".to_string(), title: "Power on".to_string(), key: String::new(), order: 1, danger: Some(0) };
    let mut s = menu_shell();
    assert_eq!(menu_step(&mut s, false, MenuEvent::Chose(power.clone())), MenuStep::Start(power));
    assert_eq!(s.mode, Mode::Menu, "starting decides where to go next");
    assert_eq!(menu_step(&mut s, false, MenuEvent::Moved), MenuStep::Nothing);
}

fn all_open() -> Acting {
    Acting { pending: true, confirm: true, menu: true }
}

#[test]
fn running_clears_the_pending_action_and_goes_back_where_it_started() {
    let mut s = menu_shell();
    s.mode = Mode::Confirm;
    let mut a = all_open();
    let p = run_pending(&mut s, &mut a, true, &vec![RowPlan::Planned, RowPlan::Planned], true).expect("pending");
    assert_eq!(a, Acting { pending: false, confirm: false, menu: false });
    assert_eq!(s.mode, Mode::Detail);
    assert_eq!(p.started, vec![0, 1]);
    assert_eq!(s.status.as_deref(), Some("2 actions started"));

    let mut s = menu_shell();
    let mut a = all_open();
    let p = run_pending(&mut s, &mut a, false, &vec![RowPlan::Planned], false).expect("pending");
    assert!(p.started.is_empty());
    assert_eq!(s.mode, Mode::Table);
    assert_eq!(s.status.as_deref(), Some("no async runtime: cannot act from here"));

    let mut s = menu_shell();
    let mut a = Acting { pending: false, confirm: true, menu: false };
    assert_eq!(run_pending(&mut s, &mut a, false, &vec![RowPlan::Planned], true), None);
    assert_eq!(a, Acting { pending: false, confirm: true, menu: false });
    assert_eq!(s.mode, Mode::Menu);
}

#[test]
fn cancelling_the_confirm_drops_everything_and_a_mismatch_says_so() {
    let mut s = menu_shell();
    s.mode = Mode::Confirm;
    let mut a = all_open();
    assert_eq!(confirm_answer(&mut s, &mut a, false, ConfirmEvent::Cancelled), ConfirmStep::Cancel);
    assert_eq!(a, Acting { pending: false, confirm: false, menu: false });
    assert_eq!(s.mode, Mode::Table);
    let mut s = menu_shell();
    let mut a = all_open();
    confirm_answer(&mut s, &mut a, false, ConfirmEvent::Mismatch);
    assert_eq!(s.status.as_deref(), Some("names do not match"));
    assert_eq!(a, all_open());
}
