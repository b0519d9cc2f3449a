use nutsh_tui::activity::{Action as ActivityAction, ActivityView, Tab};
use nutsh_tui::confirm::{Confirm, ConfirmKind, Event as ConfirmEvent};
use nutsh_tui::journal::{Action as JournalAction, JournalView};
use nutsh_tui::key::Key;
use nutsh_tui::ladder::{ladder, show, Action as LadderAction, Interval, Ladder, Schedule};
use nutsh_tui::mouse::{mouse_of, Button, Gesture, ListHit, Mouse, MouseKind, Rect, TableHit};
use nutsh_tui::run::Panics;

#[test]
fn tab_flips_the_half_and_the_cursor_stops_at_both_ends() {
    let mut v = ActivityView::default();
    assert_eq!(v.tab, Tab::Requests);
    v.key(Key::Char('G'), 7);
    assert_eq!(v.selected, 7);
    assert_eq!(v.key(Key::Tab, 7), ActivityAction::Moved);
    assert_eq!((v.tab, v.selected), (Tab::Tables, 0));
    v.key(Key::Char('j'), 0);
    assert_eq!(v.selected, 0, "one row: nothing below it");
    assert_eq!(v.key(Key::BackTab, 0), ActivityAction::Moved);
    assert_eq!(v.tab, Tab::Requests);
    assert_eq!(v.key(Key::Char('z'), 0), ActivityAction::Ignored);
    assert_eq!(v.key(Key::Esc, 0), ActivityAction::Closed);
    assert_eq!(v.key(Key::Char('q'), 0), ActivityAction::Closed);
}

fn names(n: usize) -> Vec<String> {
    (0..n).map(|i| format!("vm-{i:03}")).collect()
}

#[test]
fn a_yes_confirm_runs_only_on_y() {
    let mut c = Confirm::open(ConfirmKind::Yes, "Power off", "Virtual Machines", &names(1));
    assert_eq!(c.prompt, "Power off vm-000? [y/N]");
    assert!(c.names.is_empty(), "one name is in the prompt already");
    assert_eq!(c.key(Key::Char('Y')), ConfirmEvent::Run);
    assert_eq!(c.key(Key::Char('n')), ConfirmEvent::Cancelled);
    assert_eq!(c.key(Key::Enter), ConfirmEvent::Cancelled);
}

#[test]
fn one_row_types_its_name_and_a_mismatch_does_not_run() {
    let mut c = Confirm::open(ConfirmKind::TypeName, "Delete", "Virtual Machines", &names(1));
    assert_eq!(c.prompt, "Delete vm-000. Type the name to confirm:");
    for ch in "vm-00X".chars() {
        assert_eq!(c.key(Key::Char(ch)), ConfirmEvent::Typed);
    }
    assert_eq!(c.key(Key::Enter), ConfirmEvent::Mismatch);
    assert_eq!(c.key(Key::Backspace), ConfirmEvent::Typed);
    assert_eq!(c.key(Key::Char('0')), ConfirmEvent::Typed);
    assert_eq!(c.key(Key::Enter), ConfirmEvent::Run);
}

#[test]
fn a_bulk_confirm_asks_for_a_phrase_and_lists_five() {
    let mut c = Confirm::open(ConfirmKind::TypeName, "Delete", "Virtual Machines", &names(7));
    assert_eq!(c.prompt, "Delete 7 Virtual Machines. Type DELETE 7 to confirm:");
    assert_eq!(c.names.len(), 5);
    assert_eq!(c.more, 2);
    for ch in "DELETE 7".chars() {
        c.key(Key::Char(ch));
    }
    assert_eq!(c.key(Key::Enter), ConfirmEvent::Run);
    assert_eq!(c.key(Key::Esc), ConfirmEvent::Cancelled);
}

#[test]
fn the_cursor_stops_at_both_ends() {
    let mut v = JournalView::default();
    assert_eq!(v.key(Key::Char('k'), 3), JournalAction::Moved, "nothing above the first row");
    assert_eq!(v.selected, 0);
    v.key(Key::Char('G'), 3);
    assert_eq!(v.selected, 3);
    v.key(Key::Down, 3);
    assert_eq!(v.selected, 3, "and nothing below the last");
    v.key(Key::PageUp, 3);
    assert_eq!(v.selected, 0);
    v.key(Key::PageDown, 3);
    assert_eq!(v.selected, 3);
    v.key(Key::Char('g'), 3);
    assert_eq!(v.selected, 0);
    let mut empty = JournalView::default();
    for key in [Key::Char('j'), Key::Char('G'), Key::PageDown, Key::End] {
        assert_eq!(empty.key(key, 0), JournalAction::Moved);
        assert_eq!(empty.selected, 0);
    }
    assert_eq!(empty.key(Key::Char('z'), 0), JournalAction::Ignored, "and nothing else moves it");
    assert_eq!(empty.key(Key::Esc, 0), JournalAction::Closed, "esc closes");
    assert_eq!(empty.key(Key::Char('q'), 0), JournalAction::Closed, "and so does q");
}

#[test]
fn opens_on_the_rung_in_force_and_names_the_choice() {
    let mut l = Ladder::open(
        Schedule::Kind("vmm.ahv.config.Vm".to_string()),
        "Virtual Machines".into(),
        Some(Interval::Secs(10)),
    );
    assert_eq!(l.selected, 2);
    assert_eq!(l.key(Key::Enter), LadderAction::Chose(Interval::Secs(10)));
    assert_eq!(l.key(Key::Char('j')), LadderAction::Moved);
    assert_eq!(l.key(Key::Enter), LadderAction::Chose(Interval::Secs(30)));
    assert_eq!(l.key(Key::Char('G')), LadderAction::Moved);
    assert_eq!(l.key(Key::Enter), LadderAction::Chose(*ladder().last().unwrap()));
    assert_eq!(l.key(Key::Esc), LadderAction::Cancelled);
}

#[test]
fn a_value_off_the_ladder_opens_at_the_top() {
    let l = Ladder::open(Schedule::Everything, "every kind".into(), Some(Interval::Secs(45)));
    assert_eq!(l.selected, 0);
    assert!(l.rows().iter().all(|(_, current)| !current));
}

#[test]
fn the_ladder_is_spelled_the_same_everywhere() {
    let words: Vec<String> = ladder().iter().map(|i| show(*i)).collect();
    assert_eq!(words, vec!["auto", "5s", "10s", "30s", "1m", "5m", "off"]);
}

fn at(col: u16, row: u16) -> Mouse {
    Mouse { kind: MouseKind::Click, col, row }
}

#[test]
fn a_row_index_is_the_offset_plus_the_distance_from_the_top() {
    let hit = ListHit { rows: Rect { x: 2, y: 5, width: 20, height: 4 }, offset: 10, len: 14 };
    assert_eq!(hit.index_at(at(3, 5)), Some(10));
    assert_eq!(hit.index_at(at(3, 7)), Some(12));
    assert_eq!(hit.index_at(at(3, 8)), Some(13), "the last entry");
    assert_eq!(hit.index_at(at(3, 9)), None, "below the pane");
    assert_eq!(hit.index_at(at(3, 4)), None, "above it");
    assert_eq!(hit.index_at(at(1, 6)), None, "left of it");
    let short = ListHit { rows: hit.rows, offset: 12, len: 14 };
    assert_eq!(short.index_at(at(3, 7)), None, "the empty space below the last row");
}

#[test]
fn a_column_is_found_by_its_span_and_named_by_its_place_in_the_full_list() {
    let hit = TableHit {
        pane: None,
        block: Rect { x: 0, y: 0, width: 40, height: 10 },
        header: Rect { x: 1, y: 1, width: 38, height: 1 },
        rows: Rect { x: 1, y: 2, width: 38, height: 7 },
        offset: 0,
        len: 3,
        columns: vec![(3, 10, 0), (15, 6, 2), (23, 6, 3)],
    };
    assert_eq!(hit.column_at(at(3, 1)), Some(0));
    assert_eq!(hit.column_at(at(12, 1)), Some(0));
    assert_eq!(hit.column_at(at(13, 1)), None, "the gap between columns");
    assert_eq!(hit.column_at(at(16, 1)), Some(2));
    assert_eq!(hit.column_at(at(24, 1)), Some(3));
    assert_eq!(hit.column_at(at(39, 1)), None);
}

#[test]
fn the_first_panic_is_kept_and_taken_once() {
    let mut panics = Panics::default();
    assert_eq!(panics.take(), None);
    panics.set("first".into());
    panics.set("second".into());
    assert_eq!(panics.take().as_deref(), Some("first"));
    assert_eq!(panics.take(), None);
}

#[test]
fn only_a_left_click_and_the_wheel_become_input() {
    assert_eq!(
        mouse_of(Gesture::Down(Button::Left), 4, 7),
        Some(Mouse {
            kind: MouseKind::Click,
            col: 4,
            row: 7
        })
    );
    for (kind, want) in [
        (Gesture::ScrollUp, MouseKind::WheelUp),
        (Gesture::ScrollDown, MouseKind::WheelDown),
        (Gesture::ScrollLeft, MouseKind::WheelLeft),
        (Gesture::ScrollRight, MouseKind::WheelRight),
    ] {
        assert_eq!(mouse_of(kind, 4, 7).map(|m| m.kind), Some(want));
    }
    for kind in [
        Gesture::Moved,
        Gesture::Drag(Button::Left),
        Gesture::Up(Button::Left),
        Gesture::Down(Button::Right),
        Gesture::Down(Button::Middle),
    ] {
        assert_eq!(mouse_of(kind, 4, 7), None, "{kind:?}");
    }
}

#[test]
fn a_control_letter_is_bound_in_small_case() {
    assert_eq!(Key::ctrl('R'), Key::Ctrl('r'));
    assert_eq!(Key::ctrl('w'), Key::Ctrl('w'));
    assert_eq!(Key::ctrl('['), Key::Ctrl('['));
}
