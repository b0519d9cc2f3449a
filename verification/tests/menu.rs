use nutsh_tui::key::Key;
use nutsh_tui::menu::{boundary, sort, ActionRef, Event, Menu, Row, Shown};

fn action(name: &str, title: &str, order: u32, danger: Option<u8>) -> ActionRef {
    ActionRef {
        name: name.to_string(),
        title: title.to_string(),
        key: String::new(),
        order,
        danger,
    }
}

/// The VM actions, in the order the catalog declares them rather than the order they list in.
fn actions() -> Vec<ActionRef> {
    vec![
        action("update-guest-tools", "Update guest tools", 0, None),
        action("delete", "Delete", 7, Some(2)),
        action("reset", "Reset", 4, Some(1)),
        action("associate-categories", "Associate categories", 0, None),
        action("power-off", "Power off", 2, Some(1)),
        action("snapshot", "Create recovery point", 5, Some(0)),
        action("power-on", "Power on", 1, Some(0)),
        action("clone", "Clone", 6, Some(0)),
        action("power-cycle", "Power cycle", 3, Some(1)),
        action("assign-ip", "Assign IP", 0, None),
    ]
}

fn menu() -> Menu {
    let rows = actions().into_iter().map(|action| Row { action, reason: None }).collect();
    Menu::open("web-01".into(), rows)
}

#[test]
fn curated_actions_lead_in_order_and_the_rest_sink() {
    let menu = menu();
    let names: Vec<&str> = menu.entries.iter().map(|r| r.action.name.as_str()).collect();
    assert_eq!(&names[..4], &["power-on", "power-off", "power-cycle", "reset"], "{names:?}");
    let curated = names.iter().position(|n| *n == "delete").expect("delete is curated");
    assert!(
        names[curated + 1..]
            .iter()
            .all(|n| menu.entries.iter().any(|r| r.action.name == *n && r.action.order == 0)),
        "{names:?}"
    );
}

#[test]
fn typing_narrows_and_enter_chooses() {
    let mut menu = menu();
    let all = menu.entries.len();
    for c in "recovery".chars() {
        assert_eq!(menu.key(Key::Char(c)), Event::Filtered);
    }
    assert!(menu.entries.len() < all);
    let snapshot = actions().into_iter().find(|a| a.name == "snapshot").expect("VMs snapshot");
    assert_eq!(menu.key(Key::Enter), Event::Chose(snapshot));
}

#[test]
fn an_empty_filter_result_ignores_enter() {
    let mut menu = menu();
    for c in "zzz".chars() {
        menu.key(Key::Char(c));
    }
    assert!(menu.entries.is_empty());
    assert_eq!(menu.key(Key::Enter), Event::Ignored);
    assert_eq!(menu.key(Key::Down), Event::Moved);
    assert_eq!(menu.selected, 0);
}

#[test]
fn the_raw_caption_stands_where_the_generated_names_begin() {
    let menu = menu();
    assert_eq!(boundary(&menu.entries), Some(7));
    let (shown, cursor) = menu.shown();
    assert_eq!(shown.len(), menu.entries.len() + 1);
    assert!(matches!(shown[7], Shown::Boundary));
    assert_eq!(cursor, Some(0));
}

#[test]
fn the_uncurated_tail_sorts_by_title() {
    let rows: Vec<Row> = actions().into_iter().map(|action| Row { action, reason: None }).collect();
    let sorted = sort(rows);
    let tail: Vec<&str> = sorted[7..].iter().map(|r| r.action.title.as_str()).collect();
    assert_eq!(tail, vec!["Assign IP", "Associate categories", "Update guest tools"]);
}

#[test]
fn backspace_widens_the_filter_again() {
    let mut menu = menu();
    let all = menu.entries.len();
    menu.key(Key::Char('z'));
    assert!(menu.entries.is_empty());
    assert_eq!(menu.key(Key::Backspace), Event::Filtered);
    assert_eq!(menu.entries.len(), all);
    assert_eq!(menu.key(Key::Esc), Event::Cancelled);
}

#[test]
fn rows_that_tie_keep_the_order_they_came_in() {
    let rows = vec![
        Row { action: action("b-twin", "Twin", 0, None), reason: None },
        Row { action: action("a-twin", "Twin", 0, None), reason: None },
        Row { action: action("first", "Alpha", 0, None), reason: None },
    ];
    let names: Vec<String> = sort(rows).into_iter().map(|r| r.action.name).collect();
    assert_eq!(names, vec!["first", "b-twin", "a-twin"]);
}
