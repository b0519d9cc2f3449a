use nutsh_tui::catalog::{KindRef, Reach};
use nutsh_tui::key::Key;
use nutsh_tui::menu::{self, ActionRef};
use nutsh_tui::picker::{Entry, Event, Group, Picker};

fn kind(id: &str, display: &str, reach: Reach, note: Option<&str>) -> KindRef {
    KindRef {
        id: id.to_string(),
        display: display.to_string(),
        aliases: Vec::new(),
        curated: false,
        reach,
        note: note.map(|n| n.to_string()),
    }
}

fn vm() -> KindRef {
    kind("vmm.ahv.config.Vm", "Virtual Machines", Reach::Direct, None)
}

fn vm_children() -> Vec<KindRef> {
    vec![
        kind("vmm.ahv.config.Disk", "Disks", Reach::FromParent, None),
        kind("vmm.ahv.config.Nic", "NICs", Reach::FromParent, None),
        kind("vmm.ahv.config.CdRom", "CD-ROMs", Reach::FromParent, None),
    ]
}

fn action(name: &str, title: &str, order: u32) -> ActionRef {
    ActionRef {
        name: name.to_string(),
        title: title.to_string(),
        key: String::new(),
        order,
        danger: if order == 0 { None } else { Some(0) },
    }
}

fn power_on() -> ActionRef {
    action("power-on", "Power on", 1)
}

/// The actions of a VM, as the app hands them over: sorted, none refused.
fn vm_actions() -> Vec<menu::Row> {
    let rows = vec![
        action("assign-ip", "Assign IP", 0),
        action("snapshot", "Create recovery point", 3),
        power_on(),
        action("power-off", "Power off", 2),
    ]
    .into_iter()
    .map(|action| menu::Row { action, reason: None })
    .collect();
    menu::sort(rows)
}

fn vm_picker() -> Picker {
    Picker::open(vm(), "vm-ext-id".into(), "web-01".into(), vm_children(), |_: &KindRef| None, vm_actions())
}

fn children(picker: &Picker) -> Vec<String> {
    picker
        .entries
        .iter()
        .filter_map(|e| match e {
            Entry::Child { kind, .. } => Some(kind.id.clone()),
            _ => None,
        })
        .collect()
}

#[test]
fn a_child_that_needs_a_parameter_is_greyed() {
    let picker = Picker::open(
        kind("files.config.FileServer", "File Servers", Reach::Direct, None),
        "fs-ext-id".into(),
        "fs-01".into(),
        vec![
            kind("files.config.VdiUserSession", "VDI User Sessions", Reach::NeedsParameter, Some("needs a parameter")),
            kind("files.config.MountTarget", "Shares", Reach::FromParent, None),
        ],
        |_: &KindRef| None,
        Vec::new(),
    );
    let entry = picker
        .entries
        .iter()
        .find(|e| matches!(e, Entry::Child { kind, .. } if kind.id == "files.config.VdiUserSession"))
        .expect("file servers have VDI user sessions as a child");
    assert_eq!(entry.reason(), Some("needs a parameter"));
    assert!(
        picker.entries.iter().any(|e| matches!(e, Entry::Child { .. }) && e.reason().is_none()),
        "{:?}",
        children(&picker)
    );
}

#[test]
fn a_child_the_session_cannot_serve_is_greyed() {
    let picker = Picker::open(
        vm(),
        "vm-ext-id".into(),
        "web-01".into(),
        vm_children(),
        |k: &KindRef| (k.id == "vmm.ahv.config.Nic").then(|| "namespace not served".to_string()),
        Vec::new(),
    );
    let nic = picker
        .entries
        .iter()
        .find(|e| matches!(e, Entry::Child { kind, .. } if kind.id == "vmm.ahv.config.Nic"))
        .expect("VMs have NICs as a child");
    assert_eq!(nic.reason(), Some("namespace not served"));
}

#[test]
fn typing_narrows_the_children() {
    let mut picker = vm_picker();
    let all = children(&picker).len();
    assert_eq!(picker.key(Key::Char('d')), Event::Filtered);
    assert_eq!(picker.key(Key::Char('i')), Event::Filtered);
    assert_eq!(picker.key(Key::Char('s')), Event::Filtered);
    assert!(children(&picker).len() < all);
    assert_eq!(picker.key(Key::Enter), Event::Chose(vm_children()[0].clone()));
}

#[test]
fn the_actions_group_follows_the_related_one_and_the_cursor_skips_both_captions() {
    let picker = vm_picker();
    assert_eq!(picker.entries.first(), Some(&Entry::Caption(Group::Related)));
    let captions: Vec<&Entry> = picker.entries.iter().filter(|e| e.is_caption()).collect();
    assert_eq!(
        captions,
        vec![&Entry::Caption(Group::Related), &Entry::Caption(Group::Actions), &Entry::Caption(Group::Raw)],
        "the two groups, and the rule inside the second"
    );
    assert_eq!(picker.selected, 1, "never on the caption");
    let mut picker = picker;
    for _ in 0..picker.entries.len() {
        picker.key(Key::Down);
        assert!(!picker.entries[picker.selected].is_caption(), "stopped on a rule at {}", picker.selected);
    }
    for _ in 0..picker.entries.len() {
        picker.key(Key::Up);
        assert!(!picker.entries[picker.selected].is_caption());
    }
    assert_eq!(picker.selected, 1);
}

#[test]
fn enter_on_an_action_runs_it_and_an_empty_group_loses_its_caption() {
    let mut picker = vm_picker();
    for c in "power on".chars() {
        picker.key(Key::Char(c));
    }
    assert!(
        picker.entries.iter().all(|e| !matches!(e, Entry::Child { .. })),
        "no child is called power on"
    );
    assert_eq!(
        picker.entries.first(),
        Some(&Entry::Caption(Group::Actions)),
        "the related caption went with its rows"
    );
    assert!(
        !picker.entries.iter().any(|e| matches!(e, Entry::Caption(Group::Raw))),
        "and no rule is drawn where nothing generated matched"
    );
    assert_eq!(picker.key(Key::Enter), Event::Run(power_on()));
}

#[test]
fn a_click_on_a_caption_selects_nothing() {
    let mut picker = vm_picker();
    assert!(!picker.select(0), "row 0 is the related caption");
    assert!(picker.select(2));
    assert_eq!(picker.selected, 2);
}

#[test]
fn a_kind_with_no_children_is_empty_however_many_actions_it_has() {
    let alert = kind("monitoring.serviceability.Alert", "Alerts", Reach::Direct, None);
    let actions: Vec<menu::Row> = vec![action("acknowledge", "Acknowledge", 1), action("resolve", "Resolve", 2)]
        .into_iter()
        .map(|action| menu::Row { action, reason: None })
        .collect();
    assert!(!actions.is_empty(), "alerts are acknowledged and resolved");
    let picker = Picker::open(alert, "alert-ext-id".into(), "an alert".into(), Vec::new(), |_: &KindRef| None, actions);
    assert!(picker.is_empty());
}

#[test]
fn the_captions_name_their_groups() {
    assert_eq!(Group::Related.caption(), " related ");
    assert_eq!(Group::Actions.caption(), " actions ");
    assert_eq!(Group::Raw.caption(), menu::RAW_CAPTION);
    assert_eq!((Group::Related.level(), Group::Actions.level(), Group::Raw.level()), (0, 0, 1));
}
