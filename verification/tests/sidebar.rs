use nutsh_tui::catalog::{NavGroup, NavItem, NavTarget};
use nutsh_tui::key::Key;
use nutsh_tui::palette::window;
use nutsh_tui::sidebar::{protected, Action, Row, Sidebar};

const CURATED_GROUPS: usize = 9;

fn kind(label: &str, id: &str) -> NavItem {
    NavItem {
        label: label.to_string(),
        target: NavTarget::Kind(id.to_string()),
        note: None,
    }
}

fn group(name: &str, items: Vec<NavItem>) -> NavGroup {
    NavGroup {
        name: name.to_string(),
        items,
    }
}

/// The menu: nine curated groups, then the API's namespaces.
fn nav() -> Vec<NavGroup> {
    vec![
        group(
            "Dashboard",
            vec![NavItem {
                label: "Dashboard".to_string(),
                target: NavTarget::Page("dashboard".to_string()),
                note: None,
            }],
        ),
        group(
            "Compute & Storage",
            vec![
                kind("Virtual Machines", "vmm.ahv.config.Vm"),
                kind("Templates", "vmm.content.Template"),
                kind("Images", "vmm.content.Image"),
                kind("OVAs", "vmm.content.Ova"),
                kind("Catalog Items", "vmm.content.CatalogItem"),
                kind("Volume Groups", "volumes.config.VolumeGroup"),
                kind("Storage Containers", "clustermgmt.config.StorageContainer"),
                kind("Storage Policies", "datapolicies.config.StoragePolicy"),
                kind("VM Groups", "vmm.ahv.config.VmGroup"),
                kind("Categories", "prism.config.Category"),
                kind("File Servers", "files.config.FileServer"),
                kind("Object Stores", "objects.config.ObjectStore"),
            ],
        ),
        group(
            "Hardware",
            vec![
                kind("Clusters", "clustermgmt.config.Cluster"),
                kind("Hosts", "clustermgmt.config.Host"),
            ],
        ),
        group(
            "Network & Security",
            vec![
                kind("Subnets", "networking.config.Subnet"),
                kind("VPCs", "networking.config.Vpc"),
            ],
        ),
        group(
            "Data Protection",
            vec![
                kind("Recovery Plans", "dataprotection.config.RecoveryPlan"),
                kind("Protection Policies", "datapolicies.config.ProtectionPolicy"),
            ],
        ),
        group("Monitoring", vec![kind("Alerts", "monitoring.serviceability.Alert")]),
        group("Administration", vec![kind("Users", "iam.authn.User")]),
        group(
            "Settings",
            vec![NavItem {
                label: "Settings".to_string(),
                target: NavTarget::Settings,
                note: None,
            }],
        ),
        group(
            "Contexts",
            vec![NavItem {
                label: "Contexts".to_string(),
                target: NavTarget::Contexts,
                note: None,
            }],
        ),
        group("networking", vec![kind("Floating IPs", "networking.config.FloatingIp")]),
        group("vmm", vec![kind("Guest Tools", "vmm.ahv.config.GuestTools")]),
    ]
}

fn sidebar() -> Sidebar {
    Sidebar::over(nav(), CURATED_GROUPS)
}

/// The label of a flattened row: what the tests read a selection back as.
fn label(s: &Sidebar, index: usize) -> Option<String> {
    match s.rows().get(index)? {
        Row::Group { group } => Some(s.nav[*group].name.clone()),
        Row::Item { group, item } => Some(s.nav[*group].items[*item].label.clone()),
        Row::Separator => Some("-".to_string()),
    }
}

#[test]
fn flattening_hides_a_collapsed_groups_items() {
    let n = nav().len();
    let mut s = sidebar();
    assert_eq!(s.rows().len(), n + 1, "one row per group, no items, and the caption");
    s.set_collapsed(1, false);
    assert_eq!(s.rows().len(), n + 1 + nav()[1].items.len());
    assert!(s.rows().iter().any(|r| matches!(r, Row::Item { group: 1, .. })));
    s.set_collapsed(1, true);
    assert_eq!(s.rows().len(), n + 1);
}

#[test]
fn the_caption_divides_the_menu_and_is_never_stood_on() {
    let mut s = sidebar();
    let at = s.rows().iter().position(|r| matches!(r, Row::Separator)).expect("the caption");
    assert_eq!(at, CURATED_GROUPS, "after the curated groups and before the first namespace");
    assert_eq!(s.rows().iter().filter(|r| **r == Row::Separator).count(), 1);
    assert_eq!(s.group_at(at), None);

    s.selected = at - 1;
    s.key(Key::Char('j'));
    assert_eq!(s.selected, at + 1, "`j` stepped over it");
    s.key(Key::Char('k'));
    assert_eq!(s.selected, at - 1, "and `k` stepped back over it");

    s.selected = at;
    assert_eq!(s.open_selected(), Action::Ignored, "`enter` does nothing");
    assert!(!s.select(at, false), "a click on it selects nothing");
    s.selected = at - 1;
    assert!(s.select(at, true), "a wheel notch carries on");
    assert_eq!(s.selected, at + 1);

    s.set_filter("Catalog Items");
    assert!(!s.rows().iter().any(|r| matches!(r, Row::Separator)), "{:?}", s.rows());
}

#[test]
fn reveal_expands_the_group_and_selects_the_item() {
    let mut s = sidebar();
    s.reveal_target(&NavTarget::Kind("networking.config.Subnet".to_string()));
    assert!(matches!(s.rows()[s.selected], Row::Item { .. }));
    assert_eq!(label(&s, s.selected).as_deref(), Some("Subnets"));
    assert_eq!(s.open, Some(NavTarget::Kind("networking.config.Subnet".to_string())));
    let before = s.selected;
    s.reveal_target(&NavTarget::Kind("vmm.ahv.config.Disk".to_string()));
    assert_eq!(s.selected, before);
}

#[test]
fn the_filter_keeps_only_matching_items() {
    let mut s = sidebar();
    s.set_filter("recovery");
    let labels: Vec<String> = (0..s.rows().len()).filter_map(|i| label(&s, i)).collect();
    assert!(labels.iter().any(|l| l == "Recovery Plans"), "{labels:?}");
    assert!(!labels.iter().any(|l| l == "Subnets"), "{labels:?}");
    assert!(
        s.rows().iter().any(|r| matches!(r, Row::Group { .. })),
        "the groups that keep an item are still headed"
    );
    let mut none = sidebar();
    none.set_filter("zzzz");
    assert!(none.rows().is_empty());
    assert_eq!(none.selected, 0);
    assert_eq!(none.key(Key::Enter), Action::Ignored, "no row to open");
}

#[test]
fn a_digit_jumps_to_a_curated_group_and_zero_to_the_generated_ones() {
    let mut s = sidebar();
    s.jump(1);
    assert_eq!(s.group_at(s.selected), Some(0));
    s.jump(9);
    assert_eq!(s.group_at(s.selected), Some(8), "Contexts is the ninth");
    s.jump(0);
    assert_eq!(s.group_at(s.selected), Some(CURATED_GROUPS), "the first generated group");
}

#[test]
fn the_window_frames_the_selection_at_the_real_height() {
    let mut s = sidebar();
    s.reveal_target(&NavTarget::Kind("vmm.ahv.config.Vm".to_string()));
    s.reveal_target(&NavTarget::Kind("clustermgmt.config.Cluster".to_string()));
    let selected = s.selected;
    assert!(selected > 12, "Clusters is past a 12-row pane: {selected}");
    for rows in [1, 5, 12, 19, 200] {
        let (offset, shown) = window(s.rows(), selected, rows);
        assert!(offset <= selected, "{rows}: {offset} > {selected}");
        assert!(
            selected - offset < shown.len(),
            "{rows}: {selected} is outside a {}-row window at {offset}",
            shown.len()
        );
    }
}

#[test]
fn an_unclaimed_key_passes_through() {
    let mut s = sidebar();
    assert_eq!(s.key(Key::Char(':')), Action::Passthrough(Key::Char(':')));
    assert_eq!(s.key(Key::Char('?')), Action::Passthrough(Key::Char('?')));
    assert_eq!(s.key(Key::Ctrl('r')), Action::Passthrough(Key::Ctrl('r')));
    assert_eq!(s.key(Key::Char('j')), Action::Moved, "and `j` still moves");
}

#[test]
fn enter_on_an_item_opens_it_and_on_a_header_folds_it() {
    let mut s = sidebar();
    s.selected = 0;
    assert_eq!(s.key(Key::Enter), Action::Toggled, "the Dashboard group unfolds");
    assert_eq!(s.key(Key::Char('j')), Action::Moved);
    match s.key(Key::Enter) {
        Action::Open(item) => assert_eq!(item.label, "Dashboard"),
        other => panic!("{other:?}"),
    }
}

#[test]
fn the_dashboard_cannot_be_hidden_and_a_hidden_group_drops_its_items() {
    assert!(protected("Dashboard") && protected("dashboard"));
    assert!(!protected("Hardware"));
    let mut s = sidebar();
    s.set_hidden(vec!["Hardware".to_string()]);
    assert!(!s.rows().iter().any(|r| matches!(r, Row::Group { group: 2 })));
    assert_eq!(s.dropped(2), 0, "a group that goes whole counts nothing");
    s.set_hidden(vec!["networking.config.Subnet".to_string()]);
    assert!(s.rows().iter().any(|r| matches!(r, Row::Group { group: 2 })));
    assert_eq!(s.dropped(3), 1, "the header counts the item it lost");
}

#[test]
fn an_unserved_kind_says_why() {
    let mut s = sidebar();
    s.set_unserved(vec![("networking.config.Vpc".to_string(), "namespace not served".to_string())]);
    assert_eq!(s.reason(3, 1).as_deref(), Some("namespace not served"));
    assert_eq!(s.reason(3, 0), None);
}

#[test]
fn typing_a_filter_that_only_namespaces_match_never_stands_on_the_caption() {
    let mut s = sidebar();
    s.key(Key::Char('/'));
    for c in "Guest".chars() {
        s.key(Key::Char(c));
        assert_ne!(s.rows().get(s.selected), Some(&Row::Separator), "{:?}", s.rows());
    }
    assert_eq!(s.rows()[0], Row::Separator, "only the namespaces match: the caption heads the list");
    assert_eq!(label(&s, s.selected).as_deref(), Some("vmm"));
    s.key(Key::Backspace);
    assert_ne!(s.rows().get(s.selected), Some(&Row::Separator));
}
