use nutsh_tui::catalog::{KindRef, NavGroup, NavItem, NavTarget, PageRef, Reach};
use nutsh_tui::ranking::Catalog;
use nutsh_tui::resolve::{nav_id, resolve_home, resolve_kind, unknown, Home};

fn kind(id: &str, display: &str) -> KindRef {
    KindRef {
        id: id.to_string(),
        display: display.to_string(),
        aliases: Vec::new(),
        curated: true,
        reach: Reach::Direct,
        note: None,
    }
}

fn page(id: &str, title: &str) -> PageRef {
    PageRef {
        id: id.to_string(),
        title: title.to_string(),
    }
}

fn group(name: &str, id: &str) -> NavGroup {
    NavGroup {
        name: name.to_string(),
        items: vec![NavItem {
            label: name.to_string(),
            target: NavTarget::Kind(id.to_string()),
            note: None,
        }],
    }
}

fn catalog() -> Catalog {
    Catalog {
        kinds: vec![
            kind("vmm.ahv.config.Vm", "Virtual Machines"),
            kind("clustermgmt.config.Cluster", "Clusters"),
            kind("clustermgmt.config.Host", "Hosts"),
            kind("networking.config.Subnet", "Subnets"),
            kind("networking.config.Vpc", "VPCs"),
            kind("prism.config.Category", "Categories"),
            kind("monitoring.serviceability.Alert", "Alerts"),
        ],
        pages: vec![page("dashboard", "Dashboard"), page("disaster-recovery", "Disaster Recovery")],
        nav: vec![
            group("Monitoring", "monitoring.serviceability.Alert"),
            group("monitoring", "monitoring.serviceability.Event"),
        ],
        skins: Vec::new(),
        skin_aliases: Vec::new(),
    }
}

#[test]
fn the_kind_the_lookup_ranked_first_is_the_answer() {
    let c = catalog();
    let vm = c.kinds[0].clone();
    assert_eq!(resolve_kind(&c, "vm", Some(&vm)), Ok(vm));
}

#[test]
fn a_term_nothing_matched_names_at_most_five_near_kinds() {
    let c = catalog();
    assert_eq!(resolve_kind(&c, "xyzzy", None), Err("unknown kind \"xyzzy\"".to_string()));
    assert_eq!(
        resolve_kind(&c, "CONFIG", None),
        Err("unknown kind \"CONFIG\"; did you mean vmm.ahv.config.Vm, clustermgmt.config.Cluster, \
             clustermgmt.config.Host, networking.config.Subnet, networking.config.Vpc?"
            .to_string())
    );
    assert_eq!(
        unknown(&c, "host", "kind or page"),
        "unknown kind or page \"host\"; did you mean clustermgmt.config.Host?"
    );
    assert_eq!(unknown(&c, "a\"b", "kind"), "unknown kind \"a\\\"b\"");
}

#[test]
fn a_page_name_wins_over_a_kind_and_a_partial_one_comes_last() {
    let c = catalog();
    let alert = c.kinds[6].clone();
    assert_eq!(
        resolve_home(&c, "DASHBOARD", Some(&alert)),
        Ok(Home::Page(page("dashboard", "Dashboard")))
    );
    assert_eq!(
        resolve_home(&c, "disaster recovery", None),
        Ok(Home::Page(page("disaster-recovery", "Disaster Recovery")))
    );
    assert_eq!(resolve_home(&c, "alert", Some(&alert)), Ok(Home::Kind(alert.clone())));
    assert_eq!(
        resolve_home(&c, "disaster", None),
        Ok(Home::Page(page("disaster-recovery", "Disaster Recovery")))
    );
    assert_eq!(
        resolve_home(&c, "", None),
        Err("unknown kind or page \"\"; did you mean vmm.ahv.config.Vm, clustermgmt.config.Cluster, \
             clustermgmt.config.Host, networking.config.Subnet, networking.config.Vpc?"
            .to_string())
    );
}

#[test]
fn a_hide_entry_names_a_kind_a_page_or_a_group_exactly_first() {
    let c = catalog();
    assert_eq!(nav_id(&c, "networking.config.Vpc").as_deref(), Some("networking.config.Vpc"));
    assert_eq!(nav_id(&c, "dashboard").as_deref(), Some("dashboard"));
    assert_eq!(nav_id(&c, "monitoring").as_deref(), Some("monitoring"));
    assert_eq!(nav_id(&c, "Monitoring").as_deref(), Some("Monitoring"));
    assert_eq!(nav_id(&c, "MONITORING").as_deref(), Some("Monitoring"));
    assert_eq!(nav_id(&c, "Networking.Config.Vpc"), None, "a kind id is matched exactly");
}
