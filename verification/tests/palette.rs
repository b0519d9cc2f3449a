use nutsh_tui::catalog::{KindRef, NavGroup, NavItem, NavTarget, PageRef, Reach};
use nutsh_tui::key::Key;
use nutsh_tui::palette::{
    centred, head_command, nav_rank, window, Action, Command, Entry, Palette, Slot, Tag, COMMANDS, ROUTE_NAV_LABEL,
    ROUTE_NAV_WORD,
};
use nutsh_tui::ranking::{head_ranking, lookup_rank, Catalog, Vocabulary};
use nutsh_tui::text::Input;

fn kind(id: &str, display: &str, aliases: &[&str], curated: bool) -> KindRef {
    KindRef {
        id: id.to_string(),
        display: display.to_string(),
        aliases: aliases.iter().map(|a| a.to_string()).collect(),
        curated,
        reach: Reach::Direct,
        note: None,
    }
}

fn item(label: &str, target: NavTarget) -> NavItem {
    NavItem { label: label.to_string(), target, note: None }
}

fn group(name: &str, items: Vec<NavItem>) -> NavGroup {
    NavGroup { name: name.to_string(), items }
}

/// A small catalog in the shape of the real one: enough kinds, pages, menu items and skins for
/// every ranking rule to show.
fn catalog() -> Catalog {
    Catalog {
        kinds: vec![
            kind("vmm.ahv.config.Vm", "Virtual Machines", &["vm", "vms"], true),
            kind("networking.config.Subnet", "Subnets", &["subnet", "subnets", "net", "network", "networks"], true),
            kind("networking.config.Layer2Stretch", "Layer 2 Stretches", &[], false),
            kind("networking.aws.config.AwsSubnet", "Aws Subnets", &[], false),
            kind("networking.config.RemoteSubnet", "Remote Subnets", &[], false),
            kind("clustermgmt.config.Cluster", "Clusters", &["cluster", "clusters"], true),
            kind("dataprotection.config.RecoveryPlan", "Recovery Plans", &["rp"], true),
            kind("microseg.config.policies", "Policies", &[], false),
            kind("networking.config.RoutingPolicy", "Routing Policy Rules", &[], false),
            kind("volumes.config.VolumeGroup", "Volume Groups", &[], true),
        ],
        pages: vec![
            PageRef { id: "dashboard".to_string(), title: "Dashboard".to_string() },
            PageRef { id: "disaster-recovery".to_string(), title: "Disaster Recovery".to_string() },
        ],
        nav: vec![
            group("Dashboard", vec![item("Dashboard", NavTarget::Page("dashboard".to_string()))]),
            group(
                "Compute & Storage",
                vec![
                    item("Virtual Machines", NavTarget::Kind("vmm.ahv.config.Vm".to_string())),
                    item("Volume Groups", NavTarget::Kind("volumes.config.VolumeGroup".to_string())),
                ],
            ),
            group(
                "Network & Security",
                vec![
                    item("Subnets", NavTarget::Kind("networking.config.Subnet".to_string())),
                    item("Subnet Extensions", NavTarget::Kind("networking.config.Layer2Stretch".to_string())),
                    item("Aws Subnets", NavTarget::Kind("networking.aws.config.AwsSubnet".to_string())),
                    item("Policies", NavTarget::Kind("microseg.config.policies".to_string())),
                    item("Routing Policies", NavTarget::Kind("networking.config.RoutingPolicy".to_string())),
                ],
            ),
            group(
                "Data Protection",
                vec![
                    item("Recovery Plans", NavTarget::Kind("dataprotection.config.RecoveryPlan".to_string())),
                    item("Disaster Recovery", NavTarget::Page("disaster-recovery".to_string())),
                    NavItem {
                        label: "Catalog Items".to_string(),
                        target: NavTarget::Missing,
                        note: Some("not in the v4 API".to_string()),
                    },
                ],
            ),
            group(
                "Contexts",
                vec![item("Contexts", NavTarget::Contexts), item("Settings", NavTarget::Settings)],
            ),
        ],
        skins: ["catppuccin-mocha", "gruvbox-dark", "nord", "one-dark", "rose-pine", "rose-pine-dawn", "tokyo-night"]
            .iter()
            .map(|s| s.to_string())
            .collect(),
        skin_aliases: vec![
            ("tokyonight".to_string(), "tokyo-night".to_string()),
            ("onedark".to_string(), "one-dark".to_string()),
            ("rosepine".to_string(), "rose-pine".to_string()),
            ("rosepinedawn".to_string(), "rose-pine-dawn".to_string()),
        ],
    }
}

fn vocab(contexts: &[&str]) -> Vocabulary {
    Vocabulary::of(catalog(), contexts.iter().map(|c| c.to_string()).collect())
}

fn typed(line: &str) -> Palette {
    Palette::typed(line)
}

fn kind_ids(p: &Palette) -> Vec<String> {
    p.entries
        .iter()
        .filter_map(|e| match e {
            Entry::Kind { kind, .. } => Some(kind.id.clone()),
            _ => None,
        })
        .collect()
}

#[test]
fn the_window_frames_the_selection() {
    let entries: Vec<usize> = (0..20).collect();
    assert_eq!(window(&entries, 0, 5), (0, &entries[0..5]));
    assert_eq!(window(&entries, 4, 5), (0, &entries[0..5]));
    assert_eq!(window(&entries, 5, 5), (1, &entries[1..6]));
    assert_eq!(window(&entries, 19, 5), (15, &entries[15..20]));
    assert_eq!(window(&entries, 0, 0), (0, &entries[0..0]));
    let empty: [usize; 0] = [];
    assert_eq!(window(&empty, 0, 5), (0, &empty[..]));
}

#[test]
fn the_menu_centres_its_selection() {
    let entries: Vec<usize> = (0..20).collect();
    assert_eq!(centred(&entries, 0, 5), (0, &entries[0..5]), "rides the top");
    assert_eq!(centred(&entries, 1, 5), (0, &entries[0..5]));
    assert_eq!(centred(&entries, 2, 5), (0, &entries[0..5]), "first centred");
    assert_eq!(centred(&entries, 3, 5), (1, &entries[1..6]));
    assert_eq!(centred(&entries, 10, 5), (8, &entries[8..13]), "middle");
    assert_eq!(centred(&entries, 18, 5), (15, &entries[15..20]), "clamped");
    assert_eq!(centred(&entries, 19, 5), (15, &entries[15..20]), "rides the bottom");
    assert_eq!(centred(&entries, 10, 6), (8, &entries[8..14]));
    assert_eq!(centred(&entries, 3, 0), (0, &entries[0..0]));
    let short: Vec<usize> = (0..4).collect();
    assert_eq!(centred(&short, 3, 10), (0, &short[..]));
    assert_eq!(centred(&short, 0, 4), (0, &short[..]));
    let empty: [usize; 0] = [];
    assert_eq!(centred(&empty, 0, 5), (0, &empty[..]));
    assert_eq!(centred(&entries, 7, 1), (7, &entries[7..8]));
}

#[test]
fn every_command_declares_its_grammar() {
    assert_eq!(Command::Ctx.slots(), &[Slot::Contexts]);
    assert_eq!(Command::Skin.slots(), &[Slot::Skins]);
    assert_eq!(Command::Quit.slots(), &[]);
    assert_eq!(Command::Help.slots(), &[]);
    assert_eq!(Command::Journal.slots(), &[]);
    assert_eq!(Command::Activity.slots(), &[]);
    assert_eq!(Command::CanI.slots(), &[Slot::Actions, Slot::Kinds]);
    assert_eq!(Command::Hide.slots(), &[Slot::Hide]);
    assert_eq!(Command::Show.slots(), &[Slot::Show]);
    for c in COMMANDS.iter() {
        assert_eq!(head_command(&c.label().to_ascii_uppercase()), Some(*c));
    }
}

#[test]
fn q_ranks_the_quit_command_first() {
    let mut p = typed("q");
    p.refresh(&vocab(&[]));
    assert_eq!(p.current(), Some(&Entry::Command(Command::Quit)));
}

#[test]
fn a_space_after_ctx_completes_the_context_name() {
    let vocab = vocab(&["lab", "prod-eu"]);
    let mut p = typed("ctx");
    p.refresh(&vocab);
    assert_eq!(p.current(), Some(&Entry::Command(Command::Ctx)));
    p.input.insert(' ');
    p.refresh(&vocab);
    assert_eq!(p.entries.len(), 2, "{:?}", p.entries);
    p.input.insert_str("EU");
    p.refresh(&vocab);
    let chosen = Entry::Value { text: "prod-eu".into(), tag: Tag::Context };
    assert_eq!(p.entries, vec![chosen.clone()], "case-insensitive substring");
    p.input.insert(' ');
    p.refresh(&vocab);
    assert_eq!(p.entries, vec![chosen.clone()], "a trailing space keeps the list");
    p.input.backspace();
    assert_eq!(p.key(Key::Enter), Action::Chose(chosen, vec!["EU".to_string()]));
    p.input.insert_str("zz");
    p.refresh(&vocab);
    assert_eq!(p.entries, vec![Entry::Command(Command::Ctx)]);
    assert_eq!(p.key(Key::Enter), Action::Chose(Entry::Command(Command::Ctx), vec!["EUzz".to_string()]));
}

#[test]
fn a_page_is_offered_by_name_and_ranks_below_the_kinds() {
    let mut p = typed("disaster");
    p.refresh(&vocab(&[]));
    let pages: Vec<&Entry> = p.entries.iter().filter(|e| matches!(e, Entry::Page(_))).collect();
    assert_eq!(pages.len(), 1, "{:?}", p.entries);
    assert!(matches!(p.current(), Some(Entry::Page(def)) if def.id == "disaster-recovery"), "{:?}", p.entries);
    let mut p = typed("recovery");
    p.refresh(&vocab(&[]));
    assert!(matches!(p.entries.first(), Some(Entry::Kind { .. })), "a kind leads: {:?}", p.entries);
    assert!(
        p.entries.iter().any(|e| matches!(e, Entry::Page(def) if def.id == "disaster-recovery")),
        "the page is still offered: {:?}",
        p.entries
    );
}

#[test]
fn the_cursor_inserts_where_it_stands() {
    let mut p = typed("subnet");
    assert_eq!(p.key(Key::Left), Action::Moved);
    assert_eq!(p.key(Key::Left), Action::Moved);
    assert_eq!(p.key(Key::Left), Action::Moved);
    assert_eq!(p.key(Key::Char('X')), Action::Edited);
    assert_eq!(p.input.as_str(), "subXnet");
    assert_eq!(p.key(Key::Home), Action::Moved);
    assert_eq!(p.input.cursor(), 0);
    assert_eq!(p.key(Key::Left), Action::Ignored, "nothing to the left");
    assert_eq!(p.key(Key::Ctrl('e')), Action::Moved);
    assert!(p.input.at_end());
    assert_eq!(p.key(Key::Right), Action::Ignored, "nothing to the right, and no ghost either");
    assert_eq!(p.key(Key::Ctrl('a')), Action::Moved);
    assert_eq!(p.input.cursor(), 0);
    let mut p = typed("vm");
    p.refresh(&vocab(&[]));
    assert_eq!(p.ghost(), None);
    assert!(p.input.at_end());
    assert_eq!(p.key(Key::Right), Action::Ignored, "no ghost to take");
}

#[test]
fn ctrl_w_deletes_the_word_before_the_cursor() {
    let mut p = typed("ctx prod-eu");
    p.selected = 3;
    assert_eq!(p.key(Key::Ctrl('w')), Action::Edited);
    assert_eq!(p.input.as_str(), "ctx ");
    assert_eq!(p.selected, 0, "an edit puts the cursor back on the top row");
    assert_eq!(p.key(Key::Ctrl('w')), Action::Edited);
    assert_eq!(p.input.as_str(), "");
    let mut p = typed("skin gruvbox-dark");
    assert_eq!(p.key(Key::Ctrl('u')), Action::Edited);
    assert_eq!(p.input.as_str(), "");
}

#[test]
fn a_trailing_space_does_not_advance_the_slot() {
    let vocab = vocab(&["lab", "prod-eu"]);
    let mut p = typed("ctx EU ");
    p.refresh(&vocab);
    assert_eq!(
        p.entries,
        vec![Entry::Value { text: "prod-eu".into(), tag: Tag::Context }],
        "clamped to slot 1, still completing `EU`"
    );
    assert_eq!(p.slot, Some(Slot::Contexts), "and titled for it");
    let mut p = typed("vm ");
    p.refresh(&vocab);
    assert!(
        matches!(p.entries.first(), Some(Entry::Kind { kind, .. }) if kind.id == "vmm.ahv.config.Vm"),
        "{:?}",
        p.entries
    );
    assert_eq!(p.slot, None, "the head is not a slot");
    let mut p = typed("ctx a b");
    p.refresh(&vocab);
    assert_eq!(p.entries, vec![Entry::Command(Command::Ctx)]);
    assert_eq!(p.args(), vec!["a", "b"], "both reach the app to be refused");
}

#[test]
fn the_cursor_decides_which_vocabulary_is_ranked() {
    let vocab = vocab(&["lab", "prod-eu"]);
    let mut p = typed("ctx lab");
    p.refresh(&vocab);
    assert_eq!(p.entries, vec![Entry::Value { text: "lab".into(), tag: Tag::Context }]);
    assert_eq!(p.slot, Some(Slot::Contexts));
    p.input.home();
    p.refresh(&vocab);
    assert_eq!(p.entries.first(), Some(&Entry::Command(Command::Ctx)), "position 0 ranks commands: {:?}", p.entries);
    assert!(!p.entries.iter().any(|e| matches!(e, Entry::Value { .. })), "and no context value at all: {:?}", p.entries);
    assert_eq!(p.slot, None, "the head is not a slot");
}

#[test]
fn a_word_after_a_head_that_is_no_command_still_ranks_the_head() {
    let mut p = typed("disaster recovery");
    p.refresh(&vocab(&[]));
    assert!(matches!(p.current(), Some(Entry::Page(def)) if def.id == "disaster-recovery"), "{:?}", p.entries);
    assert_eq!(p.slot, None, "nothing was being completed");
    assert_eq!(p.args(), vec!["recovery"], "and the word still reaches the app");
}

#[test]
fn a_hyphen_free_alias_offers_its_canonical_skin() {
    for (alias, canonical) in [
        ("tokyonight", "tokyo-night"),
        ("onedark", "one-dark"),
        ("rosepine", "rose-pine"),
        ("rosepinedawn", "rose-pine-dawn"),
    ] {
        let mut p = typed(&format!("skin {alias}"));
        p.refresh(&vocab(&[]));
        assert_eq!(p.slot, Some(Slot::Skins), "{alias}");
        assert_eq!(
            p.current(),
            Some(&Entry::Value { text: canonical.into(), tag: Tag::Skin }),
            "{alias}: {:?}",
            p.entries
        );
    }
}

#[test]
fn hide_and_show_complete_from_different_vocabularies() {
    let mut vocab = vocab(&[]);
    vocab.hidden = vec!["Data Protection".to_string()];
    let entries = |line: &str| {
        let mut p = typed(line);
        p.refresh(&vocab);
        (p.slot, p.entries)
    };
    let (slot, rows) = entries("show Data");
    assert_eq!(slot, Some(Slot::Show));
    assert_eq!(rows, vec![Entry::Value { text: "Data Protection".into(), tag: Tag::Nav { hide: false } }]);
    let (slot, rows) = entries("show Hardware");
    assert_eq!(slot, None, "nothing has hidden Hardware: {rows:?}");
    let (slot, rows) = entries("hide Groups");
    assert_eq!(slot, Some(Slot::Hide));
    assert!(
        rows.contains(&Entry::Value { text: "volumes.config.VolumeGroup".into(), tag: Tag::Nav { hide: true } }),
        "{rows:?}"
    );
    let ids: Vec<&str> = rows
        .iter()
        .filter_map(|e| match e {
            Entry::Value { text, .. } => Some(text.as_str()),
            _ => None,
        })
        .collect();
    let mut unique = ids.clone();
    unique.sort_unstable();
    unique.dedup();
    assert_eq!(ids.len(), unique.len(), "{ids:?}");
    let (_, rows) = entries("hide dash");
    assert_eq!(rows, vec![Entry::Command(Command::Hide)], "{rows:?}");
}

#[test]
fn the_word_under_the_cursor_is_the_run_it_touches() {
    let at = |text: &str, cursor: usize| {
        let mut p = typed(text);
        p.input.home();
        for _ in 0..cursor {
            p.input.right();
        }
        let (position, word) = p.word_at_cursor();
        (position, word.to_string())
    };
    assert_eq!(at("ctx lab", 7), (1, "lab".into()));
    assert_eq!(at("ctx lab", 4), (1, "lab".into()), "at its first character");
    assert_eq!(at("ctx lab", 3), (0, "ctx".into()), "immediately after a run");
    assert_eq!(at("ctx ", 4), (1, String::new()), "a gap starts an empty word");
    assert_eq!(at("ctx  lab", 5), (1, "lab".into()), "double spaces collapse");
    assert_eq!(at("ctx a b", 7), (2, "b".into()));
    assert_eq!(at("", 0), (0, String::new()));
    assert_eq!(at("vm", 0), (0, "vm".into()), "the head, from its start");
}

#[test]
fn nav_labels_borrow_lookups_ranks() {
    let mut p = typed("policies");
    p.refresh(&vocab(&[]));
    let found = kind_ids(&p);
    assert!(found.contains(&"networking.config.RoutingPolicy".to_string()), "{found:?}");
    assert!(
        matches!(p.current(), Some(Entry::Kind { kind, .. }) if kind.id == "microseg.config.policies"),
        "{:?}",
        p.current()
    );
    let mut p = typed("subn");
    p.refresh(&vocab(&[]));
    assert_eq!(
        kind_ids(&p),
        [
            "networking.config.Subnet",
            "networking.config.Layer2Stretch",
            "networking.aws.config.AwsSubnet",
            "networking.config.RemoteSubnet",
        ],
        "catalog display prefix, nav label prefix, nav word prefix, id substring"
    );
}

#[test]
fn the_contexts_nav_item_does_not_double_the_ctx_command() {
    let mut p = typed("c");
    p.refresh(&vocab(&[]));
    let ctx = p.entries.iter().filter(|e| **e == Entry::Command(Command::Ctx)).count();
    assert_eq!(ctx, 1, "{:?}", p.entries);
    assert!(
        p.entries.iter().any(|e| matches!(e, Entry::Missing(i) if i.label == "Catalog Items")),
        "{:?}",
        p.entries
    );
    let mut p = typed("catalog");
    p.refresh(&vocab(&[]));
    assert!(
        matches!(p.current(), Some(Entry::Missing(i))
            if i.label == "Catalog Items" && i.note.as_deref() == Some("not in the v4 API")),
        "{:?}",
        p.entries
    );
}

#[test]
fn the_commands_keep_their_declared_order() {
    let mut p = Palette::default();
    p.refresh(&vocab(&[]));
    assert_eq!(p.current(), Some(&Entry::Command(Command::Ctx)), "{:?}", p.entries);
    assert_eq!(
        p.entries,
        COMMANDS.iter().copied().map(Entry::Command).collect::<Vec<_>>(),
        "an empty word is every command, in the order they are declared"
    );
    let mut p = typed("c");
    p.refresh(&vocab(&[]));
    assert_eq!(p.current(), Some(&Entry::Command(Command::Ctx)), "{:?}", p.entries);
}

#[test]
fn the_ghost_is_the_selected_rows_shortest_prefixing_candidate() {
    let mut p = typed("subn");
    p.refresh(&vocab(&[]));
    assert!(
        matches!(p.current(), Some(Entry::Kind { kind, .. }) if kind.id == "networking.config.Subnet"),
        "{:?}",
        p.current()
    );
    assert_eq!(p.ghost().as_deref(), Some("et"), "the alias `subnet`, not the id");
    assert_eq!(p.key(Key::Tab), Action::Completed);
    assert_eq!(p.input.as_str(), "subnet");
    assert!(p.input.at_end());
    p.refresh(&vocab(&[]));
    assert!(
        matches!(p.current(), Some(Entry::Kind { kind, .. }) if kind.id == "networking.config.Subnet"),
        "{:?}",
        p.current()
    );
    assert_eq!(p.ghost(), None);
    assert_eq!(p.key(Key::Left), Action::Moved);
    assert_eq!(p.ghost(), None, "hidden by the cursor");
    assert_eq!(p.key(Key::End), Action::Moved);
    assert_eq!(p.ghost(), None, "and there was nothing to bring back");
}

#[test]
fn a_match_that_is_not_a_prefix_has_no_ghost() {
    let mut p = typed("policies");
    p.refresh(&vocab(&[]));
    assert!(
        p.entries.iter().any(|e| matches!(e, Entry::Kind { kind, .. } if kind.id == "networking.config.RoutingPolicy")),
        "the nav label finds what the id misses: {:?}",
        p.entries
    );
    assert_eq!(p.ghost(), None);
    assert_eq!(p.key(Key::Tab), Action::Moved);
    assert_eq!(p.selected, 1);
}

#[test]
fn a_word_that_spells_its_match_has_no_ghost() {
    let mut p = typed("vm");
    p.refresh(&vocab(&[]));
    assert!(
        matches!(p.current(), Some(Entry::Kind { kind, .. }) if kind.id == "vmm.ahv.config.Vm"),
        "{:?}",
        p.current()
    );
    assert_eq!(p.ghost(), None);
    assert_eq!(p.key(Key::Tab), Action::Moved, "tab keeps its old job");
    assert_eq!(p.input.as_str(), "vm", "and changed nothing");
}

#[test]
fn a_command_ghost_brings_its_space() {
    let vocab = vocab(&["lab", "prod-eu"]);
    let mut p = typed("ct");
    p.refresh(&vocab);
    assert_eq!(p.current(), Some(&Entry::Command(Command::Ctx)));
    assert_eq!(p.ghost().as_deref(), Some("x"));
    assert_eq!(p.key(Key::Tab), Action::Completed);
    assert_eq!(p.input.as_str(), "ctx ");
    p.refresh(&vocab);
    assert_eq!(p.entries.len(), 2, "the context list, in the same keystroke: {:?}", p.entries);
    let mut p = typed("qui");
    p.refresh(&vocab);
    assert_eq!(p.current(), Some(&Entry::Command(Command::Quit)));
    assert_eq!(p.ghost().as_deref(), Some("t"));
    assert_eq!(p.key(Key::Right), Action::Completed, "→ takes it too");
    assert_eq!(p.input.as_str(), "quit", "no slots, no space");
}

#[test]
fn a_word_the_list_is_not_about_has_no_ghost() {
    let vocab = vocab(&["lab", "prod-eu"]);
    let mut p = typed("subnet s");
    p.refresh(&vocab);
    assert!(
        matches!(p.current(), Some(Entry::Kind { kind, .. }) if kind.id == "networking.config.Subnet"),
        "the head, ranked: {:?}",
        p.current()
    );
    assert_eq!(p.slot, None, "no vocabulary produced these rows");
    assert_eq!(p.ghost(), None);
    assert_eq!(p.key(Key::Tab), Action::Moved, "tab keeps its old job");
    assert_eq!(p.input.as_str(), "subnet s", "and changed nothing");
    let mut p = typed("ctx c");
    p.refresh(&vocab);
    assert_eq!(p.current(), Some(&Entry::Command(Command::Ctx)));
    assert_eq!(p.slot, None, "no context contains a `c`");
    assert_eq!(p.ghost(), None);
    assert_eq!(p.key(Key::Tab), Action::Moved);
    assert_eq!(p.input.as_str(), "ctx c", "no second `ctx`, and no space");
}

#[test]
fn a_trailing_space_has_no_ghost() {
    let vocab = vocab(&[]);
    for (input, without) in [("subn ", "subn"), ("skin gruv ", "skin gruv")] {
        let mut p = typed(input);
        p.refresh(&vocab);
        assert!(p.input.at_end(), "{input:?}");
        assert_eq!(p.ghost(), None, "{input:?}");
        assert_eq!(p.key(Key::Tab), Action::Moved, "{input:?}");
        assert_eq!(p.input.as_str(), input, "{input:?}");
        let mut p = typed(without);
        p.refresh(&vocab);
        assert!(p.ghost().is_some(), "{without:?}: {:?}", p.current());
    }
}

#[test]
fn history_restores_the_stashed_line() {
    let vocab = vocab(&[]);
    let mut p = Palette::with_history(vec!["vm".into(), "ctx lab".into(), "skin nord".into()]);
    p.input.insert_str("half");
    assert_eq!(p.key(Key::Ctrl('p')), Action::Edited);
    assert_eq!(p.input.as_str(), "skin nord", "newest first");
    assert!(p.input.at_end(), "and the cursor goes to the end");
    p.key(Key::Ctrl('p'));
    assert_eq!(p.input.as_str(), "ctx lab");
    p.key(Key::Ctrl('p'));
    assert_eq!(p.input.as_str(), "vm");
    assert_eq!(p.key(Key::Ctrl('p')), Action::Ignored, "the oldest is the end");
    p.key(Key::Ctrl('n'));
    assert_eq!(p.input.as_str(), "ctx lab");
    p.key(Key::Ctrl('n'));
    assert_eq!(p.input.as_str(), "skin nord");
    assert_eq!(p.key(Key::Ctrl('n')), Action::Edited);
    assert_eq!(p.input.as_str(), "half", "past the newest is what was being typed");
    assert_eq!(p.key(Key::Ctrl('n')), Action::Ignored, "and there is no more");
    p.key(Key::Ctrl('p'));
    assert_eq!(p.input.as_str(), "skin nord");
    p.key(Key::Char('!'));
    assert_eq!(p.input.as_str(), "skin nord!");
    assert_eq!(p.key(Key::Ctrl('n')), Action::Ignored, "nowhere to go forward to");
    p.refresh(&vocab);
    let line = p.input.as_str().to_string();
    p.key(Key::Down);
    assert_eq!(p.input.as_str(), line);
    let mut p = Palette::default();
    assert_eq!(p.key(Key::Ctrl('p')), Action::Ignored);
    assert_eq!(p.key(Key::Ctrl('n')), Action::Ignored);
}

#[test]
fn lookup_ranks_an_id_then_an_alias_then_a_display_prefix_then_an_id_substring() {
    let vm = kind("vmm.ahv.config.Vm", "Virtual Machines", &["vm", "vms"], true);
    assert_eq!(lookup_rank(&vm, "VMM.AHV.CONFIG.VM"), Some(0));
    assert_eq!(lookup_rank(&vm, "vms"), Some(1));
    let generated = kind("x.y.Thing", "Things", &["thing"], false);
    assert_eq!(lookup_rank(&generated, "thing"), Some(2));
    assert_eq!(lookup_rank(&vm, "virt"), Some(3));
    assert_eq!(lookup_rank(&vm, "ahv"), Some(4));
    assert_eq!(lookup_rank(&vm, "zzz"), None);
}

#[test]
fn the_head_ranking_caps_the_kinds_and_greys_what_the_session_refuses() {
    let mut c = catalog();
    for i in 0..40 {
        c.kinds.push(kind(&format!("bulk.config.K{i:02}"), &format!("Bulk {i:02}"), &[], false));
    }
    let mut v = Vocabulary::empty(c);
    v.unavailable = vec![("bulk.config.K00".to_string(), "namespace not served".to_string())];
    let rows = head_ranking("bulk", &v);
    let kinds: Vec<&Entry> = rows.iter().filter(|e| matches!(e, Entry::Kind { .. })).collect();
    assert_eq!(kinds.len(), 30, "at most thirty kinds");
    assert!(matches!(
        kinds[0],
        Entry::Kind { kind, reason: Some(r) } if kind.id == "bulk.config.K00" && r == "namespace not served"
    ));
    assert!(matches!(kinds[1], Entry::Kind { reason: None, .. }));
}

#[test]
fn an_input_builds_from_a_line() {
    let i = Input::from_str("abc");
    assert_eq!(i.as_str(), "abc");
    assert!(i.at_end());
}

#[test]
fn a_nav_label_matches_whole_at_its_start_at_a_word_and_anywhere() {
    assert_eq!(nav_rank("Recovery Plans", "recovery plans"), Some((0, ROUTE_NAV_LABEL)));
    assert_eq!(nav_rank("Recovery Plans", "rec"), Some((3, ROUTE_NAV_LABEL)));
    assert_eq!(nav_rank("Recovery Plans", "pla"), Some((3, ROUTE_NAV_WORD)));
    assert_eq!(nav_rank("Compute & Storage", "stor"), Some((3, ROUTE_NAV_WORD)));
    assert_eq!(nav_rank("VM-Groups", "gro"), Some((3, ROUTE_NAV_WORD)), "a hyphen starts a word");
    assert_eq!(nav_rank("Recovery Plans", "lans"), Some((4, ROUTE_NAV_WORD)));
    assert_eq!(nav_rank("Recovery Plans", "xyz"), None);
}
