use nutsh_tui::detail::{body_lines, text_lines, Action, Body, Detail, Rendered, Section, Span, TableKey, Tint};
use nutsh_tui::menu::{ActionRef, Row};
use nutsh_tui::catalog::{KindRef, Reach};
use nutsh_tui::key::Key;

/// The lines as the terminal would draw them, tints dropped.
fn text(lines: &[Vec<Span>]) -> Vec<String> {
    lines
        .iter()
        .map(|l| l.iter().map(|s| s.text.as_str()).collect::<String>())
        .collect()
}

fn section(title: &str, fields: &[(&str, &str)]) -> Section {
    Section {
        title: title.to_string(),
        fields: fields
            .iter()
            .map(|(l, v)| {
                (
                    (*l).to_string(),
                    Rendered {
                        text: (*v).to_string(),
                        dim: false,
                    },
                )
            })
            .collect(),
    }
}

fn identity() -> Section {
    section(
        "Identity",
        &[
            ("Name", "LAB-CLEAR03"),
            ("Description", "web tier, staging"),
            ("UUID", "c429f7a2-16fe-4c5c-8eb7-bc5b9da0a746"),
            ("Project", "-"),
        ],
    )
}

#[test]
fn a_wide_pane_pairs_its_fields_under_a_ruled_heading() {
    let lines = text(&body_lines(vec![identity()], 94));
    assert_eq!(lines.len(), 4, "{lines:?}");
    assert!(lines[0].starts_with("IDENTITY ───"), "{:?}", lines[0]);
    assert_eq!(lines[0].chars().count(), 94, "the rule reaches the right edge");
    assert_eq!(lines[1].find("Name LAB-CLEAR03"), Some(14), "{:?}", lines[1]);
    assert_eq!(
        lines[1].find("Description web tier, staging"),
        Some(53),
        "the second column starts at 46 and right-aligns its label in 18: {:?}",
        lines[1]
    );
    assert_eq!(lines[2].find("UUID c429f7a2-16fe-4c5c-8eb7-bc5b9da0a746"), Some(14));
    assert_eq!(lines[3].trim(), "Project -");
}

#[test]
fn a_paired_field_always_leaves_a_gutter_before_the_next_label() {
    let mut paired = 0;
    for len in 1..=30 {
        let value = "x".repeat(len);
        let lines = text(&body_lines(
            vec![section("State", &[("Power", &value), ("Live migratable ok", "yes")])],
            94,
        ));
        if lines.len() == 3 {
            continue;
        }
        paired += 1;
        let at = lines[1]
            .find("Live migratable ok")
            .unwrap_or_else(|| panic!("{len}: {:?}", lines[1]));
        assert!(
            lines[1][..at].ends_with("  "),
            "{len} cells: at least two before the next label: {:?}",
            lines[1]
        );
        assert!(lines[1].contains(&value), "{len} cells: the value is not cut: {:?}", lines[1]);
    }
    assert_eq!(paired, 25, "the budget at 94 cells is 25, gutter deducted");
}

#[test]
fn a_narrow_pane_is_one_column_and_a_long_label_spills() {
    let lines = text(&body_lines(vec![identity()], 80));
    assert_eq!(lines.len(), 5, "a heading and one line per field: {lines:?}");
    assert_eq!(lines[1].find("Name LAB-CLEAR03"), Some(14));
    assert_eq!(lines[2].find("Description web tier, staging"), Some(7));

    let long = section(
        "Controller VM",
        &[("Backplane address · ipv4.value", "192.168.5.2"), ("Value", "192.0.2.31")],
    );
    let lines = text(&body_lines(vec![long], 94));
    assert_eq!(
        lines[1], "Backplane address · ipv4.value 192.168.5.2",
        "a thirty-cell label is not padded and is not cut"
    );
    assert_eq!(lines[2].find("Value 192.0.2.31"), Some(13));
}

#[test]
fn a_payload_pane_opens_raw_and_never_returns_to_a_composed_view() {
    assert_eq!(Body::default_for(None), Body::Yaml);
    assert_eq!(Body::Yaml.toggled(Body::Yaml, Body::Yaml), Body::Yaml);
    assert_eq!(Body::Yaml.toggled(Body::Json, Body::Yaml), Body::Json);
    assert_eq!(Body::Json.toggled(Body::Json, Body::Yaml), Body::Yaml);
    assert_eq!(Body::Composed.toggled(Body::Yaml, Body::Composed), Body::Yaml);
    assert_eq!(Body::Yaml.toggled(Body::Yaml, Body::Composed), Body::Composed);
    assert_eq!(Body::Json.toggled(Body::Json, Body::Composed), Body::Composed);
}

#[test]
fn a_resize_that_shortens_the_body_is_repaired_by_the_next_key() {
    let mut pane = Detail::payload("t".to_string(), "null".to_string());
    assert_eq!(pane.key(Key::Char('G'), 40), Action::Scrolled);
    assert_eq!(pane.scroll, 40);
    assert_eq!(pane.key(Key::Char('k'), 20), Action::Scrolled);
    assert_eq!(pane.scroll, 19, "one line up from the new last, not 39");
}

fn vm_key() -> TableKey {
    TableKey {
        kind: KindRef {
            id: "vmm.v4.ahv.config.Vm".to_string(),
            display: "Virtual Machines".to_string(),
            aliases: vec!["vm".to_string()],
            curated: true,
            reach: Reach::Direct,
            note: None,
        },
    }
}

#[test]
fn an_entity_pane_opens_composed() {
    assert_eq!(Body::default_for(Some(&vm_key())), Body::Composed);
}

fn entity_pane() -> Detail {
    Detail {
        key: Some(vm_key()),
        ext_id: "c429f7a2".to_string(),
        sub: Some(1),
        body: Body::Composed,
        scroll: 0,
        error: None,
        payload: None,
        heading: None,
    }
}

fn power_on() -> Row {
    Row {
        action: ActionRef {
            name: "power-on".to_string(),
            title: "Power on".to_string(),
            key: "O".to_string(),
            order: 1,
            danger: Some(0),
        },
        reason: None,
    }
}

#[test]
fn the_wire_document_splits_where_str_lines_does() {
    assert_eq!(text(&text_lines("a\r\nb\n")), vec!["a", "b"]);
    assert_eq!(text(&text_lines("")), Vec::<String>::new());
    assert_eq!(text(&text_lines("x\r")), vec!["x\r"]);
    assert_eq!(text(&text_lines("\n\n")), vec!["", ""]);
    assert_eq!(text_lines("k: v")[0][0].tint, Tint::Plain);
}

#[test]
fn a_row_that_has_not_landed_is_loading_and_still_lists_its_actions() {
    let pane = entity_pane();
    let lines = text(&pane.lines(false, Vec::new(), "", "", &[power_on()], 80));
    assert_eq!(lines[0], "loading…");
    assert!(lines[1].starts_with("ACTIONS ─"), "{lines:?}");
    assert_eq!(lines[2], format!("{}O Power on", " ".repeat(17)));
    assert_eq!(pane.title(None), "Virtual Machines · …");
    assert_eq!(pane.title(Some("web-01")), "Virtual Machines · web-01");
}

#[test]
fn an_empty_composition_says_so_and_falls_through_to_the_wire_document() {
    let mut pane = entity_pane();
    pane.error = Some("timed out".to_string());
    let lines = text(&pane.lines(true, Vec::new(), "name: web-01\n", "{}", &[], 80));
    assert_eq!(
        lines,
        vec![
            "error: timed out",
            "",
            "nothing to compose from this document - the wire document follows",
            "",
            "name: web-01",
        ]
    );
    assert_eq!(pane.lines(true, Vec::new(), "", "", &[], 80)[0][0].tint, Tint::Error);
}

#[test]
fn the_raw_bodies_show_their_own_rendering_and_no_actions() {
    let mut pane = entity_pane();
    pane.body = Body::Json;
    let lines = text(&pane.lines(true, vec![identity()], "name: web-01\n", "{\n  \"name\": \"web-01\"\n}", &[power_on()], 80));
    assert_eq!(lines, vec!["{", "  \"name\": \"web-01\"", "}"]);
    assert_eq!(pane.text(true, "y\n", "{}"), "{}\n");
    pane.body = Body::Yaml;
    assert_eq!(pane.text(true, "y\n", "{}"), "y\n");
    assert_eq!(pane.text(false, "y\n", "{}"), "loading…\n");
}

#[test]
fn a_payload_pane_never_waits_for_a_row() {
    let pane = Detail::payload("console token".to_string(), "token: abc".to_string());
    assert_eq!(text(&pane.lines(false, Vec::new(), "token: abc\n", "{}", &[power_on()], 80)), vec!["token: abc"]);
    assert_eq!(pane.title(Some("ignored")), "console token");
}

#[test]
fn the_heading_rule_fills_a_narrow_pane_too() {
    let lines = text(&body_lines(vec![section("Host", &[("Name", "a")])], 20));
    assert_eq!(lines[0], format!("HOST {}", "─".repeat(15)));
    assert_eq!(lines[1], format!("{}Name a", " ".repeat(14)));
}
