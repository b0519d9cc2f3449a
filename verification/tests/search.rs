use nutsh_tui::catalog::{KindRef, Reach};
use nutsh_tui::key::Key;
use nutsh_tui::search::{Action, Found, FoundGroup, Hit, Search};

fn kind(id: &str, display: &str) -> KindRef {
    KindRef {
        id: id.to_string(),
        display: display.to_string(),
        aliases: Vec::new(),
        curated: true,
        reach: Reach::Direct,
        note: None,
    }
}

fn vm() -> KindRef {
    kind("vmm.ahv.config.Vm", "Virtual Machines")
}

fn host() -> KindRef {
    kind("clustermgmt.config.Host", "Hosts")
}

fn hit(kind: KindRef, name: &str) -> Hit {
    Hit {
        kind,
        ext_id: format!("id-{name}"),
        name: name.to_string(),
        detail: "192.0.2.21".to_string(),
    }
}

fn found() -> Found {
    Found {
        groups: vec![
            FoundGroup {
                kind: vm(),
                hits: vec![hit(vm(), "web-01"), hit(vm(), "web-02")],
            },
            FoundGroup {
                kind: host(),
                hits: vec![hit(host(), "ahv-node-1")],
            },
        ],
        loaded: 14,
        not_loaded: 248,
    }
}

#[test]
fn the_cursor_walks_results_and_steps_over_captions() {
    let mut s = Search::new("192.0.2.21".into(), found());
    assert_eq!(s.rows.len(), 5, "two captions and three results");
    assert_eq!(s.selected, 1, "the first result, not the first caption");
    assert_eq!(s.key(Key::Char('j')), Action::Moved);
    assert_eq!(s.selected, 2);
    assert_eq!(s.key(Key::Char('j')), Action::Moved);
    assert_eq!(s.selected, 4, "over the Hosts caption in one step");
    assert_eq!(s.key(Key::Char('j')), Action::Moved);
    assert_eq!(s.selected, 4, "and nothing below the last result");
    assert_eq!(s.key(Key::Char('k')), Action::Moved);
    assert_eq!(s.selected, 2, "back over it the other way");
    assert_eq!(s.key(Key::Char('g')), Action::Moved);
    assert_eq!(s.selected, 1, "`g` is the first result");
    assert_eq!(s.key(Key::Char('G')), Action::Moved);
    assert_eq!(s.selected, 4);
    assert_eq!(s.key(Key::Char('z')), Action::Ignored);
}

#[test]
fn enter_names_the_row_under_the_cursor() {
    let mut s = Search::new("web".into(), found());
    assert_eq!(
        s.key(Key::Enter),
        Action::Chose {
            kind: vm(),
            ext_id: "id-web-01".into(),
        }
    );
    assert_eq!(s.key(Key::Esc), Action::Closed);
    assert_eq!(s.key(Key::Char('q')), Action::Closed);
}

#[test]
fn an_empty_result_still_states_its_reach() {
    let mut s = Search::new(
        "nothing".into(),
        Found {
            groups: Vec::new(),
            loaded: 1,
            not_loaded: 261,
        },
    );
    assert!(s.is_empty());
    assert_eq!(s.reach(), "searched 1 loaded kind · 261 not loaded");
    for key in [Key::Char('j'), Key::Char('G'), Key::PageDown, Key::End] {
        assert_eq!(s.key(key), Action::Moved);
        assert_eq!(s.selected, 0);
    }
    assert_eq!(s.key(Key::Enter), Action::Ignored, "nothing to open");
}

#[test]
fn the_reach_counts_in_words_that_agree_with_it() {
    let s = Search::new("x".into(), found());
    assert_eq!(s.reach(), "searched 14 loaded kinds · 248 not loaded");
}

#[test]
fn a_refill_keeps_the_term_and_lands_on_the_first_result() {
    let mut s = Search::new("web".into(), Found { groups: Vec::new(), loaded: 0, not_loaded: 0 });
    assert!(s.is_empty());
    s.refill(found());
    assert_eq!(s.term, "web");
    assert_eq!(s.hits(), 3);
    assert_eq!(s.selected, 1);
    assert!(s.current().map(|r| r.is_hit()).unwrap_or(false));
}
