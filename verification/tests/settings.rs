use nutsh_tui::key::Key;
use nutsh_tui::settings::{Action, Row, Setting, SettingId, Settings};

fn setting(id: SettingId, label: &str, value: &str, fixed: Option<&str>) -> Setting {
    Setting {
        id,
        label: label.to_string(),
        value: value.to_string(),
        source: "default".to_string(),
        fixed: fixed.map(str::to_string),
    }
}

fn screen() -> Settings {
    Settings::open(
        &[
            setting(SettingId::Skin, "skin", "catppuccin-mocha", None),
            setting(SettingId::Cache, "cache", "on", None),
            setting(SettingId::Mouse, "mouse", "on", None),
            setting(SettingId::Readonly, "readonly", "off", Some("compiled at connect")),
            setting(SettingId::HideUnserved, "hide unserved", "off", None),
        ],
        "gruvbox-dark",
        &[],
        &["Data Protection".to_string()],
    )
}

#[test]
fn the_skin_row_shows_the_skin_on_screen_not_the_one_in_the_file() {
    let s = screen();
    assert!(matches!(
        &s.rows[0],
        Row::Setting { value, .. } if value == "gruvbox-dark"
    ));
}

#[test]
fn the_cursor_never_lands_on_the_heading() {
    let mut s = screen();
    for _ in 0..10 {
        s.key(Key::Char('j'));
        assert!(!matches!(s.rows[s.selected], Row::Heading(_)));
    }
    s.key(Key::Char('G'));
    assert!(!matches!(s.rows[s.selected], Row::Heading(_)));
    for _ in 0..10 {
        s.key(Key::Char('k'));
        assert!(!matches!(s.rows[s.selected], Row::Heading(_)));
    }
}

#[test]
fn a_fixed_row_explains_itself_and_toggles_nothing() {
    let mut s = screen();
    s.selected = 3;
    assert_eq!(s.key(Key::Char(' ')), Action::Fixed("compiled at connect".to_string()));
}

#[test]
fn the_skin_row_opens_the_skin_list_and_mouse_asks_for_its_own_command() {
    let mut s = screen();
    s.selected = 0;
    assert_eq!(s.key(Key::Enter), Action::Skins);
    s.selected = 2;
    assert_eq!(s.key(Key::Char(' ')), Action::Cycle(SettingId::Mouse));
    s.selected = 1;
    assert_eq!(s.key(Key::Char(' ')), Action::Toggled(SettingId::Cache, false));
}

#[test]
fn d_removes_a_hide_entry_and_does_nothing_on_a_setting() {
    let mut s = screen();
    s.selected = 0;
    assert_eq!(s.key(Key::Char('d')), Action::Ignored);
    s.key(Key::Char('G'));
    assert_eq!(s.key(Key::Char('d')), Action::Remove("Data Protection".to_string()));
}

#[test]
fn an_empty_seam_says_so_and_toggles_nothing() {
    let mut s = Settings::open(&[], "catppuccin-mocha", &[], &[]);
    assert_eq!(s.rows.len(), 1);
    assert!(matches!(s.rows[0], Row::Note(_)));
    for key in [Key::Char(' '), Key::Enter, Key::Char('d')] {
        assert_eq!(s.key(key), Action::Ignored);
    }
}

#[test]
fn esc_leaves_and_a_switch_that_is_off_turns_on() {
    let mut s = screen();
    s.selected = 4;
    assert_eq!(s.key(Key::Char(' ')), Action::Toggled(SettingId::HideUnserved, true));
    assert_eq!(s.key(Key::Esc), Action::Cancelled);
}
