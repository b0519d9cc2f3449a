use nutsh_tui::catalog::{KindRef, NavItem, NavTarget, Reach};
use nutsh_tui::detail::Action as DetailAction;
use nutsh_tui::menu::ActionRef;
use nutsh_tui::picker::Event as PickerEvent;
use nutsh_tui::key::Key;
use nutsh_tui::palette::{Action as PaletteAction, Command, Entry, Tag};
use nutsh_tui::settings::{Action as SettingsAction, Row as SettingsRow, Settings};
use nutsh_tui::shell::{
    reopen_settings, choose_entry, detail_first, detail_step, flag_status, palette_step, picker_step, DetailStep, PickerStep, parent_hint, refresh_status, settings_step, step, toggle_all, Chosen, Focus, Mode,
    Open, PaletteStep, Route, SettingsEffect, Shell,
};

fn table_shell() -> Shell {
    Shell {
        mode: Mode::Table,
        help_from: Mode::Table,
        focus: Focus::Body,
        quit: false,
        dirty: false,
        status: Some("old news".to_string()),
        live: true,
        quit_asked: false,
        menu_visible: true,
        menu_toggled: false,
        wide: true,
        on_contexts: false,
        mouse_on: true,
        page_open: false,
        menu_filtering: false,
        table_filtering: false,
    }
}

fn words(w: &[&str]) -> Vec<String> {
    w.iter().map(|s| s.to_string()).collect()
}

#[test]
fn a_zero_length_pins_the_selection_at_zero() {
    assert_eq!(step(5, false, 3, 0), 0);
    assert_eq!(step(5, true, 3, 0), 0);
    assert_eq!(step(5, false, 3, 10), 2);
    assert_eq!(step(5, true, 3, 7), 6);
    assert_eq!(step(2, false, 20, 7), 0);
}

#[test]
fn ctrl_c_quits_from_every_screen() {
    for mode in [Mode::Table, Mode::Help, Mode::Form, Mode::Confirm, Mode::Contexts, Mode::Command] {
        let mut s = table_shell();
        s.mode = mode;
        assert_eq!(s.route(Key::Ctrl('c')), Route::Quit);
        assert!(s.quit && s.dirty);
        assert_eq!(s.mode, mode, "nothing else moves");
    }
}

#[test]
fn a_key_clears_the_status_line_and_the_quit_warning() {
    let mut s = table_shell();
    s.quit_asked = true;
    assert_eq!(s.route(Key::Char('x')), Route::Screen(Mode::Table));
    assert_eq!(s.status, None);
    assert!(s.dirty);
    assert!(!s.quit_asked);
    let mut s = table_shell();
    s.quit_asked = true;
    s.route(Key::Char('q'));
    assert!(s.quit_asked, "a second q is what quits");
}

#[test]
fn ctrl_b_hides_the_shown_menu_and_hands_the_keys_to_the_body() {
    let mut s = table_shell();
    s.focus = Focus::Sidebar;
    assert_eq!(s.route(Key::Ctrl('b')), Route::Handled);
    assert!(!s.menu_visible && s.menu_toggled);
    assert_eq!(s.focus, Focus::Body);
    assert_eq!(s.route(Key::Ctrl('b')), Route::Handled);
    assert!(s.menu_visible);
}

#[test]
fn ctrl_o_flips_the_mouse_and_says_so() {
    let mut s = table_shell();
    assert_eq!(s.route(Key::Ctrl('o')), Route::Handled);
    assert!(!s.mouse_on);
    assert_eq!(s.status.as_deref(), Some("mouse off (shift-drag also selects text in most terminals)"));
    s.route(Key::Ctrl('o'));
    assert_eq!(s.status.as_deref(), Some("mouse on"));
}

#[test]
fn tab_and_digits_hand_the_keys_to_the_menu() {
    let mut s = table_shell();
    s.table_filtering = true;
    assert_eq!(s.route(Key::Tab), Route::FocusMenu);
    assert_eq!(s.focus, Focus::Sidebar);
    assert!(!s.table_filtering);
    assert_eq!(s.route(Key::Char('j')), Route::Sidebar);

    let mut s = table_shell();
    s.menu_visible = false;
    assert_eq!(s.route(Key::Char('3')), Route::Jump(3));
    assert!(s.menu_visible && s.focus == Focus::Sidebar);

    let mut s = table_shell();
    s.table_filtering = true;
    assert_eq!(s.route(Key::Char('3')), Route::Screen(Mode::Table), "a digit typed into a term is the term's");
}

#[test]
fn the_help_screen_goes_back_where_it_came_from() {
    let mut s = table_shell();
    s.mode = Mode::Help;
    s.help_from = Mode::Detail;
    assert_eq!(s.route(Key::Char('j')), Route::Handled);
    assert_eq!(s.mode, Mode::Help);
    assert_eq!(s.route(Key::Esc), Route::Handled);
    assert_eq!(s.mode, Mode::Detail);
}

#[test]
fn quitting_with_running_tasks_asks_once() {
    let mut s = table_shell();
    s.request_quit(2);
    assert!(!s.quit);
    assert_eq!(s.status.as_deref(), Some("2 tasks still running; press q again to quit"));
    s.request_quit(2);
    assert!(s.quit);
    let mut s = table_shell();
    s.request_quit(1);
    assert_eq!(s.status.as_deref(), Some("1 task still running; press q again to quit"));
    let mut s = table_shell();
    s.request_quit(0);
    assert!(s.quit);
}

#[test]
fn opening_a_root_kind_greys_before_it_opens() {
    let mut s = table_shell();
    s.mode = Mode::Detail;
    assert_eq!(s.open_root(Some("not in this API".to_string()), None), Open::Greyed("not in this API".to_string()));
    assert_eq!(s.mode, Mode::Detail);
    s.live = false;
    assert_eq!(s.open_root(None, None), Open::Greyed("not connected".to_string()));
    assert_eq!(s.open_page(), Open::Greyed("not connected".to_string()));
    s.live = true;
    assert_eq!(s.open_root(None, Some("namespace missing".to_string())), Open::Greyed("namespace missing".to_string()));
    assert_eq!(s.open_root(None, None), Open::Opened);
    assert_eq!(s.mode, Mode::Table);
    assert!(s.dirty);
}

#[test]
fn too_many_words_are_refused_before_anything_runs() {
    let r = choose_entry(&Entry::Command(Command::Ctx), words(&["a", "b"]));
    assert_eq!(r, Chosen::Refused(":ctx takes one name".to_string()));
    let r = choose_entry(&Entry::Command(Command::Ctx), words(&["EUzz"]));
    assert_eq!(r, Chosen::Run(Command::Ctx, words(&["EUzz"])));
}

#[test]
fn rest_of_line_commands_join_their_words() {
    let r = choose_entry(&Entry::Command(Command::Search), words(&["web", "01"]));
    assert_eq!(r, Chosen::Search("web 01".to_string()));
    let r = choose_entry(&Entry::Command(Command::Hide), words(&["Compute", "&", "Storage"]));
    assert_eq!(r, Chosen::Nav(Some("Compute & Storage".to_string()), true));
    let r = choose_entry(&Entry::Command(Command::Show), vec![]);
    assert_eq!(r, Chosen::Nav(None, false));
    assert_eq!(choose_entry(&Entry::Command(Command::Quit), vec![]), Chosen::Quit);
}

#[test]
fn a_completed_value_runs_the_command_it_belongs_to() {
    let v = |text: &str, tag| Entry::Value { text: text.to_string(), tag };
    assert_eq!(choose_entry(&v("prod", Tag::Context), vec![]), Chosen::Run(Command::Ctx, words(&["prod"])));
    assert_eq!(choose_entry(&v("dusk", Tag::Skin), vec![]), Chosen::ApplySkin("dusk".to_string()));
    assert_eq!(choose_entry(&v("30s", Tag::Interval), vec![]), Chosen::Run(Command::Refresh, words(&["30s"])));
    assert_eq!(choose_entry(&v("debug", Tag::Level), vec![]), Chosen::Run(Command::Log, words(&["debug"])));
    assert_eq!(choose_entry(&v("vms", Tag::Nav { hide: false }), vec![]), Chosen::Nav(Some("vms".to_string()), false));
}

#[test]
fn a_missing_item_says_why_it_opens_nothing() {
    let item = NavItem { label: "Licensing".to_string(), target: NavTarget::Missing, note: None };
    assert_eq!(choose_entry(&Entry::Missing(item), vec![]), Chosen::Status("Licensing: nothing to open".to_string()));
    let item = NavItem { label: "Flow".to_string(), target: NavTarget::Missing, note: Some("not in v4".to_string()) };
    assert_eq!(choose_entry(&Entry::Missing(item), vec![]), Chosen::Status("Flow: not in v4".to_string()));
}

#[test]
fn parent_hint_names_the_row_to_use() {
    assert_eq!(parent_hint("vm_disks", "vms"), "open vm_disks from a row of vms: pick one and press enter");
}

#[test]
fn toggling_all_says_what_it_now_means() {
    assert_eq!(toggle_all(false, 0, true), (true, "showing every kind this session".to_string()));
    assert_eq!(toggle_all(false, 3, true), (true, "showing every kind this session except the 3 you hid".to_string()));
    assert_eq!(toggle_all(true, 3, true), (false, "hiding what this Prism Central does not serve".to_string()));
    assert_eq!(toggle_all(true, 3, false), (false, "nothing is hidden but what you asked for".to_string()));
}

#[test]
fn expanding_a_namespace_twice_leaves_it_as_it_was() {
    let mut open = words(&["vmm"]);
    assert_eq!(settings_step(&mut open, SettingsAction::Expand("clustermgmt".to_string())), SettingsEffect::Reopen);
    assert!(open.contains(&"clustermgmt".to_string()) && open.contains(&"vmm".to_string()));
    settings_step(&mut open, SettingsAction::Expand("clustermgmt".to_string()));
    assert_eq!(open, words(&["vmm"]));
    assert_eq!(settings_step(&mut open, SettingsAction::Cancelled), SettingsEffect::Close);
    assert_eq!(settings_step(&mut open, SettingsAction::Remove("vms".to_string())), SettingsEffect::Unhide("vms".to_string()));
    assert_eq!(open, words(&["vmm"]));
}

#[test]
fn settings_status_lines() {
    assert_eq!(refresh_status(0), "nothing subscribed to refresh");
    assert_eq!(refresh_status(1), "refreshing 1 view");
    assert_eq!(refresh_status(4), "refreshing 4 views");
    assert_eq!(flag_status("mouse", true, None), "mouse on");
    assert_eq!(flag_status("mouse", false, Some("read-only file")), "mouse not saved: read-only file");
}

#[test]
fn a_chosen_palette_line_is_recorded_trimmed_and_the_screen_below_comes_back() {
    let mut s = table_shell();
    s.mode = Mode::Command;
    assert_eq!(palette_step(&mut s, Mode::Detail, PaletteAction::Edited, "ct"), PaletteStep::Rerank);
    assert_eq!(s.mode, Mode::Command);
    let r = palette_step(&mut s, Mode::Detail, PaletteAction::Chose(Entry::Command(Command::Ctx), words(&["lab"])), "  ctx lab ");
    assert_eq!(
        r,
        PaletteStep::Chose { line: "ctx lab".to_string(), chosen: Chosen::Run(Command::Ctx, words(&["lab"])) }
    );
    assert_eq!(s.mode, Mode::Detail);
    let mut s = table_shell();
    s.mode = Mode::Command;
    assert_eq!(palette_step(&mut s, Mode::Table, PaletteAction::Cancelled, "x"), PaletteStep::Closed);
    assert_eq!(s.mode, Mode::Table);
}

#[test]
fn the_detail_pane_takes_a_and_ctrl_t_as_the_table_does() {
    assert_eq!(detail_first(Key::Char('a')), Some(DetailStep::Menu));
    assert_eq!(detail_first(Key::Ctrl('t')), Some(DetailStep::Retime));
    assert_eq!(detail_first(Key::Char('j')), None);
    let mut s = table_shell();
    s.mode = Mode::Detail;
    assert_eq!(detail_step(&mut s, DetailAction::Scrolled), DetailStep::Nothing);
    assert_eq!(detail_step(&mut s, DetailAction::Help), DetailStep::Help);
    assert_eq!((s.mode, s.help_from), (Mode::Help, Mode::Detail));
    s.mode = Mode::Detail;
    assert_eq!(detail_step(&mut s, DetailAction::Closed), DetailStep::Closed);
    assert_eq!(s.mode, Mode::Table);
}

#[test]
fn a_greyed_child_says_why_instead_of_opening() {
    let disks = KindRef {
        id: "vmm.ahv.config.Disk".to_string(),
        display: "Disks".to_string(),
        aliases: Vec::new(),
        curated: false,
        reach: Reach::FromParent,
        note: None,
    };
    let mut s = table_shell();
    s.mode = Mode::Picker;
    assert_eq!(picker_step(&mut s, PickerEvent::Chose(disks.clone()), None), PickerStep::Open(disks.clone()));
    assert_eq!(s.mode, Mode::Table);
    let mut s = table_shell();
    s.mode = Mode::Picker;
    let r = picker_step(&mut s, PickerEvent::Chose(disks), Some("not served here".to_string()));
    assert_eq!(r, PickerStep::Greyed("not served here".to_string()));
    assert_eq!(s.status.as_deref(), Some("not served here"));
    let power = ActionRef { name: "power-on".to_string(), title: "Power on".to_string(), key: String::new(), order: 1, danger: Some(0) };
    let mut s = table_shell();
    s.mode = Mode::Picker;
    assert_eq!(picker_step(&mut s, PickerEvent::Run(power.clone()), None), PickerStep::Run(power));
    assert_eq!(picker_step(&mut s, PickerEvent::Moved, None), PickerStep::Nothing);
}

fn notes(n: usize) -> Vec<SettingsRow> {
    (0..n).map(|i: usize| SettingsRow::Note(format!("row {i}"))).collect()
}

#[test]
fn reopening_settings_keeps_the_cursor_and_where_esc_goes() {
    let was = Settings { rows: notes(6), selected: 4 };
    let (screen, from) = reopen_settings(&was, Settings { rows: notes(6), selected: 0 }, Mode::Detail);
    assert_eq!((screen.selected, from), (4, Mode::Detail));
    let (screen, _) = reopen_settings(&was, Settings { rows: notes(3), selected: 0 }, Mode::Table);
    assert_eq!(screen.selected, 2, "held to the last row");
    let (screen, _) = reopen_settings(&was, Settings { rows: vec![], selected: 0 }, Mode::Table);
    assert_eq!(screen.selected, 0);
}
