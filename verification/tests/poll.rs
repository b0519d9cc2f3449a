use nutsh_tui::key::Key;
use nutsh_tui::poll::{apply, cache_snapshot, cache_tables, Applied, Identity, Msg, PollState, SubBody, TableHead};
use nutsh_tui::summary::{Sample, Stats};
use nutsh_tui::table_view::{clamp_panes, clamp_selection, handle_table, move_in_table, record_stop, TableCursor, TableEffect, TableKey};

fn head(kind: &str, polled: bool, rows: usize, filter: Option<&str>) -> TableHead {
    TableHead {
        kind: kind.to_string(),
        parents: vec![],
        polled,
        rows,
        filter: filter.map(str::to_string),
        select: None,
        total: Some(rows as u64),
    }
}

fn state() -> PollState {
    PollState {
        generation: 7,
        live: true,
        dirty: false,
        cache_dirty: false,
        sample_seen: false,
        stats_seen: false,
        names_seen: false,
    }
}

#[test]
fn a_stale_session_s_messages_are_dropped() {
    let mut s = state();
    assert_eq!(apply(&mut s, Msg::Stats { generation: 6 }), Applied::Dropped);
    assert!(!s.stats_seen && !s.dirty);
    assert!(s.cache_dirty, "the counters still mark the cache");
    let mut s = state();
    assert_eq!(apply(&mut s, Msg::Names { generation: 8 }), Applied::Dropped);
    assert_eq!(s, state());
}

#[test]
fn the_current_session_s_messages_land() {
    let mut s = state();
    assert_eq!(apply(&mut s, Msg::Sample { generation: 7 }), Applied::Sample);
    assert!(s.sample_seen && s.dirty && s.cache_dirty);
    let mut s = state();
    assert_eq!(apply(&mut s, Msg::Names { generation: 7 }), Applied::Names);
    assert!(s.names_seen && !s.cache_dirty);
}

#[test]
fn a_popped_view_hears_nothing_but_an_action_s_answer_does() {
    let mut s = state();
    assert_eq!(apply(&mut s, Msg::Sub { live: false, detail: false, body: SubBody::Page }), Applied::Dropped);
    assert!(!s.dirty);
    let mut s = state();
    s.live = false;
    assert_eq!(apply(&mut s, Msg::Acted), Applied::Acted);
    assert_eq!(apply(&mut s, Msg::Done), Applied::Dropped);
}

#[test]
fn the_detail_pane_s_messages_are_its_own() {
    let mut s = state();
    assert_eq!(apply(&mut s, Msg::Sub { live: true, detail: true, body: SubBody::Entity }), Applied::DetailEntity);
    assert!(s.dirty);
    assert_eq!(apply(&mut s, Msg::Sub { live: true, detail: true, body: SubBody::Error }), Applied::DetailError);
    assert_eq!(apply(&mut s, Msg::Sub { live: true, detail: true, body: SubBody::Complete }), Applied::DetailIgnored);
    assert!(s.cache_dirty);
    assert_eq!(apply(&mut s, Msg::Sub { live: true, detail: false, body: SubBody::Page }), Applied::Store);
    assert_eq!(apply(&mut s, Msg::Done), Applied::Reap);
}

#[test]
fn the_cache_keeps_polled_tables_and_page_panes_only() {
    let t = |polled: bool, rows: usize, filter: Option<&str>| head("vmm.ahv.config.Vm", polled, rows, filter);
    let tables = vec![
        t(true, 3, None),
        t(false, 3, None),
        t(true, 0, None),
        t(true, 2, Some("status eq 'CRITICAL'")),
        t(true, 2, Some("name eq 'web'")),
    ];
    let panes = vec!["status eq 'CRITICAL'".to_string()];
    assert_eq!(cache_tables(&tables, &panes), vec![0, 3]);
    assert_eq!(cache_tables(&tables, &vec![]), vec![0]);
}

#[test]
fn table_keys_move_the_cursor_within_the_matching_rows() {
    let mut v = TableCursor { selected: 0, col_offset: 0, stopped: true };
    assert_eq!(move_in_table(&mut v, Key::Char('G'), 5, 2), TableEffect::Nothing);
    assert_eq!(v.selected, 4);
    move_in_table(&mut v, Key::Char('j'), 5, 2);
    assert_eq!(v.selected, 4, "the last row stays the last");
    move_in_table(&mut v, Key::PageUp, 5, 2);
    assert_eq!(v.selected, 0);
    move_in_table(&mut v, Key::PageDown, 50, 2);
    assert_eq!(v.selected, 20);
    move_in_table(&mut v, Key::Char('k'), 50, 2);
    assert_eq!(v.selected, 19);
    move_in_table(&mut v, Key::Char('G'), 0, 2);
    assert_eq!(v.selected, 0, "no rows pins the cursor at zero");
    for _ in 0..5 {
        move_in_table(&mut v, Key::Right, 5, 2);
    }
    assert_eq!(v.col_offset, 2);
    move_in_table(&mut v, Key::Left, 5, 2);
    assert_eq!(v.col_offset, 1);
    assert_eq!(move_in_table(&mut v, Key::Ctrl('r'), 5, 2), TableEffect::Refresh);
    assert!(!v.stopped);
    assert_eq!(move_in_table(&mut v, Key::Ctrl('x'), 5, 2), TableEffect::Stop);
    assert_eq!(move_in_table(&mut v, Key::Ctrl('t'), 5, 2), TableEffect::Retime);
}

#[test]
fn stopping_says_whether_anything_stopped() {
    let mut v = TableCursor { selected: 2, col_offset: 1, stopped: false };
    assert_eq!(record_stop(&mut v, true), "stopped");
    assert_eq!(v, TableCursor { selected: 2, col_offset: 1, stopped: true });
    assert_eq!(record_stop(&mut v, false), "nothing to stop");
    assert!(!v.stopped);
}

#[test]
fn a_table_key_goes_to_the_page_the_term_the_table_or_the_kind() {
    assert_eq!(handle_table(Key::Char('q'), true, true, true), TableKey::Page);
    assert_eq!(handle_table(Key::Char('j'), false, true, false), TableKey::Filter);
    assert_eq!(handle_table(Key::Char('q'), false, false, true), TableKey::Quit, "a kind cannot curate q");
    assert_eq!(handle_table(Key::Char('/'), false, false, false), TableKey::OpenFilter);
    assert_eq!(handle_table(Key::Char('p'), false, false, true), TableKey::Curated);
    assert_eq!(handle_table(Key::Char('p'), false, false, false), TableKey::Move);
    assert_eq!(handle_table(Key::Ctrl('r'), false, false, false), TableKey::Move);
    assert_eq!(handle_table(Key::Char('?'), false, false, false), TableKey::Help);
}

#[test]
fn the_snapshot_stamps_everything_it_keeps_with_now() {
    let mut disks = head("vmm.ahv.config.Disk", true, 2, None);
    disks.parents = vec!["vm-1".to_string()];
    disks.select = Some("extId,name,diskAddress".to_string());
    let tables = vec![head("vmm.ahv.config.Vm", false, 3, None), disks, head("x", true, 1, Some("name eq 'a'"))];
    let stats = Stats { clusters: Some(2), vms: Some(9), ..Default::default() };
    let sample = Sample { sampled: 4, available: true, ..Default::default() };
    let id = Identity { host: "pc.lab".to_string(), port: 9440, username: "admin".to_string() };
    let snap = cache_snapshot(&id, &stats, &sample, &tables, &vec![], 1700);
    assert_eq!(snap.identity, id);
    let st = snap.stats.expect("stats");
    assert_eq!((st.clusters, st.vms, st.hosts, st.at), (Some(2), Some(9), None, 1700));
    let sa = snap.sample.expect("sample");
    assert_eq!((sa.sampled, sa.available, sa.at), (4, true, 1700));
    assert_eq!(snap.tables.len(), 1, "the unpolled table and the search are left out");
    let t = &snap.tables[0];
    assert_eq!(t.table, 1);
    assert_eq!(t.kind, "vmm.ahv.config.Disk");
    assert_eq!(t.parents, vec!["vm-1".to_string()]);
    assert_eq!(t.select.as_deref(), Some("extId,name,diskAddress"));
    assert_eq!((t.total, t.at), (Some(2), 1700));
}

#[test]
fn a_shorter_list_pulls_every_cursor_back_onto_its_rows() {
    let mut v = TableCursor { selected: 9, col_offset: 2, stopped: false };
    clamp_selection(&mut v, 4);
    assert_eq!(v, TableCursor { selected: 3, col_offset: 2, stopped: false });
    clamp_selection(&mut v, 0);
    assert_eq!(v.selected, 0);
    let mut v = TableCursor { selected: 2, col_offset: 0, stopped: false };
    clamp_selection(&mut v, 10);
    assert_eq!(v.selected, 2);
    let mut panes = vec![5, 1, 7];
    clamp_panes(&mut panes, &vec![3, 4, 0]);
    assert_eq!(panes, vec![2, 1, 0]);
}

#[test]
fn the_table_keys_hold_even_at_the_end_of_the_index_range() {
    let mut v = TableCursor { selected: usize::MAX, col_offset: usize::MAX, stopped: false };
    move_in_table(&mut v, Key::Char('j'), 5, 2);
    assert_eq!(v.selected, 4);
    v.selected = usize::MAX;
    move_in_table(&mut v, Key::PageDown, 5, 2);
    assert_eq!(v.selected, 4);
    move_in_table(&mut v, Key::Right, 5, 2);
    assert_eq!(v.col_offset, 2);
}
