use nutsh_tui::mouse::{landed, Hits, Landed, ListHit, Mouse, MouseKind, Rect, TableHit, Target};

fn rect(x: u16, y: u16, width: u16, height: u16) -> Rect {
    Rect { x, y, width, height }
}

fn at(kind: MouseKind, col: u16, row: u16) -> Mouse {
    Mouse { kind, col, row }
}

fn frame() -> Hits {
    Hits {
        sidebar: Some(ListHit { rows: rect(0, 2, 20, 10), offset: 3, len: 30 }),
        tables: vec![
            TableHit {
                pane: None,
                block: rect(20, 1, 60, 20),
                header: rect(21, 2, 58, 1),
                rows: rect(21, 3, 58, 17),
                offset: 10,
                len: 12,
                columns: vec![(21, 10, 0), (32, 8, 3)],
            },
            TableHit {
                pane: Some(1),
                block: rect(20, 1, 60, 20),
                header: rect(21, 2, 58, 1),
                rows: rect(21, 3, 58, 17),
                offset: 0,
                len: 5,
                columns: vec![],
            },
        ],
        modal: Some(ListHit { rows: rect(30, 5, 20, 5), offset: 0, len: 3 }),
        version: Some(rect(60, 0, 10, 1)),
    }
}

#[test]
fn a_modal_owns_the_pointer_while_it_is_up() {
    let h = frame();
    assert_eq!(landed(&h, false, at(MouseKind::Click, 31, 6)), Landed::Modal(1));
    assert_eq!(landed(&h, false, at(MouseKind::Click, 31, 9)), Landed::Nothing, "below the last entry");
    assert_eq!(landed(&h, false, at(MouseKind::Click, 2, 3)), Landed::Nothing, "the menu underneath is inert");
    assert_eq!(landed(&h, false, at(MouseKind::WheelDown, 31, 6)), Landed::ModalWheel(true));
    assert_eq!(landed(&h, false, at(MouseKind::WheelLeft, 31, 6)), Landed::Nothing);
}

#[test]
fn over_the_table_the_version_line_then_the_menu_then_the_first_block() {
    let h = frame();
    assert_eq!(landed(&h, true, at(MouseKind::Click, 62, 0)), Landed::Version);
    assert_eq!(landed(&h, true, at(MouseKind::Click, 2, 4)), Landed::Menu(5));
    assert_eq!(landed(&h, true, at(MouseKind::WheelUp, 2, 4)), Landed::MenuWheel(false));
    assert_eq!(landed(&h, true, at(MouseKind::Click, 40, 4)), Landed::Row { target: Target::Table, row: 11 });
    assert_eq!(landed(&h, true, at(MouseKind::Click, 40, 6)), Landed::Block { target: Target::Table }, "past the last row");
    assert_eq!(landed(&h, true, at(MouseKind::Click, 33, 2)), Landed::Header { target: Target::Table, column: 3 });
    assert_eq!(landed(&h, true, at(MouseKind::Click, 31, 2)), Landed::Block { target: Target::Table }, "a gap between columns");
    assert_eq!(landed(&h, true, at(MouseKind::WheelRight, 40, 4)), Landed::Columns { right: true });
    assert_eq!(landed(&h, true, at(MouseKind::WheelDown, 40, 4)), Landed::Wheel { target: Target::Table, down: true });
    assert_eq!(landed(&h, true, at(MouseKind::Click, 90, 30)), Landed::Nothing);
}

#[test]
fn a_pane_has_no_columns_to_scroll() {
    let mut h = frame();
    h.tables.remove(0);
    assert_eq!(landed(&h, true, at(MouseKind::WheelLeft, 40, 4)), Landed::Nothing);
    assert_eq!(landed(&h, true, at(MouseKind::Click, 40, 4)), Landed::Row { target: Target::Pane(1), row: 1 });
}
