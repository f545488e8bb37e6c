use editor_core::buffer::Buffer;
use editor_core::cursor::{Cursor, CursorMode, Mode, VisualMode};
use editor_core::delta::{Delta, DeltaElement};
use editor_core::movement::Movement;
use editor_core::selection::{SelRegion, Selection};

fn r(start: usize, end: usize) -> SelRegion {
    SelRegion::new(start, end, None)
}

fn insert_cursor(regions: &[(usize, usize)]) -> Cursor {
    let mut s = Selection::new();
    for (a, b) in regions {
        s.add_region(r(*a, *b));
    }
    Cursor::new(CursorMode::Insert(s), None, None)
}

fn regions(c: &Cursor) -> Vec<SelRegion> {
    match &c.mode {
        CursorMode::Insert(s) => s.regions.clone(),
        _ => panic!("not in insert mode"),
    }
}

#[test]
fn offset_and_mode() {
    let c = Cursor::origin();
    assert_eq!(c.offset(), 0);
    assert_eq!(c.get_mode(), Mode::Normal);
    assert!(c.is_normal());
    let c = Cursor::new(CursorMode::Visual { start: 2, end: 7, mode: VisualMode::Normal }, None, None);
    assert_eq!(c.offset(), 7);
    assert_eq!(c.get_mode(), Mode::Visual);
    assert!(c.is_visual());
    let c = insert_cursor(&[(1, 4), (8, 9)]);
    assert_eq!(c.offset(), 9);
    assert_eq!(c.get_mode(), Mode::Insert);
    assert!(c.is_insert());
}

#[test]
fn click_in_normal_mode() {
    let mut c = Cursor::new(CursorMode::Normal(3), None, None);
    c.set_offset(9, false, false);
    assert!(matches!(c.mode, CursorMode::Normal(9)));
    c.set_offset(4, true, false);
    assert!(matches!(c.mode, CursorMode::Visual { start: 9, end: 4, mode: VisualMode::Normal }));
    c.set_offset(6, true, false);
    assert!(matches!(c.mode, CursorMode::Visual { start: 9, end: 6, mode: VisualMode::Normal }));
    c.set_offset(1, false, false);
    assert!(matches!(c.mode, CursorMode::Normal(1)));
}

#[test]
fn click_in_insert_mode() {
    let mut c = insert_cursor(&[(2, 5)]);
    c.set_offset(9, false, false);
    assert_eq!(regions(&c), vec![r(9, 9)]);
    // Shift extends from the start of the first region.
    c.set_offset(4, true, false);
    assert_eq!(regions(&c), vec![r(9, 4)]);
    // Alt adds a caret.
    let mut c = insert_cursor(&[(2, 5)]);
    c.set_offset(9, false, true);
    assert_eq!(regions(&c), vec![r(2, 5), r(9, 9)]);
    // Alt and shift move the end of the region added last.
    c.set_offset(12, true, true);
    assert_eq!(regions(&c), vec![r(2, 5), r(9, 12)]);
    // A caret put into a region merges with it.
    let mut c = insert_cursor(&[(2, 5)]);
    c.set_offset(3, false, true);
    assert_eq!(regions(&c), vec![r(2, 5)]);
}

#[test]
fn select_a_stretch() {
    let mut c = Cursor::new(CursorMode::Normal(0), None, None);
    c.add_region(4, 9, false, false);
    assert!(matches!(c.mode, CursorMode::Visual { start: 4, end: 8, mode: VisualMode::Normal }));
    c.add_region(12, 15, true, false);
    assert!(matches!(c.mode, CursorMode::Visual { start: 4, end: 14, mode: VisualMode::Normal }));
    c.add_region(1, 2, false, false);
    assert!(matches!(c.mode, CursorMode::Visual { start: 1, end: 1, mode: VisualMode::Normal }));
    c.add_region(0, 0, false, false);
    assert!(matches!(c.mode, CursorMode::Visual { start: 0, end: 0, mode: VisualMode::Normal }));

    let mut c = insert_cursor(&[(2, 5)]);
    c.add_region(10, 14, false, false);
    assert_eq!(regions(&c), vec![r(10, 14)]);
    c.add_region(20, 22, false, true);
    assert_eq!(regions(&c), vec![r(10, 14), r(20, 22)]);
    c.add_region(24, 26, true, true);
    assert_eq!(regions(&c), vec![r(10, 14), r(20, 26)]);
    c.add_region(0, 3, true, false);
    assert_eq!(regions(&c), vec![r(0, 14)]);
}

#[test]
fn cursor_follows_a_change() {
    let d = Delta {
        els: vec![
            DeltaElement::Copy(0, 5),
            DeltaElement::Insert("abc".to_string()),
            DeltaElement::Copy(5, 10),
        ],
        base_len: 10,
    };
    let mut c = Cursor::new(CursorMode::Normal(5), Some(3), None);
    c.apply_delta(&d);
    assert!(matches!(c.mode, CursorMode::Normal(8)));
    assert_eq!(c.horiz, None);
    let mut c = Cursor::new(CursorMode::Visual { start: 5, end: 5, mode: VisualMode::Linewise }, None, None);
    c.apply_delta(&d);
    assert!(matches!(c.mode, CursorMode::Visual { start: 5, end: 8, mode: VisualMode::Linewise }));
    let mut c = insert_cursor(&[(2, 5), (7, 9)]);
    c.apply_delta(&d);
    assert_eq!(regions(&c), vec![r(2, 8), r(10, 12)]);
}

#[test]
fn update_selection_by_mode() {
    let b = Buffer::new("abc\ndef");
    let mut c = insert_cursor(&[(0, 0)]);
    c.update_selection(&b, Selection::region(2, 5));
    assert_eq!(regions(&c), vec![r(2, 5)]);
    // In normal mode the cursor stays on a character of its line.
    let mut c = Cursor::new(CursorMode::Normal(0), None, None);
    c.update_selection(&b, Selection::caret(3));
    assert!(matches!(c.mode, CursorMode::Normal(2)));
    c.update_selection(&b, Selection::caret(5));
    assert!(matches!(c.mode, CursorMode::Normal(5)));
}

#[test]
fn movements_in_normal_mode() {
    let b = Buffer::new("abc\nde\n\nfghij");
    let go = |from: usize, m: Movement, count: usize| {
        let mut c = Cursor::new(CursorMode::Normal(from), None, None);
        c.move_by(&b, &m, count, false);
        c.offset()
    };
    assert_eq!(go(1, Movement::Right, 1), 2);
    // The caret of normal mode does not leave the last character.
    assert_eq!(go(1, Movement::Right, 5), 2);
    assert_eq!(go(2, Movement::Left, 1), 1);
    assert_eq!(go(5, Movement::Left, 9), 4);
    assert_eq!(go(1, Movement::Down, 1), 5);
    assert_eq!(go(2, Movement::Down, 1), 5);
    assert_eq!(go(2, Movement::Down, 2), 7);
    assert_eq!(go(2, Movement::Down, 3), 10);
    assert_eq!(go(2, Movement::Down, 99), 10);
    assert_eq!(go(12, Movement::Up, 1), 7);
    assert_eq!(go(12, Movement::Up, 3), 2);
    assert_eq!(go(12, Movement::Up, 99), 2);
    assert_eq!(go(5, Movement::StartOfLine, 1), 4);
    assert_eq!(go(4, Movement::EndOfLine, 1), 5);
    assert_eq!(go(9, Movement::DocumentStart, 1), 0);
    assert_eq!(go(0, Movement::DocumentEnd, 1), 12);
    assert_eq!(go(0, Movement::Offset(6), 1), 6);
    assert_eq!(go(0, Movement::Offset(600), 1), 13);
    assert_eq!(go(0, Movement::Line(2), 1), 4);
    assert_eq!(go(0, Movement::Line(0), 1), 0);
    assert_eq!(go(0, Movement::Line(99), 1), 8);
}

#[test]
fn vertical_movement_keeps_the_column() {
    let b = Buffer::new("abcdef\nab\nabcdef");
    let mut c = Cursor::new(CursorMode::Normal(4), None, None);
    c.move_by(&b, &Movement::Down, 1, false);
    assert_eq!(c.offset(), 8);
    assert_eq!(c.horiz, Some(4));
    c.move_by(&b, &Movement::Down, 1, false);
    assert_eq!(c.offset(), 14);
    c.move_by(&b, &Movement::Left, 1, false);
    assert_eq!(c.offset(), 13);
    assert_eq!(c.horiz, None);
}

#[test]
fn movements_in_insert_mode() {
    let b = Buffer::new("abc\nde");
    let mut c = insert_cursor(&[(1, 1), (5, 5)]);
    c.move_by(&b, &Movement::Right, 1, false);
    assert_eq!(regions(&c), vec![r(2, 2), r(6, 6)]);
    // In insert mode the caret passes the end of the line.
    c.move_by(&b, &Movement::Right, 2, false);
    assert_eq!(regions(&c), vec![r(4, 4), r(6, 6)]);
    // With shift the regions grow.
    let mut c = insert_cursor(&[(1, 1)]);
    c.move_by(&b, &Movement::EndOfLine, 1, true);
    assert_eq!(regions(&c), vec![r(1, 3)]);
    // Carets that a movement brings together merge.
    let mut c = insert_cursor(&[(0, 0), (2, 2)]);
    c.move_by(&b, &Movement::StartOfLine, 1, false);
    assert_eq!(regions(&c), vec![r(0, 0)]);
}

#[test]
fn shift_in_normal_mode_starts_a_visual_span() {
    let b = Buffer::new("abcdef");
    let mut c = Cursor::new(CursorMode::Normal(1), None, None);
    c.move_by(&b, &Movement::Right, 2, true);
    assert!(matches!(c.mode, CursorMode::Visual { start: 1, end: 3, mode: VisualMode::Normal }));
    c.move_by(&b, &Movement::Right, 1, false);
    assert!(matches!(c.mode, CursorMode::Visual { start: 1, end: 4, mode: VisualMode::Normal }));
}

#[test]
fn jumps_are_told_apart() {
    assert!(Movement::Offset(3).is_jump());
    assert!(Movement::Line(3).is_jump());
    assert!(Movement::DocumentStart.is_jump());
    assert!(Movement::DocumentEnd.is_jump());
    assert!(!Movement::Left.is_jump());
    assert!(!Movement::Down.is_jump());
    assert!(Movement::Offset(3).same(&Movement::Offset(3)));
    assert!(!Movement::Offset(3).same(&Movement::Offset(4)));
    assert!(!Movement::Offset(3).same(&Movement::Line(3)));
}

#[test]
fn word_movements() {
    let b = Buffer::new("let foo_bar = x.y;\nnext");
    let go = |from: usize, m: Movement, count: usize| {
        let mut c = Cursor::new(CursorMode::Normal(from), None, None);
        c.move_by(&b, &m, count, false);
        c.offset()
    };
    assert_eq!(go(0, Movement::WordForward, 1), 4);
    assert_eq!(go(5, Movement::WordForward, 1), 14);
    assert_eq!(go(0, Movement::WordForward, 3), 16);
    assert_eq!(go(16, Movement::WordForward, 1), 19);
    // Behind the last word: the end of the text.
    assert_eq!(go(20, Movement::WordForward, 1), 23);
    assert_eq!(go(0, Movement::WordForward, 99), 23);
    assert_eq!(go(23, Movement::WordBackward, 1), 19);
    assert_eq!(go(19, Movement::WordBackward, 1), 16);
    assert_eq!(go(7, Movement::WordBackward, 1), 4);
    assert_eq!(go(4, Movement::WordBackward, 1), 0);
    assert_eq!(go(14, Movement::WordBackward, 2), 0);
    assert_eq!(go(3, Movement::WordBackward, 9), 0);
    assert!(!Movement::WordForward.is_jump());
    assert!(Movement::WordForward.same(&Movement::WordForward));
    assert!(!Movement::WordForward.same(&Movement::WordBackward));
}
