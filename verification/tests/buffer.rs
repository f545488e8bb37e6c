use editor_core::buffer::Buffer;
use editor_core::delta::{DeltaElement, InsertDrift};
use editor_core::edit::{EditType, InvalLines};
use editor_core::nav::Position;
use editor_core::selection::{SelRegion, Selection};

fn text(b: &Buffer) -> String {
    String::from_utf8(b.text.clone()).unwrap()
}

#[test]
fn lines_and_offsets() {
    let b = Buffer::new("ab\ncde\n\nf");
    assert_eq!(b.len(), 9);
    assert!(!b.is_empty());
    assert_eq!(b.last_line(), 3);
    assert_eq!(b.line_of_offset(0), 0);
    assert_eq!(b.line_of_offset(2), 0);
    assert_eq!(b.line_of_offset(3), 1);
    assert_eq!(b.line_of_offset(7), 2);
    assert_eq!(b.line_of_offset(8), 3);
    assert_eq!(b.line_of_offset(100), 3);
    assert_eq!(b.offset_of_line(0), 0);
    assert_eq!(b.offset_of_line(1), 3);
    assert_eq!(b.offset_of_line(2), 7);
    assert_eq!(b.offset_of_line(3), 8);
    assert_eq!(b.offset_of_line(4), 9);
    assert_eq!(b.offset_of_line(400), 9);
    assert_eq!(b.next_line_break(0), 2);
    assert_eq!(b.next_line_break(3), 6);
    assert_eq!(b.next_line_break(8), 9);
}

#[test]
fn empty_buffer() {
    let b = Buffer::new("");
    assert!(b.is_empty());
    assert_eq!(b.last_line(), 0);
    assert_eq!(b.offset_of_line(0), 0);
    assert_eq!(b.offset_of_line(1), 0);
    assert_eq!(b.offset_to_line_col(0), (0, 0));
    assert_eq!(b.offset_of_position(&Position { line: 0, character: 0 }), Some(0));
    assert_eq!(b.offset_of_position(&Position { line: 0, character: 1 }), None);
    assert_eq!(b.offset_to_position(0), Some(Position { line: 0, character: 0 }));
    assert_eq!(b.prev_code_boundary(0), 0);
    assert_eq!(b.next_code_boundary(0), 0);
}

#[test]
fn line_and_column() {
    let b = Buffer::new("ab\ncde\n\nf");
    assert_eq!(b.offset_to_line_col(0), (0, 0));
    assert_eq!(b.offset_to_line_col(2), (0, 2));
    assert_eq!(b.offset_to_line_col(5), (1, 2));
    assert_eq!(b.offset_to_line_col(7), (2, 0));
    assert_eq!(b.offset_to_line_col(9), (3, 1));
    assert_eq!(b.offset_of_line_col(1, 0), 3);
    assert_eq!(b.offset_of_line_col(1, 2), 5);
    assert_eq!(b.offset_of_line_col(1, 3), 6);
    // A column behind the end of the line is the end of the line.
    assert_eq!(b.offset_of_line_col(1, 99), 6);
    assert_eq!(b.offset_of_line_col(2, 5), 7);
    assert_eq!(b.offset_of_line_col(9, 0), 9);
}

#[test]
fn line_ends_depend_on_the_caret() {
    let b = Buffer::new("ab\ncde\n\nf");
    assert_eq!(b.line_end_offset(1, true), 6);
    assert_eq!(b.line_end_offset(1, false), 5);
    assert_eq!(b.line_end_col(1, true), 3);
    assert_eq!(b.line_end_col(1, false), 2);
    // An empty line has one place only.
    assert_eq!(b.line_end_col(2, true), 0);
    assert_eq!(b.line_end_col(2, false), 0);
    assert_eq!(b.offset_line_end(4, true), 6);
    assert_eq!(b.offset_line_end(4, false), 5);
    assert_eq!(b.line_content(1), b"cde\n".to_vec());
    assert_eq!(b.line_content(3), b"f".to_vec());
    assert_eq!(b.line_content(7), Vec::<u8>::new());
}

#[test]
fn first_non_blank() {
    let b = Buffer::new("  \tx y\n   \nz");
    assert_eq!(b.first_non_blank_character_on_line(0), 3);
    // A line of blanks only: the end of its content.
    assert_eq!(b.first_non_blank_character_on_line(1), 10);
    assert_eq!(b.first_non_blank_character_on_line(2), 11);
}

#[test]
fn word_boundaries() {
    let b = Buffer::new("let foo_bar = x.y;");
    assert_eq!(b.prev_code_boundary(7), 4);
    assert_eq!(b.next_code_boundary(7), 11);
    assert_eq!(b.select_word(7), (4, 11));
    assert_eq!(b.select_word(4), (4, 11));
    assert_eq!(b.select_word(11), (4, 11));
    // Between two signs there is no word.
    assert_eq!(b.select_word(13), (13, 13));
    assert_eq!(b.select_word(15), (14, 15));
    assert_eq!(b.select_word(16), (16, 17));
    assert_eq!(b.slice(4, 11), b"foo_bar".to_vec());
    assert_eq!(b.slice(16, 99), b"y;".to_vec());
    assert_eq!(b.slice(9, 3), Vec::<u8>::new());
}

#[test]
fn characters_of_several_bytes() {
    // "a" 1 byte, "é" 2 bytes, "€" 3 bytes, "😀" 4 bytes, "b".
    let b = Buffer::new("aé€😀b");
    assert_eq!(b.len(), 11);
    assert_eq!(b.next_grapheme_offset(0, 1, 11), 1);
    assert_eq!(b.next_grapheme_offset(1, 1, 11), 3);
    assert_eq!(b.next_grapheme_offset(3, 1, 11), 6);
    assert_eq!(b.next_grapheme_offset(6, 1, 11), 10);
    assert_eq!(b.next_grapheme_offset(0, 3, 11), 6);
    assert_eq!(b.next_grapheme_offset(0, 9, 11), 11);
    assert_eq!(b.next_grapheme_offset(6, 1, 8), 8);
    assert_eq!(b.prev_char_offset(10, 0), 6);
    assert_eq!(b.prev_char_offset(6, 0), 3);
    assert_eq!(b.prev_char_offset(1, 0), 0);
    assert_eq!(b.prev_char_offset(0, 0), 0);
    assert_eq!(b.prev_grapheme_offset(11, 2, 0), 6);
    assert_eq!(b.prev_grapheme_offset(11, 9, 3), 3);
    // The last place of the line in normal mode is the start of "b".
    assert_eq!(b.line_end_offset(0, false), 10);
}

#[test]
fn protocol_positions_count_utf16() {
    let b = Buffer::new("aé€😀b\nxy");
    let p = |line, character| Position { line, character };
    assert_eq!(b.offset_of_position(&p(0, 0)), Some(0));
    assert_eq!(b.offset_of_position(&p(0, 1)), Some(1));
    assert_eq!(b.offset_of_position(&p(0, 2)), Some(3));
    assert_eq!(b.offset_of_position(&p(0, 3)), Some(6));
    // In the middle of the pair of units that write the emoji.
    assert_eq!(b.offset_of_position(&p(0, 4)), None);
    assert_eq!(b.offset_of_position(&p(0, 5)), Some(10));
    assert_eq!(b.offset_of_position(&p(0, 6)), Some(11));
    // Behind the end of the line.
    assert_eq!(b.offset_of_position(&p(0, 7)), None);
    assert_eq!(b.offset_of_position(&p(1, 0)), Some(12));
    assert_eq!(b.offset_of_position(&p(1, 2)), Some(14));
    assert_eq!(b.offset_of_position(&p(1, 3)), None);
    // A line that the text does not have.
    assert_eq!(b.offset_of_position(&p(2, 0)), None);

    assert_eq!(b.offset_to_position(0), Some(p(0, 0)));
    assert_eq!(b.offset_to_position(3), Some(p(0, 2)));
    assert_eq!(b.offset_to_position(6), Some(p(0, 3)));
    assert_eq!(b.offset_to_position(10), Some(p(0, 5)));
    assert_eq!(b.offset_to_position(12), Some(p(1, 0)));
    assert_eq!(b.offset_to_position(14), Some(p(1, 2)));
    assert_eq!(b.offset_to_position(15), None);
}

#[test]
fn edit_replaces_one_region() {
    let mut b = Buffer::new("hello world");
    let edits = vec![(Selection::region(6, 11), "there".to_string())];
    let (delta, lines) = b.edit(&edits, EditType::Other).unwrap();
    assert_eq!(text(&b), "hello there");
    assert_eq!(b.rev(), 1);
    assert!(!b.is_pristine());
    assert_eq!(delta.base_len, 11);
    assert_eq!(delta.els.len(), 2);
    assert!(matches!(delta.els[0], DeltaElement::Copy(0, 6)));
    assert!(matches!(&delta.els[1], DeltaElement::Insert(s) if s == "there"));
    assert_eq!(delta.new_document_len(), 11);
    assert_eq!(lines, InvalLines { start_line: 0, inval_count: 1, new_count: 1 });
}

#[test]
fn edit_sorts_and_applies_all_at_once() {
    let mut b = Buffer::new("aa\nbb\ncc\n");
    // Given out of order: the later stretch first.
    let edits = vec![
        (Selection::region(6, 8), "X".to_string()),
        (Selection::region(0, 2), "long\nline".to_string()),
    ];
    let (delta, lines) = b.edit(&edits, EditType::Other).unwrap();
    assert_eq!(text(&b), "long\nline\nbb\nX\n");
    assert_eq!(delta.base_len, 9);
    assert_eq!(delta.new_document_len(), 15);
    assert_eq!(delta.transform_offset(3, false), 10);
    assert_eq!(delta.transform_offset(8, true), 14);
    assert_eq!(lines, InvalLines { start_line: 0, inval_count: 3, new_count: 4 });
}

#[test]
fn edit_with_several_regions_of_one_selection() {
    let mut b = Buffer::new("a.b.c");
    let mut selection = Selection::new();
    selection.add_region(SelRegion::new(1, 2, None));
    selection.add_region(SelRegion::new(3, 4, None));
    let (delta, _) = b.edit(&vec![(selection, "::".to_string())], EditType::Other).unwrap();
    assert_eq!(text(&b), "a::b::c");
    assert_eq!(delta.new_document_len(), 7);
}

#[test]
fn edit_deletes_and_inserts() {
    let mut b = Buffer::new("abcdef");
    b.edit(&vec![(Selection::region(2, 4), String::new())], EditType::Delete).unwrap();
    assert_eq!(text(&b), "abef");
    b.edit(&vec![(Selection::caret(4), "!".to_string())], EditType::InsertChars).unwrap();
    assert_eq!(text(&b), "abef!");
    b.edit(&vec![(Selection::caret(0), ">".to_string())], EditType::InsertChars).unwrap();
    assert_eq!(text(&b), ">abef!");
    assert_eq!(b.rev(), 3);
}

#[test]
fn edit_without_regions_changes_nothing_but_the_revision() {
    let mut b = Buffer::new("abc");
    let (delta, lines) = b.edit(&vec![], EditType::Other).unwrap();
    assert_eq!(text(&b), "abc");
    assert_eq!(b.rev(), 1);
    assert_eq!(delta.transform_offset(2, true), 2);
    assert_eq!(lines, InvalLines { start_line: 0, inval_count: 0, new_count: 0 });
}

#[test]
fn edit_is_rejected_as_a_whole() {
    let mut b = Buffer::new("abcdef");
    // Overlapping stretches.
    let overlapping = vec![
        (Selection::region(0, 3), "x".to_string()),
        (Selection::region(2, 5), "y".to_string()),
    ];
    assert!(b.edit(&overlapping, EditType::Other).is_none());
    assert_eq!(text(&b), "abcdef");
    assert_eq!(b.rev(), 0);
    // A stretch behind the end of the text.
    let beyond = vec![(Selection::region(4, 9), "x".to_string())];
    assert!(b.edit(&beyond, EditType::Other).is_none());
    assert_eq!(text(&b), "abcdef");
    assert_eq!(b.rev(), 0);
    assert!(b.is_pristine());
}

#[test]
fn touching_stretches_are_no_overlap() {
    let mut b = Buffer::new("abcdef");
    let edits = vec![
        (Selection::region(3, 5), "Y".to_string()),
        (Selection::region(1, 3), "X".to_string()),
        (Selection::caret(3), "-".to_string()),
    ];
    b.edit(&edits, EditType::Other).unwrap();
    assert_eq!(text(&b), "aX-Yf");
}

#[test]
fn kind_of_the_last_edit_is_kept() {
    let mut b = Buffer::new("abc");
    assert_eq!(b.last_edit_type, EditType::Other);
    b.edit(&vec![(Selection::caret(3), "d".to_string())], EditType::InsertChars).unwrap();
    assert_eq!(b.last_edit_type, EditType::InsertChars);
    // An edit that is rejected leaves the kind as it was.
    assert!(b.edit(&vec![(Selection::region(2, 9), String::new())], EditType::Delete).is_none());
    assert_eq!(b.last_edit_type, EditType::InsertChars);
}

#[test]
fn edits_are_tried_without_being_made() {
    let b = Buffer::new("abcdef");
    assert!(b.accepts(&vec![(Selection::region(0, 3), "x".to_string())]));
    assert!(!b.accepts(&vec![(Selection::region(0, 7), "x".to_string())]));
    assert!(!b.accepts(&vec![
        (Selection::region(0, 3), "x".to_string()),
        (Selection::region(1, 2), "y".to_string()),
    ]));
    assert_eq!(text(&b), "abcdef");
    assert_eq!(b.rev(), 0);
}

#[test]
fn a_selection_makes_up_the_text_after_each_of_many_edits() {
    let mut b = Buffer::new("one two three\nfour five six\n");
    let mut watched = Selection::new();
    watched.add_region(SelRegion::new(0, 3, None));
    watched.add_region(SelRegion::new(8, 13, None));
    watched.add_region(SelRegion::new(20, 20, None));
    let edits: Vec<Vec<(usize, usize, &str)>> = vec![
        vec![(4, 7, "2")],
        vec![(0, 0, ">> "), (6, 6, "!")],
        vec![(2, 12, "")],
        vec![(0, 2, "long text\nwith lines\n")],
        vec![(5, 5, "é€"), (9, 30, "x")],
        vec![],
    ];
    for step in edits {
        let list: Vec<(Selection, String)> =
            step.iter().map(|(s, e, t)| (Selection::region(*s, *e), t.to_string())).collect();
        let (delta, _) = b.edit(&list, EditType::Other).unwrap();
        assert!(delta.is_valid());
        assert_eq!(delta.new_document_len(), b.len());
        watched = watched.apply_delta(&delta, true, InsertDrift::Default);
        assert!(watched.check());
        let mut at = 0;
        let mut total = 0;
        for region in &watched.regions {
            assert!(at <= region.min());
            assert!(region.max() <= b.len());
            total += (region.min() - at) + (region.max() - region.min());
            at = region.max();
        }
        total += b.len() - at;
        assert_eq!(total, b.len());
    }
}
