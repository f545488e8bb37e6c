use editor_core::buffer::Buffer;
use editor_core::nav::Position;
use editor_core::position::{
    EditorLocation, EditorPosition, InitBufferContentCmd, Line, LineCol, PositionKind,
    ScrollOffset,
};

fn buffer() -> Buffer {
    Buffer::new("fn main() {\n    let x = 1;\n}\n")
}

#[test]
fn raw_offset_is_itself() {
    assert_eq!(7usize.to_utf8_offset(&buffer()), Some(7));
    assert_eq!(7000usize.to_utf8_offset(&buffer()), Some(7000));
}

#[test]
fn line_goes_to_first_non_blank() {
    let b = buffer();
    assert_eq!(Line(1).to_utf8_offset(&b), Some(0));
    assert_eq!(Line(2).to_utf8_offset(&b), Some(16));
    assert_eq!(Line(3).to_utf8_offset(&b), Some(27));
    // Line 0 names the first line too.
    assert_eq!(Line(0).to_utf8_offset(&b), Some(0));
    assert_eq!(Line(99).to_utf8_offset(&b), Some(29));
}

#[test]
fn line_col_with_column_0_is_the_very_first_character() {
    let b = buffer();
    assert_eq!(LineCol { line: 1, column: 0 }.to_utf8_offset(&b), Some(12));
    assert_eq!(LineCol { line: 1, column: 4 }.to_utf8_offset(&b), Some(16));
    assert_eq!(LineCol { line: 1, column: 400 }.to_utf8_offset(&b), Some(26));
}

#[test]
fn protocol_position_may_fail() {
    let b = buffer();
    assert_eq!(Position { line: 1, character: 8 }.to_utf8_offset(&b), Some(20));
    assert_eq!(Position { line: 1, character: 15 }.to_utf8_offset(&b), None);
    assert_eq!(Position { line: 9, character: 0 }.to_utf8_offset(&b), None);
}

fn location<P>(position: Option<P>) -> EditorLocation<P> {
    EditorLocation {
        path: "/tmp/a.rs".to_string(),
        position,
        scroll_offset: Some(ScrollOffset { x: 1, y: 2 }),
        history: Some("head".to_string()),
    }
}

#[test]
fn location_is_resolved_against_the_buffer() {
    let b = buffer();
    let l = location(Some(Line(2))).into_utf8_location(&b);
    assert_eq!(l.path, "/tmp/a.rs");
    assert_eq!(l.position, Some(16));
    assert_eq!(l.scroll_offset, Some(ScrollOffset { x: 1, y: 2 }));
    assert_eq!(l.history, Some("head".to_string()));
    let l = location(Some(Position { line: 7, character: 0 })).into_utf8_location(&b);
    assert_eq!(l.position, None);
    let l = location::<LineCol>(None).into_utf8_location(&b);
    assert_eq!(l.position, None);
    let l = location(Some(5usize)).into_utf8_location(&b);
    assert_eq!(l.position, Some(5));
}

#[test]
fn each_way_of_naming_has_its_command() {
    let text = b"abc".to_vec();
    let c = usize::init_buffer_content_cmd("/a".to_string(), text.clone(), vec![(1, location(Some(3usize)))], None);
    assert!(matches!(&c, InitBufferContentCmd::InitBufferContent(i) if i.path == "/a" && i.content == text && i.locations.len() == 1 && i.edits.is_none()));
    let c = Line::init_buffer_content_cmd("/a".to_string(), text.clone(), vec![], Some(b"x".to_vec()));
    assert!(matches!(&c, InitBufferContentCmd::InitBufferContentLine(i) if i.edits == Some(b"x".to_vec())));
    let c = LineCol::init_buffer_content_cmd("/a".to_string(), text.clone(), vec![], None);
    assert!(matches!(c, InitBufferContentCmd::InitBufferContentLineCol(_)));
    let c = Position::init_buffer_content_cmd("/a".to_string(), text.clone(), vec![], None);
    assert!(matches!(c, InitBufferContentCmd::InitBufferContentLsp(_)));
    assert_eq!(c.position_kind(), PositionKind::Lsp);
    let c = Line::init_buffer_content_cmd("/a".to_string(), text.clone(), vec![], None);
    assert_eq!(c.position_kind(), PositionKind::Line);
    let c = LineCol::init_buffer_content_cmd("/a".to_string(), text.clone(), vec![], None);
    assert_eq!(c.position_kind(), PositionKind::LineCol);
    let c = usize::init_buffer_content_cmd("/a".to_string(), text, vec![], None);
    assert_eq!(c.position_kind(), PositionKind::Offset);
}
