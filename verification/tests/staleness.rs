use editor_core::completion::CompletionData;
use editor_core::cursor::{Cursor, CursorMode};
use editor_core::data::{
    BufferContent, Config, Document, HoverData, LapceEditorData, LapceMainSplitData, PaletteData,
    Register, Size, SourceControlData,
};
use editor_core::editor::LapceEditorBufferData;
use editor_core::error::EditorError;
use editor_core::find::Find;
use editor_core::lsp::{CompletionItem, Range, TextEdit};
use editor_core::nav::{diff_files_usable, error_files_usable, Position};
use editor_core::respond::FormatOutcome;
use editor_core::selection::{SelRegion, Selection};

fn editor(text: &str) -> LapceEditorBufferData {
    let content = BufferContent::File("/tmp/a.rs".to_string());
    let mut editor = LapceEditorData::new(1, 101, content.clone());
    editor.size = Size { width: 800, height: 200 };
    LapceEditorBufferData {
        view_id: 1,
        editor,
        doc: Document::new(10, content, text),
        completion: CompletionData::new(50, 5),
        hover: HoverData::new(60),
        main_split: LapceMainSplitData {
            tab_id: 900,
            active: Some(1),
            editors: vec![],
            open_docs: vec![],
            register: Register { unnamed: vec![] },
            current_save_as: None,
            pending_edits: vec![],
        },
        source_control: SourceControlData { file_diffs: vec![] },
        palette: PaletteData { widget_id: 70 },
        find: Find::new(),
        config: Config { modal: false, line_height: 20, format_on_save: true },
    }
}

fn item(label: &str) -> CompletionItem {
    CompletionItem {
        label: label.to_string(),
        insert_text: None,
        insert_text_format: None,
        text_edit: None,
        additional_text_edits: None,
        has_data: true,
    }
}

fn text(e: &LapceEditorBufferData) -> String {
    String::from_utf8(e.doc.buffer.text.clone()).unwrap()
}

#[test]
fn resolved_item_is_applied_while_it_fits() {
    let mut e = editor("fo");
    e.editor.cursor.mode = CursorMode::Insert(Selection::caret(2));
    assert_eq!(e.resolve_completion(10, 0, 2, &item("foo")), Ok(true));
    assert_eq!(text(&e), "foo");
}

#[test]
fn resolved_item_is_thrown_away_when_stale() {
    let mut e = editor("fo");
    e.editor.cursor.mode = CursorMode::Insert(Selection::caret(2));
    // Another buffer, another revision, another offset.
    assert_eq!(e.resolve_completion(11, 0, 2, &item("foo")), Ok(false));
    assert_eq!(e.resolve_completion(10, 1, 2, &item("foo")), Ok(false));
    assert_eq!(e.resolve_completion(10, 0, 1, &item("foo")), Ok(false));
    assert_eq!(text(&e), "fo");
    assert_eq!(e.doc.rev(), 0);
    // The user typed on: the answer to the earlier state is stale.
    e.receive_char("o");
    assert_eq!(e.resolve_completion(10, 0, 2, &item("foo")), Ok(false));
    assert_eq!(text(&e), "foo");
}

#[test]
fn resolved_item_may_fail_to_apply() {
    let mut e = editor("fo");
    e.editor.cursor.mode = CursorMode::Insert(Selection::caret(2));
    let mut bad = item("foo");
    bad.additional_text_edits = Some(vec![TextEdit {
        range: Range {
            start: Position { line: 4, character: 0 },
            end: Position { line: 4, character: 0 },
        },
        new_text: "x".to_string(),
    }]);
    assert_eq!(e.resolve_completion(10, 0, 2, &bad), Err(EditorError::BadAdditionalEditPosition));
    assert_eq!(text(&e), "fo");
}

#[test]
fn code_actions_are_kept_for_the_revision_they_were_asked_at() {
    let mut e = editor("let foo = 1;");
    e.editor.cursor.mode = CursorMode::Normal(5);
    assert!(!e.update_code_actions(3, 4, vec![]));
    assert!(e.doc.code_actions.is_empty());
    assert!(e.update_code_actions(0, 4, vec![]));
    assert_eq!(e.doc.code_actions.len(), 1);
    assert!(e.current_code_actions().is_some());
    assert!(e.get_code_actions().is_empty());
}

fn edits(text: &str) -> Vec<TextEdit> {
    vec![TextEdit {
        range: Range {
            start: Position { line: 0, character: 0 },
            end: Position { line: 0, character: 1 },
        },
        new_text: text.to_string(),
    }]
}

#[test]
fn format_is_applied_to_the_revision_it_was_asked_at() {
    let mut ms = LapceMainSplitData {
        tab_id: 1,
        active: None,
        editors: vec![],
        open_docs: vec![Document::new(10, BufferContent::File("/tmp/a.rs".to_string()), "abc")],
        register: Register { unnamed: vec![] },
        current_save_as: None,
        pending_edits: vec![],
    };
    let body = |ms: &LapceMainSplitData| String::from_utf8(ms.open_docs[0].buffer.text.clone()).unwrap();
    assert!(ms.document_format("/tmp/a.rs", 0, &FormatOutcome::TimedOut).is_empty());
    assert!(ms.document_format("/tmp/a.rs", 0, &FormatOutcome::Failed).is_empty());
    assert!(ms.document_format("/tmp/a.rs", 7, &FormatOutcome::Formatted(edits("X"))).is_empty());
    assert!(ms.document_format("/tmp/b.rs", 0, &FormatOutcome::Formatted(edits("X"))).is_empty());
    assert_eq!(body(&ms), "abc");
    assert!(ms.document_format("/tmp/a.rs", 0, &FormatOutcome::Formatted(edits("X"))).is_empty());
    assert_eq!(body(&ms), "Xbc");
    assert_eq!(ms.open_docs[0].rev(), 1);
    // The same answer again is stale now.
    assert!(ms.document_format("/tmp/a.rs", 0, &FormatOutcome::Formatted(edits("Y"))).is_empty());
    assert_eq!(body(&ms), "Xbc");
}

#[test]
fn well_formedness_is_checked() {
    let mut e = editor("abc");
    assert!(e.check());
    // Regions out of order.
    e.editor.cursor.mode = CursorMode::Insert(Selection {
        regions: vec![SelRegion::new(5, 7, None), SelRegion::new(0, 2, None)],
        last_inserted: 0,
    });
    assert!(!e.check());
    assert!(!e.editor.check());
    // Regions that overlap.
    e.editor.cursor.mode = CursorMode::Insert(Selection {
        regions: vec![SelRegion::new(0, 4, None), SelRegion::new(3, 7, None)],
        last_inserted: 0,
    });
    assert!(!e.check());
    // An index that names no region.
    e.editor.cursor.mode = CursorMode::Insert(Selection {
        regions: vec![SelRegion::new(0, 4, None)],
        last_inserted: 1,
    });
    assert!(!e.check());
    e.editor.cursor.mode = CursorMode::Insert(Selection {
        regions: vec![SelRegion::new(0, 4, None), SelRegion::new(4, 4, None)],
        last_inserted: 1,
    });
    assert!(e.check());
    e.editor.jumps.current_location = 3;
    assert!(!e.check());
    e.editor.jumps.current_location = 0;
    let mut other = LapceEditorData::new(2, 102, BufferContent::File("/tmp/a.rs".to_string()));
    other.cursor = Cursor::new(
        CursorMode::Insert(Selection { regions: vec![], last_inserted: 2 }),
        None,
        None,
    );
    e.main_split.editors.push(other);
    assert!(!e.check());
    assert!(e.editor.check());
    assert!(!e.main_split.check());
}

#[test]
fn lists_of_places_are_checked() {
    assert!(!diff_files_usable(&[], 0));
    assert!(!diff_files_usable(&[("a".to_string(), vec![])], 0));
    assert!(diff_files_usable(&[("a".to_string(), vec![1])], 0));
    assert!(!diff_files_usable(&[("a".to_string(), vec![1]), ("b".to_string(), vec![])], 0));
    let p = Position { line: 0, character: 0 };
    assert!(!error_files_usable(&[], p));
    assert!(error_files_usable(&[("a".to_string(), vec![p])], p));
    assert!(!error_files_usable(&[("a".to_string(), vec![])], p));
}
