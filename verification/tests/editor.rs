use editor_core::command::{
    CommandExecuted, CommandKind, EditCommand, EditorAction, FocusCommand, LapceCommand, LogLevel,
    LogMessage, Modifiers, MotionModeCommand, MoveCommand, MultiSelectionCommand, ProxyRequest,
    Rect, SplitCommand, SplitDirection, Target, UiCommand, WorkbenchCommand,
};
use editor_core::completion::{CompletionData, CompletionStatus};
use editor_core::cursor::{CursorMode, Mode, MotionMode, VisualMode};
use editor_core::data::{
    BufferContent, Config, DiffLines, Document, DocumentHistory, EditorDiagnostic, EditorView,
    HoverData, HoverStatus, InlineFindDirection, LapceEditorData, LapceMainSplitData, LineRange,
    LocalBufferKind, PaletteData, Register, Size, SourceControlData,
};
use editor_core::edit::EditType;
use editor_core::editor::LapceEditorBufferData;
use editor_core::error::EditorError;
use editor_core::find::Find;
use editor_core::lsp::{
    CodeAction, CodeActionOrCommand, Command, CompletionItem, CompletionTextEdit, Diagnostic,
    DiagnosticSeverity, InsertTextFormat, Range, TextEdit, WorkspaceEdit,
};
use editor_core::movement::Movement;
use editor_core::nav::Position;
use editor_core::position::ScrollOffset;
use editor_core::selection::{SelRegion, Selection};

fn r(start: usize, end: usize) -> SelRegion {
    SelRegion::new(start, end, None)
}

fn mods() -> Modifiers {
    Modifiers::empty()
}

fn view(view_id: u64, path: &str) -> LapceEditorData {
    let mut e = LapceEditorData::new(view_id, view_id + 100, BufferContent::File(path.to_string()));
    e.size = Size { width: 800, height: 200 };
    e
}

fn editor_on(content: BufferContent, text: &str) -> LapceEditorBufferData {
    let mut editor = LapceEditorData::new(1, 101, content.clone());
    editor.size = Size { width: 800, height: 200 };
    LapceEditorBufferData {
        view_id: 1,
        editor,
        doc: Document::new(10, content, text),
        completion: CompletionData::new(50, 5),
        hover: HoverData::new(60),
        main_split: LapceMainSplitData {
            tab_id: 900,
            active: Some(1),
            editors: vec![],
            open_docs: vec![],
            register: Register { unnamed: vec![] },
            current_save_as: None,
            pending_edits: vec![],
        },
        source_control: SourceControlData { file_diffs: vec![] },
        palette: PaletteData { widget_id: 70 },
        find: Find::new(),
        config: Config { modal: false, line_height: 20, format_on_save: true },
    }
}

fn editor(text: &str) -> LapceEditorBufferData {
    editor_on(BufferContent::File("/tmp/a.rs".to_string()), text)
}

fn insert_at(e: &mut LapceEditorBufferData, offset: usize) {
    e.editor.cursor.mode = CursorMode::Insert(Selection::caret(offset));
}

fn text(e: &LapceEditorBufferData) -> String {
    String::from_utf8(e.doc.buffer.text.clone()).unwrap()
}

fn regions(e: &LapceEditorBufferData) -> Vec<SelRegion> {
    match &e.editor.cursor.mode {
        CursorMode::Insert(s) => s.regions.clone(),
        _ => panic!("not in insert mode"),
    }
}

fn item(label: &str) -> CompletionItem {
    CompletionItem {
        label: label.to_string(),
        insert_text: None,
        insert_text_format: None,
        text_edit: None,
        additional_text_edits: None,
        has_data: false,
    }
}

fn range(line: u32, from: u32, to: u32) -> Range {
    Range { start: Position { line, character: from }, end: Position { line, character: to } }
}

fn text_edit(line: u32, from: u32, to: u32, text: &str) -> TextEdit {
    TextEdit { range: range(line, from, to), new_text: text.to_string() }
}

// ---------------------------------------------------------------- completion items

#[test]
fn plain_item_replaces_the_word_at_the_cursor() {
    let mut e = editor("let x = fo;");
    insert_at(&mut e, 10);
    assert!(e.apply_completion_item(&item("foobar")).is_ok());
    assert_eq!(text(&e), "let x = foobar;");
    assert_eq!(regions(&e), vec![r(14, 14)]);
    assert_eq!(e.doc.rev(), 1);
}

#[test]
fn insert_text_comes_before_the_label() {
    let mut e = editor("fo");
    insert_at(&mut e, 1);
    let mut it = item("shown");
    it.insert_text = Some("inserted".to_string());
    assert!(e.apply_completion_item(&it).is_ok());
    assert_eq!(text(&e), "inserted");
    assert_eq!(regions(&e), vec![r(8, 8)]);
}

#[test]
fn edit_of_the_item_widens_the_word() {
    let mut e = editor("a.fo + 1");
    insert_at(&mut e, 4);
    let mut it = item("a.foo()");
    // The edit replaces from the start of the line.
    it.text_edit = Some(CompletionTextEdit::Edit(text_edit(0, 0, 4, "a.foo()")));
    assert!(e.apply_completion_item(&it).is_ok());
    assert_eq!(text(&e), "a.foo() + 1");
    assert_eq!(regions(&e), vec![r(7, 7)]);
}

#[test]
fn additional_edits_are_made_with_the_item() {
    let mut e = editor("\nfn f() { Ha }");
    insert_at(&mut e, 12);
    let mut it = item("HashMap");
    it.additional_text_edits = Some(vec![text_edit(0, 0, 0, "use std::collections::HashMap;")]);
    assert!(e.apply_completion_item(&it).is_ok());
    assert_eq!(text(&e), "use std::collections::HashMap;\nfn f() { HashMap }");
    assert_eq!(regions(&e), vec![r(47, 47)]);
}

#[test]
fn snippet_selects_its_first_tab_stop() {
    let mut e = editor("x = fo");
    insert_at(&mut e, 6);
    let mut it = item("foo");
    it.insert_text_format = Some(InsertTextFormat::Snippet);
    it.text_edit = Some(CompletionTextEdit::Edit(text_edit(0, 4, 6, "foo(${1:a}, ${2:b})")));
    assert!(e.apply_completion_item(&it).is_ok());
    assert_eq!(text(&e), "x = foo(a, b)");
    // The first tab stop spans exactly `a`.
    assert_eq!(regions(&e), vec![r(8, 9)]);
    assert_eq!(e.editor.snippet, Some(vec![(1, (8, 9)), (2, (11, 12))]));
    assert!(e.check_condition("in_snippet"));

    // The next tab stop spans `b`; the tab stops stay.
    let (executed, _) = e.run_focus_command(&FocusCommand::JumpToNextSnippetPlaceholder, None, mods());
    assert_eq!(executed, CommandExecuted::Yes);
    assert_eq!(regions(&e), vec![r(11, 12)]);
    assert_eq!(e.editor.snippet, Some(vec![(1, (8, 9)), (2, (11, 12))]));
    assert!(e.check_condition("in_snippet"));

    // A further step finds no tab stop: the cursor stays, the snippet is done.
    let (executed, _) = e.run_focus_command(&FocusCommand::JumpToNextSnippetPlaceholder, None, mods());
    assert_eq!(executed, CommandExecuted::Yes);
    assert_eq!(regions(&e), vec![r(11, 12)]);
    assert_eq!(e.editor.snippet, None);
    assert!(!e.check_condition("in_snippet"));
}

#[test]
fn three_tab_stops_and_back() {
    let mut e = editor("");
    insert_at(&mut e, 0);
    let mut it = item("f");
    it.insert_text_format = Some(InsertTextFormat::Snippet);
    it.text_edit = Some(CompletionTextEdit::Edit(text_edit(0, 0, 0, "f(${1:a}, ${2:b}, ${3:c})")));
    assert!(e.apply_completion_item(&it).is_ok());
    assert_eq!(text(&e), "f(a, b, c)");
    assert_eq!(regions(&e), vec![r(2, 3)]);
    e.run_focus_command(&FocusCommand::JumpToNextSnippetPlaceholder, None, mods());
    assert_eq!(regions(&e), vec![r(5, 6)]);
    assert!(e.editor.snippet.is_some());
    e.run_focus_command(&FocusCommand::JumpToPrevSnippetPlaceholder, None, mods());
    assert_eq!(regions(&e), vec![r(2, 3)]);
    // In the first tab stop there is no step back.
    e.run_focus_command(&FocusCommand::JumpToPrevSnippetPlaceholder, None, mods());
    assert_eq!(regions(&e), vec![r(2, 3)]);
    e.run_focus_command(&FocusCommand::JumpToNextSnippetPlaceholder, None, mods());
    e.run_focus_command(&FocusCommand::JumpToNextSnippetPlaceholder, None, mods());
    assert_eq!(regions(&e), vec![r(8, 9)]);
    assert_eq!(e.editor.snippet, Some(vec![(1, (2, 3)), (2, (5, 6)), (3, (8, 9))]));
    // A step back from the last tab stop is still possible.
    e.run_focus_command(&FocusCommand::JumpToPrevSnippetPlaceholder, None, mods());
    assert_eq!(regions(&e), vec![r(5, 6)]);
    e.run_focus_command(&FocusCommand::JumpToNextSnippetPlaceholder, None, mods());
    assert_eq!(regions(&e), vec![r(8, 9)]);
    // The step past the last tab stop ends the snippet.
    e.run_focus_command(&FocusCommand::JumpToNextSnippetPlaceholder, None, mods());
    assert_eq!(regions(&e), vec![r(8, 9)]);
    assert_eq!(e.editor.snippet, None);
}

#[test]
fn tab_stops_follow_typing() {
    let mut e = editor("");
    insert_at(&mut e, 0);
    let mut it = item("f");
    it.insert_text_format = Some(InsertTextFormat::Snippet);
    it.text_edit = Some(CompletionTextEdit::Edit(text_edit(0, 0, 0, "f(${1:a}, ${2:b}, ${3:c})")));
    e.apply_completion_item(&it).unwrap();
    // Typing over the first tab stop.
    e.receive_char("xyz");
    assert_eq!(text(&e), "f(xyz, b, c)");
    assert_eq!(e.editor.snippet, Some(vec![(1, (2, 5)), (2, (7, 8)), (3, (10, 11))]));
    e.run_focus_command(&FocusCommand::JumpToNextSnippetPlaceholder, None, mods());
    assert_eq!(regions(&e), vec![r(7, 8)]);
}

#[test]
fn snippet_without_tab_stops_is_plain_text() {
    let mut e = editor("fo");
    insert_at(&mut e, 2);
    let mut it = item("f");
    it.insert_text_format = Some(InsertTextFormat::Snippet);
    it.text_edit = Some(CompletionTextEdit::Edit(text_edit(0, 0, 2, "done\\$")));
    assert!(e.apply_completion_item(&it).is_ok());
    assert_eq!(text(&e), "done$");
    assert_eq!(regions(&e), vec![r(5, 5)]);
    assert_eq!(e.editor.snippet, None);
}

#[test]
fn snippet_with_one_tab_stop_keeps_none() {
    let mut e = editor("");
    insert_at(&mut e, 0);
    let mut it = item("f");
    it.insert_text_format = Some(InsertTextFormat::Snippet);
    it.text_edit = Some(CompletionTextEdit::Edit(text_edit(0, 0, 0, "f(${1:a})")));
    e.apply_completion_item(&it).unwrap();
    assert_eq!(regions(&e), vec![r(2, 3)]);
    assert_eq!(e.editor.snippet, None);
}

#[test]
fn leaving_the_tab_stops_gives_the_snippet_up() {
    let mut e = editor("\n");
    insert_at(&mut e, 0);
    let mut it = item("f");
    it.insert_text_format = Some(InsertTextFormat::Snippet);
    it.text_edit = Some(CompletionTextEdit::Edit(text_edit(0, 0, 0, "f(${1:a}, ${2:b})")));
    e.apply_completion_item(&it).unwrap();
    assert!(e.editor.snippet.is_some());
    assert_eq!(regions(&e), vec![r(2, 3)]);
    e.run_move_command(&Movement::Left, Some(1), mods());
    // Still in the first tab stop.
    assert_eq!(regions(&e), vec![r(2, 2)]);
    assert!(e.editor.snippet.is_some());
    e.run_move_command(&Movement::DocumentEnd, None, mods());
    assert_eq!(e.editor.snippet, None);
}

#[test]
fn bad_positions_apply_nothing() {
    let mut e = editor("fo");
    insert_at(&mut e, 2);
    let mut it = item("foo");
    it.additional_text_edits = Some(vec![text_edit(5, 0, 0, "x")]);
    assert_eq!(e.apply_completion_item(&it), Err(EditorError::BadAdditionalEditPosition));
    let mut it = item("foo");
    it.text_edit = Some(CompletionTextEdit::Edit(text_edit(3, 0, 0, "foo")));
    assert_eq!(e.apply_completion_item(&it), Err(EditorError::BadEditStartPosition));
    let mut it = item("foo");
    it.text_edit = Some(CompletionTextEdit::Edit(TextEdit {
        range: Range {
            start: Position { line: 0, character: 0 },
            end: Position { line: 0, character: 9 },
        },
        new_text: "foo".to_string(),
    }));
    assert_eq!(e.apply_completion_item(&it), Err(EditorError::BadEditEndPosition));
    // An additional edit that overlaps the word.
    let mut it = item("foo");
    it.additional_text_edits = Some(vec![text_edit(0, 1, 2, "x")]);
    assert_eq!(e.apply_completion_item(&it), Err(EditorError::EditRejected));
    assert_eq!(text(&e), "fo");
    assert_eq!(e.doc.rev(), 0);
    assert_eq!(regions(&e), vec![r(2, 2)]);
}

#[test]
fn error_messages() {
    assert_eq!(EditorError::BadAdditionalEditPosition.message(), "Bad additional edit position");
    assert_eq!(EditorError::BadEditStartPosition.message(), "bad edit start position");
    assert_eq!(EditorError::BadEditEndPosition.message(), "bad edit end position");
    assert_eq!(EditorError::EditRejected.message(), "edit rejected");
    assert_eq!(EditorError::RequestFailed.message(), "request failed");
}

#[test]
fn unknown_format_falls_back_to_the_label() {
    let mut e = editor("fo");
    insert_at(&mut e, 2);
    let mut it = item("label");
    it.insert_text_format = Some(InsertTextFormat::Other);
    it.text_edit = Some(CompletionTextEdit::Edit(text_edit(0, 0, 2, "ignored")));
    assert!(e.apply_completion_item(&it).is_ok());
    assert_eq!(text(&e), "label");
}

// ---------------------------------------------------------------- other views

#[test]
fn other_views_of_the_document_follow_an_edit() {
    let mut e = editor("0123456789");
    insert_at(&mut e, 5);
    let mut same = view(2, "/tmp/a.rs");
    same.cursor.mode = CursorMode::Normal(7);
    let mut same_before = view(3, "/tmp/a.rs");
    same_before.cursor.mode = CursorMode::Insert(Selection::region(1, 3));
    let mut other = view(4, "/tmp/b.rs");
    other.cursor.mode = CursorMode::Normal(7);
    // The view itself, as the window lists it, is not touched here.
    let mut own = view(1, "/tmp/a.rs");
    own.cursor.mode = CursorMode::Normal(7);
    e.main_split.editors = vec![same, same_before, other, own];
    e.receive_char("abc");
    assert_eq!(text(&e), "01234abc56789");
    assert_eq!(regions(&e), vec![r(8, 8)]);
    assert!(matches!(e.main_split.editors[0].cursor.mode, CursorMode::Normal(10)));
    match &e.main_split.editors[1].cursor.mode {
        CursorMode::Insert(s) => assert_eq!(s.regions, vec![r(1, 3)]),
        _ => panic!("mode changed"),
    }
    assert!(matches!(e.main_split.editors[2].cursor.mode, CursorMode::Normal(7)));
    assert!(matches!(e.main_split.editors[3].cursor.mode, CursorMode::Normal(7)));
}

// ---------------------------------------------------------------- completion requests

fn requests(actions: &Vec<EditorAction>) -> Vec<(usize, Vec<u8>, Position)> {
    actions
        .iter()
        .map(|a| match a {
            EditorAction::Request(ProxyRequest::GetCompletion(r)) => {
                (r.request_id, r.input.clone(), r.position)
            }
            other => panic!("unexpected action {:?}", other),
        })
        .collect()
}

#[test]
fn typing_asks_for_completions() {
    let mut e = editor("let x = ;");
    insert_at(&mut e, 8);
    let actions = e.receive_char("f");
    assert_eq!(text(&e), "let x = f;");
    assert_eq!(e.completion.status, CompletionStatus::Started);
    assert_eq!(e.completion.offset, 8);
    assert_eq!(e.completion.buffer_id, 10);
    assert_eq!(
        requests(&actions),
        vec![
            (1, vec![], Position { line: 0, character: 8 }),
            (1, b"f".to_vec(), Position { line: 0, character: 9 }),
        ]
    );
    // The answers arrive; the next letter asks for its input only.
    e.completion.receive(1, vec![], vec![item("foo")]);
    e.completion.receive(1, b"f".to_vec(), vec![item("foo")]);
    let actions = e.receive_char("o");
    assert_eq!(requests(&actions), vec![(1, b"fo".to_vec(), Position { line: 0, character: 10 })]);
    assert!(e.check_condition("completion_focus"));
    assert!(e.check_condition("list_focus"));
    assert!(e.check_condition("modal_focus"));
}

#[test]
fn white_space_asks_for_nothing() {
    let mut e = editor("ab");
    insert_at(&mut e, 2);
    let actions = e.receive_char(" ");
    assert!(actions.is_empty());
    assert_eq!(text(&e), "ab ");
    assert_eq!(e.completion.status, CompletionStatus::Inactive);
}

#[test]
fn trigger_characters_ask_with_nothing_typed() {
    let mut e = editor("ab");
    insert_at(&mut e, 2);
    let actions = e.receive_char(".");
    assert_eq!(requests(&actions), vec![(1, vec![], Position { line: 0, character: 3 })]);
    let mut e = editor("ab");
    insert_at(&mut e, 2);
    let actions = e.receive_char(";");
    assert!(actions.is_empty());
    assert_eq!(e.completion.status, CompletionStatus::Inactive);
}

#[test]
fn completion_on_request_shows_for_empty_input() {
    let mut e = editor("a + ");
    insert_at(&mut e, 4);
    let (executed, actions) = e.run_focus_command(&FocusCommand::GetCompletion, None, mods());
    assert_eq!(executed, CommandExecuted::Yes);
    assert_eq!(requests(&actions), vec![(1, vec![], Position { line: 0, character: 4 })]);
    // Asked again before the answer came: the session goes on and asks
    // once more, and only once, though the input typed is the empty one.
    let (_, actions) = e.run_focus_command(&FocusCommand::GetCompletion, None, mods());
    assert_eq!(requests(&actions), vec![(1, vec![], Position { line: 0, character: 4 })]);
}

#[test]
fn completion_outside_insert_mode_ends() {
    let mut e = editor("abc");
    insert_at(&mut e, 3);
    e.receive_char("d");
    assert_eq!(e.completion.status, CompletionStatus::Started);
    e.editor.cursor.mode = CursorMode::Normal(2);
    let actions = e.update_completion(true);
    assert!(actions.is_empty());
    assert_eq!(e.completion.status, CompletionStatus::Inactive);
}

#[test]
fn completion_needs_a_loaded_file() {
    let mut e = editor_on(BufferContent::Scratch(1, "untitled".to_string()), "ab");
    insert_at(&mut e, 2);
    assert!(e.update_completion(true).is_empty());
    assert_eq!(e.completion.status, CompletionStatus::Inactive);
    let mut e = editor("ab");
    insert_at(&mut e, 2);
    e.doc.loaded = false;
    assert!(e.update_completion(true).is_empty());
}

#[test]
fn moving_ends_completion_and_hover() {
    let mut e = editor("abc def");
    insert_at(&mut e, 3);
    e.receive_char("x");
    e.update_hover(1);
    assert_eq!(e.hover.status, HoverStatus::Started);
    assert_eq!(e.run_move_command(&Movement::Left, None, mods()), CommandExecuted::Yes);
    assert_eq!(e.completion.status, CompletionStatus::Inactive);
    assert_eq!(e.hover.status, HoverStatus::Inactive);
    assert_eq!(regions(&e), vec![r(3, 3)]);
}

#[test]
fn list_select_applies_or_resolves() {
    let mut e = editor("fo");
    insert_at(&mut e, 2);
    e.update_completion(true);
    e.completion.receive(1, b"fo".to_vec(), vec![item("foo"), item("fob")]);
    e.run_focus_command(&FocusCommand::ListNext, None, mods());
    let (_, actions) = e.run_focus_command(&FocusCommand::ListSelect, None, mods());
    assert!(actions.is_empty());
    assert_eq!(text(&e), "fob");
    assert_eq!(e.completion.status, CompletionStatus::Inactive);

    let mut e = editor("fo");
    insert_at(&mut e, 2);
    e.update_completion(true);
    let mut lazy = item("foo");
    lazy.has_data = true;
    e.completion.receive(1, b"fo".to_vec(), vec![lazy]);
    let (_, actions) = e.run_focus_command(&FocusCommand::ListSelect, None, mods());
    assert_eq!(text(&e), "fo");
    assert_eq!(actions.len(), 1);
    assert!(matches!(
        &actions[0],
        EditorAction::Request(ProxyRequest::CompletionResolve { buffer_id: 10, rev: 0, offset: 2, view_id: 1, item })
            if item.label == "foo" && item.has_data
    ));

    // Without items the completion just ends.
    let mut e = editor("fo");
    insert_at(&mut e, 2);
    e.update_completion(true);
    let (_, actions) = e.run_focus_command(&FocusCommand::ListSelect, None, mods());
    assert!(actions.is_empty());
    assert_eq!(text(&e), "fo");
    assert_eq!(e.completion.status, CompletionStatus::Inactive);
}

// ---------------------------------------------------------------- hover

#[test]
fn hover_is_asked_for_once_per_word() {
    let mut e = editor("let foo = 1;");
    let actions = e.update_hover(5);
    assert_eq!(actions.len(), 1);
    assert!(matches!(
        &actions[0],
        EditorAction::Request(ProxyRequest::GetHover(h))
            if h.request_id == 1 && h.buffer_id == 10 && h.hover_id == 60
                && h.position == Position { line: 0, character: 4 }
    ));
    assert_eq!(e.hover.status, HoverStatus::Started);
    assert_eq!(e.hover.offset, 4);
    assert_eq!(e.hover.editor_view_id, 1);
    // The same word again.
    assert!(e.update_hover(6).is_empty());
    assert_eq!(e.hover.request_id, 1);
    // No word under the pointer.
    assert!(e.update_hover(8).is_empty());
    assert_eq!(e.hover.request_id, 1);
    // Another word.
    assert_eq!(e.update_hover(1).len(), 1);
    assert_eq!(e.hover.request_id, 2);
    assert_eq!(e.hover.offset, 0);
}

#[test]
fn hover_stays_over_its_word() {
    let mut e = editor("let foo = 1;");
    assert!(!e.check_hover(5, true, true));
    e.update_hover(5);
    assert!(e.hover.receive(1, vec!["docs".to_string()]));
    assert!(e.check_condition("hover_focus"));
    assert!(e.check_hover(6, true, true));
    assert_eq!(e.hover.status, HoverStatus::Done);
    assert!(!e.check_hover(1, true, true));
    assert_eq!(e.hover.status, HoverStatus::Inactive);
    e.update_hover(5);
    assert!(!e.check_hover(5, false, true));
    assert_eq!(e.hover.status, HoverStatus::Inactive);
    e.update_hover(5);
    assert!(!e.check_hover(5, true, false));
    // A stale answer.
    e.update_hover(5);
    assert!(!e.hover.receive(1, vec!["old".to_string()]));
    assert!(e.hover.is_empty());
}

// ---------------------------------------------------------------- code actions

#[test]
fn code_actions_are_asked_for_once() {
    let mut e = editor("let foo = 1;");
    e.editor.cursor.mode = CursorMode::Normal(6);
    let actions = e.get_code_actions();
    assert_eq!(actions.len(), 1);
    assert!(matches!(
        &actions[0],
        EditorAction::Request(ProxyRequest::GetCodeActions { buffer_id: 10, position, path, rev: 0, offset: 4 })
            if *position == Position { line: 0, character: 4 } && path == "/tmp/a.rs"
    ));
    assert!(e.current_code_actions().is_none());
    e.doc.code_actions.push((4, vec![]));
    assert!(e.get_code_actions().is_empty());
    assert!(e.current_code_actions().is_some());
    e.doc.loaded = false;
    assert!(e.get_code_actions().is_empty());
}

fn fix(changes: Vec<(String, Vec<TextEdit>)>) -> CodeActionOrCommand {
    CodeActionOrCommand::CodeAction(CodeAction {
        title: "fix".to_string(),
        edit: Some(WorkspaceEdit { changes: Some(changes), document_changes: None }),
    })
}

#[test]
fn edits_of_two_files_one_open_one_not() {
    let mut e = editor("aaa\nbbb\n");
    e.main_split.open_docs = vec![Document::new(10, BufferContent::File("/tmp/a.rs".to_string()), "aaa\nbbb\n")];
    let mut shown = view(1, "/tmp/a.rs");
    shown.cursor.mode = CursorMode::Normal(5);
    e.main_split.editors = vec![shown];
    let action = fix(vec![
        ("file:///tmp/a.rs".to_string(), vec![text_edit(0, 0, 3, "A")]),
        ("file:///tmp/b.rs".to_string(), vec![text_edit(1, 0, 1, "B"), text_edit(0, 0, 0, "C")]),
    ]);
    let actions = e.run_code_action(&action);
    // The open file is edited at once.
    assert_eq!(String::from_utf8(e.main_split.open_docs[0].buffer.text.clone()).unwrap(), "A\nbbb\n");
    assert_eq!(e.main_split.open_docs[0].rev(), 1);
    assert!(matches!(e.main_split.editors[0].cursor.mode, CursorMode::Normal(3)));
    // The other waits, and is asked to be opened at its first edit.
    assert_eq!(actions.len(), 1);
    assert!(matches!(
        &actions[0],
        EditorAction::OpenFile { path, position }
            if path == "/tmp/b.rs" && *position == Some(Position { line: 1, character: 0 })
    ));
    assert_eq!(e.main_split.pending_edits.len(), 1);
    assert_eq!(e.main_split.pending_edits[0].path, "/tmp/b.rs");

    // Another file is opened: nothing happens.
    assert!(e.main_split.file_opened("/tmp/c.rs").is_empty());
    assert_eq!(e.main_split.pending_edits.len(), 1);

    // The file is there: its edits are made as they were asked for.
    e.main_split
        .open_docs
        .push(Document::new(11, BufferContent::File("/tmp/b.rs".to_string()), "xx\nyy\n"));
    let actions = e.main_split.file_opened("/tmp/b.rs");
    assert!(actions.is_empty());
    assert_eq!(String::from_utf8(e.main_split.open_docs[1].buffer.text.clone()).unwrap(), "Cxx\nBy\n");
    assert!(e.main_split.pending_edits.is_empty());
    assert_eq!(String::from_utf8(e.main_split.open_docs[0].buffer.text.clone()).unwrap(), "A\nbbb\n");
    // Once made, they are not made again.
    assert!(e.main_split.file_opened("/tmp/b.rs").is_empty());
    assert_eq!(e.main_split.open_docs[1].rev(), 1);
}

#[test]
fn a_file_that_does_not_come_drops_its_edits() {
    let mut e = editor("aaa");
    let action = fix(vec![("file:///tmp/b.rs".to_string(), vec![text_edit(0, 0, 1, "B")])]);
    e.run_code_action(&action);
    assert_eq!(e.main_split.pending_edits.len(), 1);
    // The news comes, but the file is not among the open documents.
    let actions = e.main_split.file_opened("/tmp/b.rs");
    assert_eq!(actions.len(), 1);
    assert!(matches!(
        actions[0],
        EditorAction::Log { level: LogLevel::Warn, message: LogMessage::FileNotLoaded }
    ));
    assert!(e.main_split.pending_edits.is_empty());
}

#[test]
fn code_action_failures_go_to_the_log() {
    let mut e = editor("aaa");
    e.main_split.open_docs = vec![Document::new(10, BufferContent::File("/tmp/a.rs".to_string()), "aaa")];
    // A position that the text does not have.
    let actions = e.run_code_action(&fix(vec![("file:///tmp/a.rs".to_string(), vec![text_edit(4, 0, 1, "x")])]));
    assert_eq!(actions.len(), 1);
    assert!(matches!(
        actions[0],
        EditorAction::Log {
            level: LogLevel::Error,
            message: LogMessage::PositionWithoutOffset { position: Position { line: 4, character: 0 } }
        }
    ));
    // Edits that overlap.
    let actions = e.run_code_action(&fix(vec![(
        "file:///tmp/a.rs".to_string(),
        vec![text_edit(0, 0, 2, "x"), text_edit(0, 1, 3, "y")],
    )]));
    assert!(matches!(
        actions[0],
        EditorAction::Log { level: LogLevel::Error, message: LogMessage::EditsRejected }
    ));
    // A URI that names no file.
    let actions = e.run_code_action(&fix(vec![("https://example.com/a".to_string(), vec![])]));
    assert!(matches!(
        actions[0],
        EditorAction::Log { level: LogLevel::Warn, message: LogMessage::UriWithoutFile }
    ));
    assert_eq!(String::from_utf8(e.main_split.open_docs[0].buffer.text.clone()).unwrap(), "aaa");
    assert!(e.main_split.pending_edits.is_empty());
}

#[test]
fn commands_of_the_server_and_empty_actions_do_nothing() {
    let mut e = editor("aaa");
    let cmd = CodeActionOrCommand::Command(Command { title: "t".to_string(), command: "c".to_string() });
    assert!(e.run_code_action(&cmd).is_empty());
    let none = CodeActionOrCommand::CodeAction(CodeAction { title: "t".to_string(), edit: None });
    assert!(e.run_code_action(&none).is_empty());
    // A view that shows no file.
    let mut e = editor_on(BufferContent::Local(LocalBufferKind::Search), "aaa");
    let action = fix(vec![("file:///tmp/a.rs".to_string(), vec![text_edit(0, 0, 1, "x")])]);
    assert!(e.run_code_action(&action).is_empty());
    assert!(e.main_split.pending_edits.is_empty());
}

#[test]
fn whole_text_replacement_leaves_cursors() {
    let mut ms = LapceMainSplitData {
        tab_id: 1,
        active: None,
        editors: vec![view(1, "/tmp/a.rs")],
        open_docs: vec![Document::new(10, BufferContent::File("/tmp/a.rs".to_string()), "abcdef")],
        register: Register { unnamed: vec![] },
        current_save_as: None,
        pending_edits: vec![],
    };
    ms.editors[0].cursor.mode = CursorMode::Normal(4);
    let d = ms.edit("/tmp/a.rs", &vec![(Selection::region(0, 6), "xy".to_string())], editor_core::edit::EditType::Other);
    assert!(d.is_some());
    assert!(matches!(ms.editors[0].cursor.mode, CursorMode::Normal(4)));
    ms.editors[0].cursor.mode = CursorMode::Normal(2);
    let d = ms.edit("/tmp/a.rs", &vec![(Selection::region(0, 1), "".to_string())], editor_core::edit::EditType::Other);
    assert!(d.is_some());
    assert!(matches!(ms.editors[0].cursor.mode, CursorMode::Normal(1)));
    assert!(ms.edit("/tmp/none.rs", &vec![], editor_core::edit::EditType::Other).is_none());
}

// ---------------------------------------------------------------- conditions

#[test]
fn conditions_of_key_bindings() {
    let e = editor("abc");
    assert!(e.check_condition("editor_focus"));
    assert!(!e.check_condition("input_focus"));
    assert!(!e.check_condition("search_focus"));
    assert!(!e.check_condition("diff_focus"));
    assert!(!e.check_condition("in_snippet"));
    assert!(!e.check_condition("completion_focus"));
    assert!(!e.check_condition("hover_focus"));
    assert!(!e.check_condition("list_focus"));
    assert!(!e.check_condition("modal_focus"));
    assert!(!e.check_condition("no_such_condition"));
    assert!(!e.check_condition(""));

    let mut search = editor_on(BufferContent::Local(LocalBufferKind::Search), "");
    assert!(search.check_condition("global_search_focus"));
    assert!(!search.check_condition("search_focus"));
    assert!(search.check_condition("input_focus"));
    assert!(!search.check_condition("editor_focus"));
    search.editor.parent_view_id = Some(4);
    assert!(search.check_condition("search_focus"));
    assert!(!search.check_condition("global_search_focus"));

    let palette = editor_on(BufferContent::Local(LocalBufferKind::Palette), "");
    assert!(palette.check_condition("list_focus"));
    assert!(palette.check_condition("modal_focus"));
    assert!(palette.is_palette());

    let sc = editor_on(BufferContent::Local(LocalBufferKind::SourceControl), "");
    assert!(sc.check_condition("source_control_focus"));
    assert!(!sc.check_condition("input_focus"));

    let scratch = editor_on(BufferContent::Scratch(1, "x".to_string()), "");
    assert!(scratch.check_condition("editor_focus"));

    let mut diff = editor("abc");
    diff.editor.compare = Some("head".to_string());
    assert!(diff.check_condition("diff_focus"));

    let settings = editor_on(BufferContent::SettingsValue("font".to_string()), "");
    assert!(settings.focus_only());
    assert!(settings.check_condition("input_focus"));
    assert!(!e.focus_only());
}

#[test]
fn modal_editor_keeps_keys_while_completing() {
    let mut e = editor("fo");
    e.config.modal = true;
    insert_at(&mut e, 2);
    e.update_completion(true);
    e.completion.receive(1, vec![], vec![item("foo")]);
    assert!(e.has_completions());
    assert!(e.check_condition("completion_focus"));
    assert!(!e.check_condition("modal_focus"));
}

// ---------------------------------------------------------------- commands

#[test]
fn commands_by_kind() {
    let mut e = editor("abc\ndef");
    let run = |e: &mut LapceEditorBufferData, kind: CommandKind, count: Option<usize>| {
        e.run_command(&LapceCommand { kind }, count, mods())
    };
    let (executed, actions) = run(&mut e, CommandKind::Workbench(WorkbenchCommand::OpenFolder), None);
    assert_eq!(executed, CommandExecuted::No);
    assert!(actions.is_empty());
    let (executed, _) = run(&mut e, CommandKind::Move(MoveCommand::Right), Some(2));
    assert_eq!(executed, CommandExecuted::Yes);
    assert_eq!(e.editor.cursor.offset(), 2);
    let (executed, _) = run(&mut e, CommandKind::Move(MoveCommand::GotoLineDefaultLast), None);
    assert_eq!(executed, CommandExecuted::Yes);
    assert_eq!(e.editor.cursor.offset(), 6);
    let (executed, _) = run(&mut e, CommandKind::Focus(FocusCommand::Rename), None);
    assert_eq!(executed, CommandExecuted::No);
    let (executed, _) = run(&mut e, CommandKind::MultiSelection(MultiSelectionCommand::SelectAll), None);
    assert_eq!(executed, CommandExecuted::Yes);
    assert_eq!(regions(&e), vec![r(0, 7)]);
    let (executed, _) = run(&mut e, CommandKind::Edit(EditCommand::DeleteBackward), None);
    assert_eq!(executed, CommandExecuted::Yes);
    assert_eq!(text(&e), "");
    let (executed, _) = run(&mut e, CommandKind::MotionMode(MotionModeCommand::MotionModeDelete), None);
    assert_eq!(executed, CommandExecuted::Yes);
    assert_eq!(e.editor.cursor.motion_mode, Some(MotionMode::Delete));
}

#[test]
fn a_changed_text_forgets_earlier_selections() {
    let mut e = editor("abc");
    insert_at(&mut e, 1);
    e.editor.cursor.history_selections = vec![Selection::caret(0), Selection::caret(2)];
    e.run_command(&LapceCommand { kind: CommandKind::Move(MoveCommand::Right) }, None, mods());
    assert_eq!(e.editor.cursor.history_selections.len(), 2);
    e.run_command(&LapceCommand { kind: CommandKind::Edit(EditCommand::InsertTab) }, None, mods());
    assert_eq!(text(&e), "ab\tc");
    assert!(e.editor.cursor.history_selections.is_empty());
}

#[test]
fn edit_commands() {
    let mut e = editor("abc\ndef");
    insert_at(&mut e, 2);
    e.run_edit_command(&EditCommand::InsertNewLine);
    assert_eq!(text(&e), "ab\nc\ndef");
    assert_eq!(regions(&e), vec![r(3, 3)]);
    e.run_edit_command(&EditCommand::DeleteBackward);
    assert_eq!(text(&e), "abc\ndef");
    assert_eq!(regions(&e), vec![r(2, 2)]);
    e.run_edit_command(&EditCommand::DeleteForward);
    assert_eq!(text(&e), "ab\ndef");
    e.run_edit_command(&EditCommand::NewLineBelow);
    assert_eq!(text(&e), "ab\n\ndef");
    assert_eq!(regions(&e), vec![r(3, 3)]);
    e.run_edit_command(&EditCommand::NewLineAbove);
    assert_eq!(text(&e), "ab\n\n\ndef");
    e.run_edit_command(&EditCommand::InsertTab);
    assert_eq!(text(&e), "ab\n\n\t\ndef");
    // At the start of the text there is nothing to delete.
    insert_at(&mut e, 0);
    e.run_edit_command(&EditCommand::DeleteBackward);
    assert_eq!(text(&e), "ab\n\n\t\ndef");
}

#[test]
fn delete_with_several_carets() {
    let mut e = editor("abc abc");
    let mut s = Selection::new();
    s.add_region(r(1, 1));
    s.add_region(r(5, 5));
    e.editor.cursor.mode = CursorMode::Insert(s);
    e.run_edit_command(&EditCommand::DeleteBackward);
    assert_eq!(text(&e), "bc bc");
    assert_eq!(regions(&e), vec![r(0, 0), r(3, 3)]);
    e.receive_char("X");
    assert_eq!(text(&e), "Xbc Xbc");
    assert_eq!(regions(&e), vec![r(1, 1), r(5, 5)]);
}

#[test]
fn visual_delete_fills_the_register() {
    let mut e = editor("abcdef");
    e.config.modal = true;
    e.editor.cursor.mode = CursorMode::Visual { start: 1, end: 3, mode: VisualMode::Normal };
    e.run_edit_command(&EditCommand::DeleteForward);
    assert_eq!(text(&e), "aef");
    assert_eq!(e.main_split.register.unnamed, b"bcd".to_vec());
    assert!(matches!(e.editor.cursor.mode, CursorMode::Normal(1)));
}

#[test]
fn mode_commands() {
    let mut e = editor("abc\ndef");
    e.config.modal = true;
    insert_at(&mut e, 3);
    e.run_edit_command(&EditCommand::NormalMode);
    assert!(matches!(e.editor.cursor.mode, CursorMode::Normal(2)));
    assert_eq!(e.get_mode(), Mode::Normal);
    e.run_edit_command(&EditCommand::InsertMode);
    assert_eq!(regions(&e), vec![r(2, 2)]);
    // Without modes a selection gives way to a caret.
    e.config.modal = false;
    e.editor.cursor.mode = CursorMode::Insert(Selection::region(1, 5));
    e.run_edit_command(&EditCommand::NormalMode);
    assert_eq!(regions(&e), vec![r(1, 1)]);
    assert_eq!(text(&e), "abc\ndef");
}

#[test]
fn motion_mode_toggles() {
    let mut e = editor("abc");
    assert_eq!(e.run_motion_mode_command(&MotionModeCommand::MotionModeYank), (CommandExecuted::Yes, false));
    assert_eq!(e.editor.cursor.motion_mode, Some(MotionMode::Yank));
    assert_eq!(e.run_motion_mode_command(&MotionModeCommand::MotionModeYank), (CommandExecuted::Yes, true));
    assert_eq!(e.editor.cursor.motion_mode, None);
    e.run_motion_mode_command(&MotionModeCommand::MotionModeIndent);
    assert_eq!(e.run_motion_mode_command(&MotionModeCommand::MotionModeOutdent), (CommandExecuted::Yes, false));
    assert_eq!(e.editor.cursor.motion_mode, None);
}

#[test]
fn multi_selection_commands() {
    let mut e = editor("abc\ndef\nghi");
    e.editor.cursor.mode = CursorMode::Normal(5);
    assert_eq!(e.run_multi_selection_command(&MultiSelectionCommand::SelectCurrentLine), CommandExecuted::Yes);
    assert_eq!(regions(&e), vec![r(4, 8)]);
    e.run_multi_selection_command(&MultiSelectionCommand::SelectAll);
    assert_eq!(regions(&e), vec![r(0, 11)]);
}

// ---------------------------------------------------------------- jumps

#[test]
fn jumps_are_saved_once_and_walked() {
    let mut e = editor("0123456789\nabc");
    e.editor.cursor.mode = CursorMode::Normal(2);
    e.run_move_command(&Movement::Offset(7), None, mods());
    assert_eq!(e.editor.jumps.locations.len(), 1);
    assert_eq!(e.editor.jumps.locations[0].position, Some(2));
    assert_eq!(e.editor.jumps.locations[0].path, "/tmp/a.rs");
    // The same jump again saves nothing.
    e.run_move_command(&Movement::Offset(7), None, mods());
    assert_eq!(e.editor.jumps.locations.len(), 1);
    // A movement that is no jump saves nothing.
    e.run_move_command(&Movement::Left, None, mods());
    assert_eq!(e.editor.jumps.locations.len(), 1);
    e.run_move_command(&Movement::DocumentEnd, None, mods());
    assert_eq!(e.editor.jumps.locations.len(), 2);
    assert_eq!(e.editor.jumps.locations[1].position, Some(6));

    let (_, actions) = e.run_focus_command(&FocusCommand::JumpLocationBackward, None, mods());
    assert_eq!(actions.len(), 1);
    assert!(matches!(
        &actions[0],
        EditorAction::GoToLocationNew { view_id: 1, location } if location.position == Some(6)
    ));
    assert_eq!(e.editor.jumps.locations.len(), 3);
    let (_, actions) = e.run_focus_command(&FocusCommand::JumpLocationForward, None, mods());
    assert!(matches!(
        &actions[0],
        EditorAction::GoToLocationNew { view_id: 1, location } if location.position == Some(13)
    ));
    let (_, actions) = e.run_focus_command(&FocusCommand::JumpLocationForward, None, mods());
    assert!(actions.is_empty());
}

// ---------------------------------------------------------------- next diff, next error

fn range_of(start: usize, end: usize) -> LineRange {
    LineRange { start, end }
}

#[test]
fn next_diff_through_the_editor() {
    let mut e = editor("l0\nl1\nl2\nl3\nl4\n");
    assert!(e.next_diff().is_empty());
    e.source_control.file_diffs = vec!["/tmp/b.rs".to_string(), "/tmp/a.rs".to_string()];
    let mut a = Document::new(10, BufferContent::File("/tmp/a.rs".to_string()), "l0\nl1\nl2\nl3\nl4\n");
    a.histories.push(DocumentHistory {
        version: "head".to_string(),
        changes: vec![
            DiffLines::Both(range_of(0, 1), range_of(0, 1)),
            DiffLines::Right(range_of(1, 2)),
            DiffLines::Both(range_of(1, 2), range_of(2, 3)),
            DiffLines::Left(range_of(2, 3)),
            DiffLines::Both(range_of(3, 4), range_of(3, 4)),
            DiffLines::Left(range_of(4, 5)),
        ],
    });
    e.main_split.open_docs = vec![a];
    let jump = |e: &LapceEditorBufferData| {
        let actions = e.next_diff();
        assert_eq!(actions.len(), 1);
        match &actions[0] {
            EditorAction::JumpToLocation { location, target } => {
                assert_eq!(*target, Target::Widget(900));
                assert_eq!(location.history, Some("head".to_string()));
                assert_eq!(location.scroll_offset, None);
                (location.path.clone(), location.position.unwrap())
            }
            other => panic!("unexpected action {:?}", other),
        }
    };
    e.editor.cursor.mode = CursorMode::Normal(0);
    assert_eq!(jump(&e), ("/tmp/a.rs".to_string(), 3));
    e.editor.cursor.mode = CursorMode::Normal(3);
    assert_eq!(jump(&e), ("/tmp/a.rs".to_string(), 9));
    // Behind the last change of the file: the next file, which is not
    // open and so is entered at its start.
    e.editor.cursor.mode = CursorMode::Normal(9);
    assert_eq!(jump(&e), ("/tmp/b.rs".to_string(), 0));
}

fn diagnostic(line: u32, character: u32, severity: DiagnosticSeverity) -> EditorDiagnostic {
    EditorDiagnostic {
        range: None,
        diagnostic: Diagnostic {
            range: range(line, character, character + 1),
            severity: Some(severity),
            message: "m".to_string(),
        },
    }
}

#[test]
fn next_error_through_the_editor() {
    let mut e = editor("ab\ncd\nef\n");
    assert!(e.next_error().is_empty());
    let mut b = Document::new(11, BufferContent::File("/tmp/b.rs".to_string()), "x");
    b.diagnostics = Some(vec![diagnostic(0, 0, DiagnosticSeverity::Error)]);
    let mut a = Document::new(10, BufferContent::File("/tmp/a.rs".to_string()), "ab\ncd\nef\n");
    a.diagnostics = Some(vec![
        diagnostic(0, 1, DiagnosticSeverity::Warning),
        diagnostic(1, 1, DiagnosticSeverity::Error),
        diagnostic(2, 0, DiagnosticSeverity::Error),
    ]);
    let mut c = Document::new(12, BufferContent::File("/tmp/c.rs".to_string()), "x");
    c.diagnostics = Some(vec![diagnostic(0, 0, DiagnosticSeverity::Hint)]);
    e.main_split.open_docs = vec![b, a, c];
    let jump = |e: &LapceEditorBufferData| {
        let actions = e.next_error();
        assert_eq!(actions.len(), 1);
        match &actions[0] {
            EditorAction::JumpToLspLocation { location } => {
                assert_eq!(location.history, None);
                (location.path.clone(), location.position.unwrap())
            }
            other => panic!("unexpected action {:?}", other),
        }
    };
    e.editor.cursor.mode = CursorMode::Normal(0);
    assert_eq!(jump(&e), ("/tmp/a.rs".to_string(), Position { line: 1, character: 1 }));
    e.editor.cursor.mode = CursorMode::Normal(4);
    assert_eq!(jump(&e), ("/tmp/a.rs".to_string(), Position { line: 2, character: 0 }));
    e.editor.cursor.mode = CursorMode::Normal(6);
    assert_eq!(jump(&e), ("/tmp/b.rs".to_string(), Position { line: 0, character: 0 }));
    // A cursor behind the text has no position.
    e.editor.cursor.mode = CursorMode::Normal(600);
    let actions = e.next_error();
    assert!(matches!(
        actions[0],
        EditorAction::Log { level: LogLevel::Error, message: LogMessage::OffsetWithoutPosition { offset: 600 } }
    ));
}

// ---------------------------------------------------------------- scrolling and the pointer

#[test]
fn page_move_by_half_a_page() {
    let mut e = editor(&"line\n".repeat(40));
    e.editor.scroll_offset = ScrollOffset { x: 3, y: 100 };
    let actions = e.page_move(true, mods());
    // 200 pixels of 20 each: half a page is 5 lines.
    assert_eq!(e.editor.cursor.offset(), 25);
    assert_eq!(actions.len(), 1);
    assert!(matches!(
        actions[0],
        EditorAction::Ui {
            cmd: UiCommand::EnsureRectVisible(Rect { x: 3, y: 200, width: 800, height: 200 }),
            target: Target::Widget(1)
        }
    ));
    let actions = e.page_move(false, mods());
    assert_eq!(e.editor.cursor.offset(), 0);
    assert!(matches!(
        actions[0],
        EditorAction::Ui { cmd: UiCommand::EnsureRectVisible(Rect { x: 3, y: 0, .. }), .. }
    ));
}

#[test]
fn scrolling_takes_the_cursor_along() {
    let mut e = editor(&"line\n".repeat(40));
    e.editor.scroll_offset = ScrollOffset { x: 0, y: 0 };
    // The cursor on line 0 leaves the view when it scrolls down by 3 lines.
    let actions = e.scroll(true, 3, mods());
    assert!(matches!(
        actions[0],
        EditorAction::Ui { cmd: UiCommand::ScrollTo(0, 60), target: Target::Widget(1) }
    ));
    assert_eq!(e.doc.buffer.line_of_offset(e.editor.cursor.offset()), 4);
    // A cursor well inside the view stays.
    e.editor.cursor.mode = CursorMode::Normal(5 * 6);
    e.editor.scroll_offset = ScrollOffset { x: 0, y: 60 };
    e.scroll(true, 1, mods());
    assert_eq!(e.doc.buffer.line_of_offset(e.editor.cursor.offset()), 6);
    // At the lower edge the cursor is kept two lines inside.
    e.editor.cursor.mode = CursorMode::Normal(12 * 5);
    e.editor.scroll_offset = ScrollOffset { x: 0, y: 100 };
    let actions = e.scroll(false, 2, mods());
    assert!(matches!(actions[0], EditorAction::Ui { cmd: UiCommand::ScrollTo(0, 60), .. }));
    assert_eq!(e.doc.buffer.line_of_offset(e.editor.cursor.offset()), 11);
}

#[test]
fn scroll_commands_use_the_count() {
    let mut e = editor(&"line\n".repeat(40));
    let (_, actions) = e.run_focus_command(&FocusCommand::ScrollDown, None, mods());
    assert!(matches!(actions[0], EditorAction::Ui { cmd: UiCommand::ScrollTo(0, 20), .. }));
    let (_, actions) = e.run_focus_command(&FocusCommand::ScrollDown, Some(4), mods());
    assert!(matches!(actions[0], EditorAction::Ui { cmd: UiCommand::ScrollTo(0, 80), .. }));
    let (_, actions) = e.run_focus_command(&FocusCommand::ScrollUp, Some(1), mods());
    assert!(matches!(actions[0], EditorAction::Ui { cmd: UiCommand::ScrollTo(0, -20), .. }));
    let (_, actions) = e.run_focus_command(&FocusCommand::PageDown, None, mods());
    assert!(matches!(actions[0], EditorAction::Ui { cmd: UiCommand::EnsureRectVisible(_), .. }));
}

#[test]
fn pointer_to_offset() {
    let mut e = editor("abcd\nef\n\nghi");
    // Normal mode: onto the character, not behind the last.
    assert_eq!(e.offset_of_mouse(0, 2, 1), 1);
    assert_eq!(e.offset_of_mouse(0, 9, 9), 3);
    assert_eq!(e.offset_of_mouse(1, 0, 0), 5);
    assert_eq!(e.offset_of_mouse(2, 5, 5), 8);
    // Below the last line: the start of the last line.
    assert_eq!(e.offset_of_mouse(9, 2, 2), 9);
    // Insert mode: the nearest gap, the end of the line included.
    insert_at(&mut e, 0);
    assert_eq!(e.offset_of_mouse(0, 2, 1), 2);
    assert_eq!(e.offset_of_mouse(0, 9, 9), 4);
    assert_eq!(e.offset_of_mouse(1, 2, 1), 7);
}

#[test]
fn pointer_in_a_comparison() {
    let mut e = editor("a\nb\nc\nd\n");
    e.editor.compare = Some("head".to_string());
    e.doc.histories.push(DocumentHistory {
        version: "head".to_string(),
        changes: vec![
            DiffLines::Both(range_of(0, 1), range_of(0, 1)),
            DiffLines::Left(range_of(1, 3)),
            DiffLines::Right(range_of(1, 2)),
            DiffLines::Skip(range_of(3, 9), range_of(2, 3)),
            DiffLines::Both(range_of(9, 10), range_of(3, 4)),
        ],
    });
    assert_eq!(e.doc.history_actual_line_from_visual("head", 0), 0);
    // Two lines that only the earlier state has are shown here.
    assert_eq!(e.doc.history_actual_line_from_visual("head", 1), 1);
    assert_eq!(e.doc.history_actual_line_from_visual("head", 2), 1);
    assert_eq!(e.doc.history_actual_line_from_visual("head", 3), 1);
    assert_eq!(e.doc.history_actual_line_from_visual("head", 4), 2);
    assert_eq!(e.doc.history_actual_line_from_visual("head", 5), 3);
    assert_eq!(e.doc.history_actual_line_from_visual("head", 50), 4);
    assert_eq!(e.doc.history_actual_line_from_visual("other", 3), 3);
    assert_eq!(e.offset_of_mouse(4, 0, 0), 4);
    // In a view that shows the lens the line is taken as it is.
    e.editor.view = EditorView::Lens;
    assert_eq!(e.offset_of_mouse(3, 0, 0), 6);
}

#[test]
fn clicks() {
    let mut e = editor("let foo = bar;\nnext line\n");
    let actions = e.single_click(5, mods(), false, true);
    assert!(matches!(actions[..], [EditorAction::SetActive]));
    assert!(matches!(e.editor.cursor.mode, CursorMode::Normal(5)));
    let shift = Modifiers { shift: true, alt: false, ctrl: false, meta: false };
    e.single_click(9, shift, false, true);
    assert!(matches!(e.editor.cursor.mode, CursorMode::Visual { start: 5, end: 9, .. }));
    let actions = e.single_click(5, mods(), true, true);
    assert!(matches!(
        actions[..],
        [EditorAction::Command { cmd: FocusCommand::GotoDefinition, target: Target::Widget(1) }]
    ));
    assert!(e.single_click(5, mods(), false, false).is_empty());

    let actions = e.double_click(5, mods());
    assert!(matches!(actions[..], [EditorAction::SetActive]));
    assert!(matches!(e.editor.cursor.mode, CursorMode::Visual { start: 4, end: 6, .. }));
    e.triple_click(17, mods());
    assert!(matches!(e.editor.cursor.mode, CursorMode::Visual { start: 15, end: 24, .. }));

    insert_at(&mut e, 0);
    e.double_click(11, mods());
    assert_eq!(regions(&e), vec![r(10, 13)]);
    let alt = Modifiers { shift: false, alt: true, ctrl: false, meta: false };
    e.double_click(5, alt);
    assert_eq!(regions(&e), vec![r(4, 7), r(10, 13)]);
    e.triple_click(0, mods());
    assert_eq!(regions(&e), vec![r(0, 15)]);
}

// ---------------------------------------------------------------- search

#[test]
fn search_for_the_word_at_the_cursor() {
    let mut e = editor("foo bar foo foobar foo");
    e.editor.cursor.mode = CursorMode::Normal(1);
    let (_, actions) = e.run_focus_command(&FocusCommand::SearchWholeWordForward, None, mods());
    assert_eq!(actions.len(), 1);
    assert!(matches!(
        &actions[0],
        EditorAction::UpdateSearchInput { pattern, target: Target::Widget(900) } if pattern == b"foo"
    ));
    assert!(e.find.visual);
    assert!(e.find.whole_words);
    assert_eq!(e.editor.cursor.offset(), 8);
    e.run_focus_command(&FocusCommand::SearchForward, None, mods());
    // "foobar" is no whole word.
    assert_eq!(e.editor.cursor.offset(), 19);
    e.run_focus_command(&FocusCommand::SearchForward, None, mods());
    assert_eq!(e.editor.cursor.offset(), 0);
    e.run_focus_command(&FocusCommand::SearchBackward, None, mods());
    assert_eq!(e.editor.cursor.offset(), 19);
    let (_, actions) = e.run_focus_command(&FocusCommand::ClearSearch, None, mods());
    assert!(!e.find.visual);
    assert!(matches!(
        actions[..],
        [EditorAction::Ui { cmd: UiCommand::Focus, target: Target::Widget(1) }]
    ));
}

#[test]
fn search_field_hands_on_to_its_view() {
    let mut e = editor_on(BufferContent::Local(LocalBufferKind::Search), "foo");
    e.editor.parent_view_id = Some(33);
    let (_, actions) = e.run_focus_command(&FocusCommand::SearchForward, None, mods());
    assert!(matches!(
        actions[..],
        [EditorAction::Command { cmd: FocusCommand::SearchForward, target: Target::Widget(33) }]
    ));
    let (_, actions) = e.run_focus_command(&FocusCommand::SearchBackward, None, mods());
    assert!(matches!(
        actions[..],
        [EditorAction::Command { cmd: FocusCommand::SearchBackward, target: Target::Widget(33) }]
    ));
    let (_, actions) = e.run_focus_command(&FocusCommand::ClearSearch, None, mods());
    assert!(matches!(
        actions[..],
        [EditorAction::Ui { cmd: UiCommand::Focus, target: Target::Widget(33) }]
    ));
    e.editor.parent_view_id = None;
    assert!(e.run_focus_command(&FocusCommand::SearchForward, None, mods()).1.is_empty());
    e.main_split.active = Some(5);
    let (_, actions) = e.run_focus_command(&FocusCommand::ClearSearch, None, mods());
    assert!(matches!(
        actions[..],
        [EditorAction::Ui { cmd: UiCommand::Focus, target: Target::Widget(5) }]
    ));
}

#[test]
fn search_from_a_selection() {
    let mut e = editor("one two\nthree");
    e.editor.find_view_id = Some((40, 41));
    e.editor.cursor.mode = CursorMode::Visual { start: 4, end: 5, mode: VisualMode::Normal };
    let (_, actions) = e.run_focus_command(&FocusCommand::Search, None, mods());
    assert_eq!(e.find.pattern, b"tw".to_vec());
    assert!(!e.find.whole_words);
    assert_eq!(actions.len(), 3);
    assert!(matches!(&actions[0], EditorAction::UpdateSearchInput { pattern, .. } if pattern == b"tw"));
    assert!(matches!(
        actions[1],
        EditorAction::MultiSelection { cmd: MultiSelectionCommand::SelectAll, target: Target::Widget(40) }
    ));
    assert!(matches!(actions[2], EditorAction::Ui { cmd: UiCommand::Focus, target: Target::Widget(40) }));
    // A selection of several lines is not searched for.
    e.editor.cursor.mode = CursorMode::Insert(Selection::region(4, 10));
    let (_, actions) = e.run_focus_command(&FocusCommand::Search, None, mods());
    assert_eq!(e.find.pattern, b"tw".to_vec());
    assert_eq!(actions.len(), 2);
    // A caret takes the word around it.
    e.editor.find_view_id = None;
    e.editor.cursor.mode = CursorMode::Normal(9);
    let (_, actions) = e.run_focus_command(&FocusCommand::Search, None, mods());
    assert_eq!(e.find.pattern, b"three".to_vec());
    assert_eq!(actions.len(), 1);
}

#[test]
fn search_in_view_starts_at_the_line_of_the_cursor() {
    let mut e = editor("x foo\nfoo y\n");
    e.find.set_find(&b"foo".to_vec(), true, false);
    e.editor.cursor.mode = CursorMode::Normal(4);
    e.run_focus_command(&FocusCommand::SearchInView, None, mods());
    assert_eq!(e.editor.cursor.offset(), 2);
    e.editor.cursor.mode = CursorMode::Normal(8);
    e.run_focus_command(&FocusCommand::SearchInView, None, mods());
    // Nothing behind the start of the line: over the end of the text.
    assert_eq!(e.editor.cursor.offset(), 2);
}

#[test]
fn inline_find() {
    let mut e = editor("a,b,c,d\nx,y");
    e.editor.cursor.mode = CursorMode::Normal(2);
    e.run_focus_command(&FocusCommand::InlineFindRight, None, mods());
    assert!(e.expect_char());
    assert_eq!(e.editor.inline_find, Some(InlineFindDirection::Right));
    e.receive_char(",");
    assert!(!e.expect_char());
    assert_eq!(e.editor.cursor.offset(), 3);
    assert_eq!(e.editor.last_inline_find, Some((InlineFindDirection::Right, b",".to_vec())));
    e.run_focus_command(&FocusCommand::RepeatLastInlineFind, None, mods());
    assert_eq!(e.editor.cursor.offset(), 5);
    e.run_focus_command(&FocusCommand::RepeatLastInlineFind, None, mods());
    // The search stays on the line.
    assert_eq!(e.editor.cursor.offset(), 5);
    e.run_focus_command(&FocusCommand::InlineFindLeft, None, mods());
    e.receive_char(",");
    assert_eq!(e.editor.cursor.offset(), 3);
    e.inline_find(InlineFindDirection::Left, &b"a".to_vec());
    assert_eq!(e.editor.cursor.offset(), 0);
    e.inline_find(InlineFindDirection::Left, &b"a".to_vec());
    assert_eq!(e.editor.cursor.offset(), 0);
    // A character typed in normal mode while no search waits does nothing.
    e.receive_char("z");
    assert_eq!(e.doc.rev(), 0);
}

// ---------------------------------------------------------------- plain commands

#[test]
fn commands_that_only_ask() {
    let mut e = editor("let foo = 1;");
    e.editor.tab_id = Some(8);
    e.editor.cursor.mode = CursorMode::Normal(6);
    let one = |e: &mut LapceEditorBufferData, cmd: FocusCommand| {
        let (executed, mut actions) = e.run_focus_command(&cmd, None, mods());
        assert_eq!(executed, CommandExecuted::Yes);
        assert_eq!(actions.len(), 1);
        actions.remove(0)
    };
    assert!(matches!(
        one(&mut e, FocusCommand::SplitVertical),
        EditorAction::Split(SplitCommand::Split { view_id: 1, direction: SplitDirection::Vertical })
    ));
    assert!(matches!(
        one(&mut e, FocusCommand::SplitHorizontal),
        EditorAction::Split(SplitCommand::Split { view_id: 1, direction: SplitDirection::Horizontal })
    ));
    assert!(matches!(one(&mut e, FocusCommand::SplitExchange), EditorAction::Split(SplitCommand::Exchange { tab_id: 8 })));
    assert!(matches!(one(&mut e, FocusCommand::SplitLeft), EditorAction::Split(SplitCommand::Move { tab_id: 8, .. })));
    assert!(matches!(
        one(&mut e, FocusCommand::SplitClose),
        EditorAction::Split(SplitCommand::Close { view_id: 1, force: false })
    ));
    assert!(matches!(
        one(&mut e, FocusCommand::ForceExit),
        EditorAction::Split(SplitCommand::Close { view_id: 1, force: true })
    ));
    assert!(matches!(
        one(&mut e, FocusCommand::GlobalSearchRefresh),
        EditorAction::UpdateSearch { pattern, target: Target::Widget(900) } if pattern == b"let foo = 1;"
    ));
    assert!(matches!(
        one(&mut e, FocusCommand::CenterOfWindow),
        EditorAction::Ui { cmd: UiCommand::EnsureCursorPosition(_), target: Target::Widget(1) }
    ));
    assert!(matches!(
        one(&mut e, FocusCommand::ShowCodeActions),
        EditorAction::Ui { cmd: UiCommand::ShowCodeActions, target: Target::Widget(101) }
    ));
    assert!(matches!(
        one(&mut e, FocusCommand::GotoDefinition),
        EditorAction::Request(ProxyRequest::GetDefinition {
            offset: 6,
            buffer_id: 10,
            position: Position { line: 0, character: 6 },
            start_position: Position { line: 0, character: 4 },
            editor_view_id: 1
        })
    ));
    assert!(matches!(
        one(&mut e, FocusCommand::GotoTypeDefinition),
        EditorAction::Request(ProxyRequest::GetTypeDefinition { offset: 6, buffer_id: 10, .. })
    ));
    assert!(matches!(
        one(&mut e, FocusCommand::FormatDocument),
        EditorAction::Request(ProxyRequest::GetDocumentFormatting { buffer_id: 10, rev: 0, tab_id: 900, .. })
    ));
    e.editor.tab_id = None;
    assert!(e.run_focus_command(&FocusCommand::SplitExchange, None, mods()).1.is_empty());
    assert!(e.run_focus_command(&FocusCommand::SplitDown, None, mods()).1.is_empty());
    assert_eq!(e.run_focus_command(&FocusCommand::GetReferences, None, mods()).0, CommandExecuted::No);
}

#[test]
fn modal_close_ends_what_is_shown() {
    let mut e = editor("fo bar");
    insert_at(&mut e, 2);
    e.update_completion(true);
    e.completion.receive(1, vec![], vec![item("foo")]);
    e.update_hover(4);
    e.hover.receive(1, vec!["docs".to_string()]);
    let (_, actions) = e.run_focus_command(&FocusCommand::ModalClose, None, mods());
    assert!(actions.is_empty());
    assert_eq!(e.completion.status, CompletionStatus::Inactive);
    assert_eq!(e.hover.status, HoverStatus::Inactive);
    let mut p = editor_on(BufferContent::Local(LocalBufferKind::Palette), "");
    let (_, actions) = p.run_focus_command(&FocusCommand::ModalClose, None, mods());
    assert!(matches!(
        actions[..],
        [EditorAction::Command { cmd: FocusCommand::ModalClose, target: Target::Widget(70) }]
    ));
    let (_, actions) = p.run_focus_command(&FocusCommand::ListNext, None, mods());
    assert!(matches!(
        actions[..],
        [EditorAction::Command { cmd: FocusCommand::ListNext, target: Target::Widget(70) }]
    ));
    let (_, actions) = p.run_focus_command(&FocusCommand::ListSelect, None, mods());
    assert!(matches!(
        actions[..],
        [EditorAction::Command { cmd: FocusCommand::ListSelect, target: Target::Widget(70) }]
    ));
}

#[test]
fn code_lens_toggles() {
    let mut e = editor("abc");
    e.run_focus_command(&FocusCommand::ToggleCodeLens, None, mods());
    assert!(e.editor.is_code_lens());
    e.run_focus_command(&FocusCommand::ToggleCodeLens, None, mods());
    assert!(matches!(e.editor.view, EditorView::Normal));
    e.editor.view = EditorView::Diff("head".to_string());
    e.run_focus_command(&FocusCommand::ToggleCodeLens, None, mods());
    assert!(matches!(&e.editor.view, EditorView::Diff(v) if v == "head"));
}

// ---------------------------------------------------------------- save

#[test]
fn saving() {
    let mut e = editor("abc");
    // As it was saved: nothing to do.
    assert!(e.save(false).is_empty());
    let actions = e.save(true);
    assert!(matches!(
        actions[..],
        [EditorAction::Command { cmd: FocusCommand::SplitClose, target: Target::Widget(1) }]
    ));
    insert_at(&mut e, 3);
    e.receive_char("d");
    let (_, actions) = e.run_focus_command(&FocusCommand::Save, None, mods());
    assert_eq!(actions.len(), 1);
    assert!(matches!(
        &actions[0],
        EditorAction::Request(ProxyRequest::FormatAndSave {
            buffer_id: 10, path, rev: 1, format_on_save: true, exit: None, tab_id: 900
        }) if path == "/tmp/a.rs"
    ));
    let (_, actions) = e.run_focus_command(&FocusCommand::SaveAndExit, None, mods());
    assert!(matches!(
        &actions[0],
        EditorAction::Request(ProxyRequest::FormatAndSave { exit: Some(1), .. })
    ));
    let mut s = editor_on(BufferContent::Scratch(4, "untitled".to_string()), "abc");
    let actions = s.save(true);
    assert!(matches!(actions[..], [EditorAction::ShowSavePanel]));
    assert!(matches!(
        &s.main_split.current_save_as,
        Some((BufferContent::Scratch(4, name), 1, true)) if name == "untitled"
    ));
    let mut l = editor_on(BufferContent::Local(LocalBufferKind::Search), "abc");
    assert!(l.save(false).is_empty());
}

#[test]
fn buffer_position_is_noted() {
    let mut e = editor("abcdef");
    e.editor.cursor.mode = CursorMode::Normal(4);
    e.sync_buffer_position(ScrollOffset { x: 1, y: 9 });
    assert_eq!(e.doc.cursor_offset, 4);
    assert_eq!(e.doc.scroll_offset, ScrollOffset { x: 1, y: 9 });
    assert!(e.diagnostics().is_none());
    e.doc.diagnostics = Some(vec![]);
    assert!(e.diagnostics().is_some());
}

#[test]
fn a_completion_is_an_edit_of_its_own_kind_and_touches_nothing_else() {
    let mut e = editor("x = fo");
    insert_at(&mut e, 6);
    e.receive_char("o");
    assert_eq!(e.doc.buffer.last_edit_type, EditType::InsertChars);
    e.doc.buffer.saved_rev = 1;
    e.doc.diagnostics = Some(vec![diagnostic(0, 0, DiagnosticSeverity::Error)]);
    e.doc.scroll_offset = ScrollOffset { x: 3, y: 40 };
    e.editor.cursor.horiz = Some(7);
    // An edit that waits for its file.
    e.run_code_action(&fix(vec![("file:///tmp/b.rs".to_string(), vec![text_edit(0, 0, 1, "B")])]));
    assert_eq!(e.main_split.pending_edits.len(), 1);

    assert!(e.apply_completion_item(&item("foobar")).is_ok());
    assert_eq!(text(&e), "x = foobar");
    assert_eq!(regions(&e), vec![r(10, 10)]);
    assert_eq!(e.doc.buffer.last_edit_type, EditType::Completion);
    assert_eq!(e.doc.rev(), 2);
    assert_eq!(e.doc.buffer.saved_rev, 1);
    assert_eq!(e.doc.diagnostics.as_ref().map(|d| d.len()), Some(1));
    assert_eq!(e.doc.scroll_offset, ScrollOffset { x: 3, y: 40 });
    assert_eq!(e.editor.cursor.horiz, Some(7));
    assert_eq!(e.main_split.pending_edits.len(), 1);
    assert_eq!(e.main_split.pending_edits[0].path, "/tmp/b.rs");
    assert_eq!(e.main_split.tab_id, 900);
    assert_eq!(e.main_split.active, Some(1));

    // A snippet puts the cursor anew: the column it kept is given up.
    let mut it = item("f");
    it.insert_text_format = Some(InsertTextFormat::Snippet);
    it.text_edit = Some(CompletionTextEdit::Edit(text_edit(0, 4, 10, "f(${1:a}, ${2:b})")));
    assert!(e.apply_completion_item(&it).is_ok());
    assert_eq!(text(&e), "x = f(a, b)");
    assert_eq!(regions(&e), vec![r(6, 7)]);
    assert_eq!(e.editor.cursor.horiz, None);
    assert_eq!(e.doc.buffer.last_edit_type, EditType::Completion);
    assert_eq!(e.main_split.pending_edits.len(), 1);
}

#[test]
fn a_code_action_is_an_edit_of_the_kind_other() {
    let mut e = editor("aaa");
    let mut doc = Document::new(10, BufferContent::File("/tmp/a.rs".to_string()), "aaa");
    doc.buffer.last_edit_type = EditType::InsertChars;
    doc.buffer.saved_rev = 0;
    doc.diagnostics = Some(vec![diagnostic(0, 1, DiagnosticSeverity::Warning)]);
    e.main_split.open_docs = vec![doc];
    let actions = e.run_code_action(&fix(vec![("file:///tmp/a.rs".to_string(), vec![text_edit(0, 0, 1, "b")])]));
    assert!(actions.is_empty());
    let doc = &e.main_split.open_docs[0];
    assert_eq!(String::from_utf8(doc.buffer.text.clone()).unwrap(), "baa");
    assert_eq!(doc.buffer.last_edit_type, EditType::Other);
    assert_eq!(doc.rev(), 1);
    assert_eq!(doc.buffer.saved_rev, 0);
    assert_eq!(doc.diagnostics.as_ref().map(|d| d.len()), Some(1));
    // Edits that are refused leave the kind of the last edit as it was.
    e.main_split.open_docs[0].buffer.last_edit_type = EditType::Delete;
    e.run_code_action(&fix(vec![(
        "file:///tmp/a.rs".to_string(),
        vec![text_edit(0, 0, 2, "x"), text_edit(0, 1, 3, "y")],
    )]));
    assert_eq!(e.main_split.open_docs[0].buffer.last_edit_type, EditType::Delete);
}

#[test]
fn each_command_that_changes_the_text_leaves_its_kind_of_edit() {
    let mut e = editor("ab");
    insert_at(&mut e, 2);
    e.receive_char("c");
    assert_eq!(e.doc.buffer.last_edit_type, EditType::InsertChars);
    assert_eq!(regions(&e), vec![r(3, 3)]);
    e.run_edit_command(&EditCommand::InsertNewLine);
    assert_eq!(e.doc.buffer.last_edit_type, EditType::InsertNewline);
    e.run_edit_command(&EditCommand::DeleteBackward);
    assert_eq!(e.doc.buffer.last_edit_type, EditType::Delete);
    e.run_edit_command(&EditCommand::InsertTab);
    assert_eq!(e.doc.buffer.last_edit_type, EditType::InsertChars);
    e.run_edit_command(&EditCommand::NewLineBelow);
    assert_eq!(e.doc.buffer.last_edit_type, EditType::InsertNewline);
    insert_at(&mut e, 0);
    e.run_edit_command(&EditCommand::DeleteForward);
    assert_eq!(e.doc.buffer.last_edit_type, EditType::Delete);
    assert_eq!(text(&e), "bc\t\n");
    // The cursor lies in the text after each edit.
    let len = e.doc.buffer.text.len();
    assert!(regions(&e).iter().all(|region| region.start <= len && region.end <= len));
}

#[test]
fn tab_stops_count_from_where_the_start_of_the_replaced_span_lands() {
    // The item's own edit replaces `cd`; an edit that comes with it takes
    // out what stands in front, up to the very start of the span.
    let mut e = editor("ab cd");
    insert_at(&mut e, 5);
    let mut it = item("f");
    it.insert_text_format = Some(InsertTextFormat::Snippet);
    it.text_edit = Some(CompletionTextEdit::Edit(text_edit(0, 3, 5, "f(${1:x})")));
    it.additional_text_edits = Some(vec![text_edit(0, 0, 3, "")]);
    assert!(e.apply_completion_item(&it).is_ok());
    assert_eq!(text(&e), "f(x)");
    // The start of the span, in deleted text, lands behind what was put
    // in: the tab stop is counted from there.
    assert_eq!(regions(&e), vec![r(6, 7)]);

    // Without such an edit the tab stop lies in the new text.
    let mut e = editor("ab cd");
    insert_at(&mut e, 5);
    it.additional_text_edits = None;
    assert!(e.apply_completion_item(&it).is_ok());
    assert_eq!(text(&e), "ab f(x)");
    assert_eq!(regions(&e), vec![r(5, 6)]);
}
