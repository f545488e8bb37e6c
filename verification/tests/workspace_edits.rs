use editor_core::lsp::{
    AnnotatedTextEdit, DocumentChangeOperation, DocumentChanges, DocumentEdit, Range, ResourceOp,
    TextDocumentEdit, TextEdit, WorkspaceEdit,
};
use editor_core::nav::Position;
use editor_core::workspace_edit::{
    paths_match, url_matches_path, workspace_edits, workspace_edits_counted,
};

fn edit(line: u32, from: u32, to: u32, text: &str) -> TextEdit {
    TextEdit {
        range: Range {
            start: Position { line, character: from },
            end: Position { line, character: to },
        },
        new_text: text.to_string(),
    }
}

fn texts(edits: &Vec<TextEdit>) -> Vec<String> {
    edits.iter().map(|e| e.new_text.clone()).collect()
}

#[test]
fn no_encoding_gives_nothing() {
    let e = WorkspaceEdit { changes: None, document_changes: None };
    assert!(workspace_edits(&e).is_none());
}

#[test]
fn list_by_uri_is_taken_as_it_is() {
    let e = WorkspaceEdit {
        changes: Some(vec![
            ("file:///b.rs".to_string(), vec![edit(0, 0, 1, "x")]),
            ("file:///a.rs".to_string(), vec![edit(1, 0, 1, "y"), edit(2, 0, 0, "z")]),
        ]),
        // The list by URI comes first where both are there.
        document_changes: Some(DocumentChanges::Edits(vec![])),
    };
    let r = workspace_edits(&e).unwrap();
    assert_eq!(r.len(), 2);
    assert_eq!(r[0].0, "file:///b.rs");
    assert_eq!(texts(&r[0].1), vec!["x"]);
    assert_eq!(r[1].0, "file:///a.rs");
    assert_eq!(texts(&r[1].1), vec!["y", "z"]);
    assert_eq!(r[1].1[1].range.start, Position { line: 2, character: 0 });
}

#[test]
fn document_edits_drop_their_notes() {
    let e = WorkspaceEdit {
        changes: None,
        document_changes: Some(DocumentChanges::Edits(vec![TextDocumentEdit {
            uri: "file:///a.rs".to_string(),
            version: Some(3),
            edits: vec![
                DocumentEdit::Plain(edit(0, 0, 1, "x")),
                DocumentEdit::Annotated(AnnotatedTextEdit {
                    text_edit: edit(1, 0, 1, "y"),
                    annotation_id: "note".to_string(),
                }),
            ],
        }])),
    };
    let r = workspace_edits(&e).unwrap();
    assert_eq!(r.len(), 1);
    assert_eq!(r[0].0, "file:///a.rs");
    assert_eq!(texts(&r[0].1), vec!["x", "y"]);
}

#[test]
fn operations_on_files_are_passed_over() {
    let e = WorkspaceEdit {
        changes: None,
        document_changes: Some(DocumentChanges::Operations(vec![
            DocumentChangeOperation::Op(ResourceOp::Create("file:///new.rs".to_string())),
            DocumentChangeOperation::Edit(TextDocumentEdit {
                uri: "file:///a.rs".to_string(),
                version: None,
                edits: vec![DocumentEdit::Plain(edit(0, 0, 1, "x"))],
            }),
            DocumentChangeOperation::Op(ResourceOp::Rename(
                "file:///a.rs".to_string(),
                "file:///b.rs".to_string(),
            )),
            DocumentChangeOperation::Op(ResourceOp::Delete("file:///c.rs".to_string())),
        ])),
    };
    let (r, skipped) = workspace_edits_counted(&e);
    let r = r.unwrap();
    assert_eq!(skipped, 3);
    assert_eq!(r.len(), 1);
    assert_eq!(r[0].0, "file:///a.rs");
    assert_eq!(texts(&r[0].1), vec!["x"]);
}

#[test]
fn later_edits_for_a_uri_go_behind_the_earlier() {
    let doc = |uri: &str, text: &str| TextDocumentEdit {
        uri: uri.to_string(),
        version: None,
        edits: vec![DocumentEdit::Plain(edit(0, 0, 1, text))],
    };
    let e = WorkspaceEdit {
        changes: None,
        document_changes: Some(DocumentChanges::Edits(vec![
            doc("file:///a.rs", "first"),
            doc("file:///b.rs", "other"),
            doc("file:///a.rs", "second"),
        ])),
    };
    let r = workspace_edits(&e).unwrap();
    assert_eq!(r.len(), 2);
    assert_eq!(r[0].0, "file:///a.rs");
    assert_eq!(texts(&r[0].1), vec!["first", "second"]);
    assert_eq!(r[1].0, "file:///b.rs");
    assert_eq!(texts(&r[1].1), vec!["other"]);
}

#[test]
fn uri_and_path_of_one_file_match() {
    assert!(url_matches_path("/tmp/a.rs", "file:///tmp/a.rs"));
    assert!(!url_matches_path("/tmp/a.rs", "file:///tmp/b.rs"));
    assert!(!url_matches_path("/tmp/a.rs", "not a uri"));
    // The URI writes the blank with a percent sign; the path does not.
    assert!(url_matches_path("/tmp/a b.rs", "file:///tmp/a%20b.rs"));
    // No file of this machine.
    assert!(!url_matches_path("/tmp/a.rs", "https://example.com/tmp/a.rs"));
}

#[test]
fn either_likeness_is_a_match() {
    let some = |s: &str| Some(s.to_string());
    assert!(paths_match("/a", "file:///a", &some("/a"), &None));
    assert!(paths_match("/a", "file:///a", &None, &some("file:///a")));
    assert!(paths_match("/a", "file:///a", &some("/other"), &some("file:///a")));
    assert!(!paths_match("/a", "file:///a", &some("/other"), &some("file:///other")));
    assert!(!paths_match("/a", "file:///a", &None, &None));
}

#[test]
fn edits_among_operations_are_joined_by_uri() {
    let doc = |uri: &str, text: &str| {
        DocumentChangeOperation::Edit(TextDocumentEdit {
            uri: uri.to_string(),
            version: None,
            edits: vec![DocumentEdit::Plain(edit(0, 0, 1, text))],
        })
    };
    let e = WorkspaceEdit {
        changes: None,
        document_changes: Some(DocumentChanges::Operations(vec![
            doc("file:///a.rs", "one"),
            DocumentChangeOperation::Op(ResourceOp::Create("file:///new.rs".to_string())),
            doc("file:///b.rs", "two"),
            doc("file:///a.rs", "three"),
            doc("file:///a.rs", "four"),
        ])),
    };
    let (r, skipped) = workspace_edits_counted(&e);
    let r = r.unwrap();
    assert_eq!(skipped, 1);
    assert_eq!(r.len(), 2);
    assert_eq!(r[0].0, "file:///a.rs");
    assert_eq!(texts(&r[0].1), vec!["one", "three", "four"]);
    assert_eq!(r[1].0, "file:///b.rs");
    assert_eq!(texts(&r[1].1), vec!["two"]);
}

#[test]
fn no_edit_of_a_document_change_is_lost() {
    let e = WorkspaceEdit {
        changes: None,
        document_changes: Some(DocumentChanges::Edits(vec![
            TextDocumentEdit {
                uri: "file:///a.rs".to_string(),
                version: None,
                edits: vec![
                    DocumentEdit::Plain(edit(0, 0, 1, "a1")),
                    DocumentEdit::Plain(edit(1, 0, 1, "a2")),
                ],
            },
            TextDocumentEdit {
                uri: "file:///a.rs".to_string(),
                version: None,
                edits: vec![DocumentEdit::Annotated(AnnotatedTextEdit {
                    text_edit: edit(2, 0, 1, "a3"),
                    annotation_id: "note".to_string(),
                })],
            },
        ])),
    };
    let r = workspace_edits(&e).unwrap();
    assert_eq!(r.len(), 1);
    assert_eq!(texts(&r[0].1), vec!["a1", "a2", "a3"]);
    assert_eq!(r[0].1[2].range.start, Position { line: 2, character: 0 });
}
