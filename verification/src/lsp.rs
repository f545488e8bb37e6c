//! What a language server sends, as plain values: ranges, text edits, the
//! two encodings of an edit of several files, completion items and code
//! actions.

use vstd::prelude::*;
use crate::nav::Position;

verus! {

/// From one position up to another.
#[derive(Clone, Copy, Debug, PartialEq, Eq, Structural)]
pub struct Range {
    pub start: Position,
    pub end: Position,
}

/// The text that replaces a range.
#[derive(Debug)]
pub struct TextEdit {
    pub range: Range,
    pub new_text: String,
}

impl TextEdit {
    /// A copy of the edit.
    pub fn duplicate(&self) -> (r: TextEdit)
        ensures
            r == *self,
    {
        TextEdit { range: self.range, new_text: self.new_text.clone() }
    }
}

/// A copy of a list of edits.
pub fn duplicate_edits(edits: &Vec<TextEdit>) -> (r: Vec<TextEdit>)
    ensures
        r@ == edits@,
{
    let mut out: Vec<TextEdit> = Vec::new();
    let mut i: usize = 0;
    while i < edits.len()
        invariant
            i <= edits@.len(),
            out@ == edits@.subrange(0, i as int),
        decreases edits@.len() - i,
    {
        out.push(edits[i].duplicate());
        assert(edits@.subrange(0, i + 1) =~= edits@.subrange(0, i as int).push(edits@[i as int]));
        i += 1;
    }
    assert(edits@.subrange(0, i as int) =~= edits@);
    out
}

/// A range in a file, named by its URI.
#[derive(Debug)]
pub struct Location {
    pub uri: String,
    pub range: Range,
}

/// A text edit with the name of a note on it.
#[derive(Debug)]
pub struct AnnotatedTextEdit {
    pub text_edit: TextEdit,
    pub annotation_id: String,
}

/// An edit of a document, with or without a note.
#[derive(Debug)]
pub enum DocumentEdit {
    Plain(TextEdit),
    Annotated(AnnotatedTextEdit),
}

impl DocumentEdit {
    /// The text edit itself.
    pub open spec fn text_edit(self) -> TextEdit {
        match self {
            DocumentEdit::Plain(e) => e,
            DocumentEdit::Annotated(a) => a.text_edit,
        }
    }
}

/// The edits of one document.
#[derive(Debug)]
pub struct TextDocumentEdit {
    pub uri: String,
    pub version: Option<i32>,
    pub edits: Vec<DocumentEdit>,
}

/// An operation on a file as a whole.
#[derive(Debug)]
pub enum ResourceOp {
    Create(String),
    Rename(String, String),
    Delete(String),
}

/// One change of a list of changes: an operation on a file, or the edits of
/// a document.
#[derive(Debug)]
pub enum DocumentChangeOperation {
    Op(ResourceOp),
    Edit(TextDocumentEdit),
}

/// The changes of several documents.
#[derive(Debug)]
pub enum DocumentChanges {
    Edits(Vec<TextDocumentEdit>),
    Operations(Vec<DocumentChangeOperation>),
}

/// An edit of several files, in one or both of its encodings: the edits of
/// each file by its URI, or a list of changes.
#[derive(Debug)]
pub struct WorkspaceEdit {
    pub changes: Option<Vec<(String, Vec<TextEdit>)>>,
    pub document_changes: Option<DocumentChanges>,
}

/// A command that the server can run.
#[derive(Debug)]
pub struct Command {
    pub title: String,
    pub command: String,
}

/// A fix or refactoring that the server offers.
#[derive(Debug)]
pub struct CodeAction {
    pub title: String,
    pub edit: Option<WorkspaceEdit>,
}

#[derive(Debug)]
pub enum CodeActionOrCommand {
    Command(Command),
    CodeAction(CodeAction),
}

/// How the text of a completion is to be read.
#[derive(Clone, Copy, Debug, PartialEq, Eq, Structural)]
pub enum InsertTextFormat {
    PlainText,
    Snippet,
    /// A format that this editor does not know.
    Other,
}

/// An edit that either inserts at a range or replaces another.
#[derive(Debug)]
pub struct InsertReplaceEdit {
    pub new_text: String,
    pub insert: Range,
    pub replace: Range,
}

#[derive(Debug)]
pub enum CompletionTextEdit {
    Edit(TextEdit),
    InsertAndReplace(InsertReplaceEdit),
}

/// One proposal of a completion.
#[derive(Debug)]
pub struct CompletionItem {
    pub label: String,
    pub insert_text: Option<String>,
    pub insert_text_format: Option<InsertTextFormat>,
    pub text_edit: Option<CompletionTextEdit>,
    pub additional_text_edits: Option<Vec<TextEdit>>,
    /// Whether the server holds more about the item, to be asked for
    /// before the item is applied.
    pub has_data: bool,
}

impl CompletionItem {
    /// A copy of the item.
    pub fn duplicate(&self) -> (r: CompletionItem)
        ensures
            r.label == self.label,
            r.insert_text == self.insert_text,
            r.insert_text_format == self.insert_text_format,
            r.has_data == self.has_data,
            match (r.text_edit, self.text_edit) {
                (Some(CompletionTextEdit::Edit(a)), Some(CompletionTextEdit::Edit(b))) => a == b,
                (
                    Some(CompletionTextEdit::InsertAndReplace(a)),
                    Some(CompletionTextEdit::InsertAndReplace(b)),
                ) => a == b,
                (None, None) => true,
                _ => false,
            },
            match (r.additional_text_edits, self.additional_text_edits) {
                (Some(a), Some(b)) => a@ == b@,
                (None, None) => true,
                _ => false,
            },
    {
        CompletionItem {
            label: self.label.clone(),
            insert_text: match &self.insert_text {
                Some(t) => Some(t.clone()),
                None => None,
            },
            insert_text_format: self.insert_text_format,
            text_edit: match &self.text_edit {
                Some(CompletionTextEdit::Edit(e)) => Some(CompletionTextEdit::Edit(e.duplicate())),
                Some(CompletionTextEdit::InsertAndReplace(e)) => Some(
                    CompletionTextEdit::InsertAndReplace(
                        InsertReplaceEdit {
                            new_text: e.new_text.clone(),
                            insert: e.insert,
                            replace: e.replace,
                        },
                    ),
                ),
                None => None,
            },
            additional_text_edits: match &self.additional_text_edits {
                Some(edits) => Some(duplicate_edits(edits)),
                None => None,
            },
            has_data: self.has_data,
        }
    }
}

/// How grave a diagnostic is.
#[derive(Clone, Copy, Debug, PartialEq, Eq, Structural)]
pub enum DiagnosticSeverity {
    Error,
    Warning,
    Information,
    Hint,
}

/// What the server found at a range of a file.
#[derive(Debug)]
pub struct Diagnostic {
    pub range: Range,
    pub severity: Option<DiagnosticSeverity>,
    pub message: String,
}

} // verus!
