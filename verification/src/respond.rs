//! What the editor makes of the answers of the language server, and how a
//! view is saved.

use vstd::prelude::*;
use crate::command::{
    ActionView, EditorAction, FocusCommand, ProxyRequest, RequestView, Target, actions_view,
    no_actions, push_action,
};
use crate::data::{BufferContent, BufferContentView};
use crate::editor::{LapceEditorBufferData, Touched};
use crate::error::EditorError;
use crate::data::LapceMainSplitData;
use crate::lsp::{CodeActionOrCommand, CompletionItem, Location, TextEdit};
use crate::navigate::open_doc_index;
use crate::nav::Position;

verus! {

/// An error that the language server answered with.
#[derive(Debug)]
pub struct RequestError {
    pub code: i64,
    pub message: String,
}

/// The answer to a request for the definition of a name.
#[derive(Debug)]
pub enum GotoDefinitionResponse {
    Scalar(Location),
    Array(Vec<Location>),
    /// Links, which the editor does not follow.
    Link,
}

/// How a request to format a document ended.
#[derive(Debug)]
pub enum FormatOutcome {
    Formatted(Vec<TextEdit>),
    Failed,
    /// The answer did not come within the time that a save waits for it.
    TimedOut,
}

/// What is done with a document that is to be saved.
#[derive(Debug)]
pub enum SaveStep {
    /// Make the edits, then save.
    FormatAndSave(Vec<TextEdit>),
    /// Save the text as it is.
    Save,
}

/// What is done with a document that is to be saved, once the request to
/// format it has ended: a document that is to be formatted on saving is
/// formatted where the edits came in time; in every other case it is saved
/// as it is.
pub fn after_format(format_on_save: bool, outcome: FormatOutcome) -> (r: SaveStep)
    ensures
        match (format_on_save, outcome) {
            (true, FormatOutcome::Formatted(edits)) => r == SaveStep::FormatAndSave(edits),
            _ => r is Save,
        },
{
    if !format_on_save {
        return SaveStep::Save;
    }
    match outcome {
        FormatOutcome::Formatted(edits) => SaveStep::FormatAndSave(edits),
        FormatOutcome::Failed => SaveStep::Save,
        FormatOutcome::TimedOut => SaveStep::Save,
    }
}

/// The location that an answer names first, if it names one.
pub open spec fn first_location(resp: GotoDefinitionResponse) -> Option<Location> {
    match resp {
        GotoDefinitionResponse::Scalar(location) => Some(location),
        GotoDefinitionResponse::Array(locations) => if locations@.len() > 0 {
            Some(locations@[0])
        } else {
            None
        },
        GotoDefinitionResponse::Link => None,
    }
}

/// What the answer to a request for a definition asks for. Where the
/// definition is the place that was asked from, the references to the name
/// are asked for; else the view goes to the definition. An answer that is
/// an error or names no location asks for nothing.
pub fn definition_response(
    editor_view_id: u64,
    offset: usize,
    buffer_id: u64,
    position: Position,
    start_position: Position,
    result: Result<GotoDefinitionResponse, RequestError>,
) -> (r: Vec<EditorAction>)
    ensures
        actions_view(r@) == (match result {
            Ok(resp) => match first_location(resp) {
                Some(location) => if location.range.start == start_position {
                    seq![
                        ActionView::Request(
                            RequestView::GetReferences { offset, buffer_id, position },
                        ),
                    ]
                } else {
                    seq![
                        ActionView::GotoDefinition {
                            editor_view_id,
                            offset,
                            uri: location.uri@,
                            position: location.range.start,
                        },
                    ]
                },
                None => Seq::empty(),
            },
            Err(_) => Seq::empty(),
        }),
{
    let mut actions = no_actions();
    let resp = match result {
        Ok(resp) => resp,
        Err(_) => {
            return actions;
        },
    };
    let location = match resp {
        GotoDefinitionResponse::Scalar(location) => Some(location),
        GotoDefinitionResponse::Array(mut locations) => {
            if locations.len() > 0 {
                Some(locations.remove(0))
            } else {
                None
            }
        },
        GotoDefinitionResponse::Link => None,
    };
    if let Some(location) = location {
        let start = location.range.start;
        if start.line == start_position.line && start.character == start_position.character {
            push_action(
                &mut actions,
                EditorAction::Request(ProxyRequest::GetReferences { offset, buffer_id, position }),
            );
        } else {
            push_action(
                &mut actions,
                EditorAction::GotoDefinition {
                    editor_view_id,
                    offset,
                    uri: location.uri,
                    position: start,
                },
            );
        }
        assert(actions_view(actions@) =~= seq![actions@[0]@]);
    }
    actions
}

/// What the answer to a request for the definition of a type asks for:
/// the view goes to a single location; of several the user is to choose.
pub fn type_definition_response(
    editor_view_id: u64,
    offset: usize,
    result: Result<GotoDefinitionResponse, RequestError>,
) -> (r: Vec<EditorAction>)
    ensures
        actions_view(r@) == (match result {
            Ok(GotoDefinitionResponse::Scalar(location)) => seq![
                ActionView::GotoDefinition {
                    editor_view_id,
                    offset,
                    uri: location.uri@,
                    position: location.range.start,
                },
            ],
            Ok(GotoDefinitionResponse::Array(locations)) => if locations@.len() == 1 {
                seq![
                    ActionView::GotoDefinition {
                        editor_view_id,
                        offset,
                        uri: locations@[0].uri@,
                        position: locations@[0].range.start,
                    },
                ]
            } else if locations@.len() > 1 {
                seq![ActionView::PaletteReferences { offset, locations: locations@ }]
            } else {
                Seq::empty()
            },
            _ => Seq::empty(),
        }),
{
    let mut actions = no_actions();
    match result {
        Ok(GotoDefinitionResponse::Scalar(location)) => {
            push_action(
                &mut actions,
                EditorAction::GotoDefinition {
                    editor_view_id,
                    offset,
                    position: location.range.start,
                    uri: location.uri,
                },
            );
            assert(actions_view(actions@) =~= seq![actions@[0]@]);
        },
        Ok(GotoDefinitionResponse::Array(mut locations)) => {
            let len = locations.len();
            if len == 1 {
                let location = locations.remove(0);
                push_action(
                    &mut actions,
                    EditorAction::GotoDefinition {
                        editor_view_id,
                        offset,
                        position: location.range.start,
                        uri: location.uri,
                    },
                );
                assert(actions_view(actions@) =~= seq![actions@[0]@]);
            } else if len > 1 {
                push_action(&mut actions, EditorAction::PaletteReferences { offset, locations });
                assert(actions_view(actions@) =~= seq![actions@[0]@]);
            }
        },
        _ => {},
    }
    actions
}

/// What the answer to a request for the references to a name asks for:
/// the view goes to a single reference; of several the user is to choose.
/// An answer that is an error is handed on as one.
pub fn process_get_references(offset: usize, result: Result<Vec<Location>, RequestError>) -> (r:
    Result<Vec<EditorAction>, EditorError>)
    ensures
        match result {
            Err(_) => r == Err::<Vec<EditorAction>, EditorError>(EditorError::RequestFailed),
            Ok(locations) => r matches Ok(actions) && actions_view(actions@) == if locations@.len()
                == 0 {
                Seq::empty()
            } else if locations@.len() == 1 {
                seq![
                    ActionView::JumpToLspUri {
                        uri: locations@[0].uri@,
                        position: locations@[0].range.start,
                    },
                ]
            } else {
                seq![ActionView::PaletteReferences { offset, locations: locations@ }]
            },
        },
{
    let mut locations = match result {
        Ok(locations) => locations,
        Err(_) => {
            return Err(EditorError::RequestFailed);
        },
    };
    let mut actions = no_actions();
    if locations.len() == 0 {
        return Ok(actions);
    }
    if locations.len() == 1 {
        // If there's only a single location then just jump directly to it
        let location = locations.remove(0);
        push_action(
            &mut actions,
            EditorAction::JumpToLspUri { position: location.range.start, uri: location.uri },
        );
    } else {
        push_action(&mut actions, EditorAction::PaletteReferences { offset, locations });
    }
    assert(actions_view(actions@) =~= seq![actions@[0]@]);
    Ok(actions)
}

impl LapceEditorBufferData {
    /// What saving the view asks for. A file that is as it was saved
    /// needs no saving; the view closes if it is to. Any other file is
    /// formatted and saved by the program around the editor. A text
    /// without a file is noted as the text to save, and the user is asked
    /// for a name.
    pub open spec fn save_step(&self, exit: bool) -> Seq<ActionView> {
        match self.doc.content@ {
            BufferContentView::File(path) => if self.doc.buffer.rev == self.doc.buffer.saved_rev {
                if exit {
                    seq![
                        ActionView::Command {
                            cmd: FocusCommand::SplitClose,
                            target: Target::Widget(self.editor.view_id),
                        },
                    ]
                } else {
                    Seq::empty()
                }
            } else {
                seq![
                    ActionView::Request(
                        RequestView::FormatAndSave {
                            buffer_id: self.doc.id,
                            path,
                            rev: self.doc.buffer.rev,
                            format_on_save: self.config.format_on_save,
                            exit: if exit {
                                Some(self.editor.view_id)
                            } else {
                                None
                            },
                            tab_id: self.main_split.tab_id,
                        },
                    ),
                ]
            },
            BufferContentView::Scratch(..) => seq![ActionView::ShowSavePanel],
            _ => Seq::empty(),
        }
    }

    /// Saves the view.
    pub fn save(&mut self, exit: bool) -> (r: Vec<EditorAction>)
        ensures
            actions_view(r@) == old(self).save_step(exit),
            Self::only_touched(*old(self), *final(self), Touched::none().main_split()),
            final(self).main_split.tab_id == old(self).main_split.tab_id,
            final(self).main_split.active == old(self).main_split.active,
            final(self).main_split.editors == old(self).main_split.editors,
            final(self).main_split.open_docs == old(self).main_split.open_docs,
            final(self).main_split.register == old(self).main_split.register,
            final(self).main_split.pending_edits == old(self).main_split.pending_edits,
            match old(self).doc.content@ {
                BufferContentView::Scratch(..) => final(self).main_split.current_save_as matches Some(
                    (content, view_id, closes),
                ) && content == old(self).doc.content && view_id == old(self).editor.view_id
                    && closes == exit,
                _ => final(self).main_split.current_save_as == old(self).main_split.current_save_as,
            },
    {
        let mut actions = no_actions();
        if self.doc.buffer.is_pristine() && self.doc.content.is_file() {
            if exit {
                push_action(
                    &mut actions,
                    EditorAction::Command {
                        cmd: FocusCommand::SplitClose,
                        target: Target::Widget(self.editor.view_id),
                    },
                );
                assert(actions_view(actions@) =~= seq![actions@[0]@]);
            }
            return actions;
        }
        match &self.doc.content {
            BufferContent::File(path) => {
                push_action(
                    &mut actions,
                    EditorAction::Request(
                        ProxyRequest::FormatAndSave {
                            buffer_id: self.doc.id,
                            path: path.clone(),
                            rev: self.doc.rev(),
                            format_on_save: self.config.format_on_save,
                            exit: if exit {
                                Some(self.editor.view_id)
                            } else {
                                None
                            },
                            tab_id: self.main_split.tab_id,
                        },
                    ),
                );
                assert(actions_view(actions@) =~= seq![actions@[0]@]);
            },
            BufferContent::Scratch(..) => {
                let content = self.doc.content.clone();
                self.main_split.current_save_as = Some((content, self.editor.view_id, exit));
                push_action(&mut actions, EditorAction::ShowSavePanel);
                assert(actions_view(actions@) =~= seq![actions@[0]@]);
            },
            _ => {},
        }
        actions
    }
}


impl LapceEditorBufferData {
    /// Whether an answer that was asked for at revision `rev` of the
    /// buffer `buffer_id`, with the cursor at `offset`, still fits the view.
    pub open spec fn still_fits(&self, buffer_id: u64, rev: u64, offset: usize) -> bool {
        self.doc.id == buffer_id && self.doc.buffer.rev == rev && self.editor.cursor.mode@.offset()
            == offset
    }

    /// Takes a completion item that came back whole from the server. It is
    /// applied only where nothing has changed since it was sent; else it is
    /// thrown away. Returns whether it was applied.
    pub fn resolve_completion(
        &mut self,
        buffer_id: u64,
        rev: u64,
        offset: usize,
        item: &CompletionItem,
    ) -> (r: Result<bool, EditorError>)
        requires
            old(self).wf(),
        ensures
            final(self).wf(),
            if old(self).still_fits(buffer_id, rev, offset) {
                match r {
                    Ok(applied) => applied && Self::apply_item_post(
                        *old(self),
                        *final(self),
                        *item,
                        Ok(()),
                    ),
                    Err(e) => Self::apply_item_post(*old(self), *final(self), *item, Err(e)),
                }
            } else {
                r == Ok::<bool, EditorError>(false) && *final(self) == *old(self)
            },
    {
        if self.doc.id != buffer_id || self.doc.rev() != rev || self.editor.cursor.offset() != offset {
            return Ok(false);
        }
        match self.apply_completion_item(item) {
            Ok(()) => Ok(true),
            Err(e) => Err(e),
        }
    }

    /// Takes the code actions that the server offers for the word at
    /// `offset`, asked for at revision `rev`. They are kept only where the
    /// text has not changed since. Returns whether they were kept.
    pub fn update_code_actions(&mut self, rev: u64, offset: usize, actions: Vec<CodeActionOrCommand>) -> (kept:
        bool)
        ensures
            kept == (old(self).doc.buffer.rev == rev),
            !kept ==> *final(self) == *old(self),
            kept ==> {
                &&& Self::only_touched(*old(self), *final(self), Touched::none().doc())
                &&& final(self).doc.code_actions@ == old(self).doc.code_actions@.push((offset, actions))
                &&& final(self).doc.buffer == old(self).doc.buffer
                &&& final(self).doc.id == old(self).doc.id
                &&& final(self).doc.content == old(self).doc.content
                &&& final(self).doc.loaded == old(self).doc.loaded
                &&& final(self).doc.diagnostics == old(self).doc.diagnostics
                &&& final(self).doc.histories == old(self).doc.histories
            },
    {
        if self.doc.rev() != rev {
            return false;
        }
        self.doc.code_actions.push((offset, actions));
        true
    }
}

impl LapceMainSplitData {
    /// Whether the edits that a request to format the file `path` at
    /// revision `rev` came back with are to be made: the request ended
    /// with edits, the file is open, and its text has not changed since.
    pub open spec fn format_fits(&self, path: Seq<char>, rev: u64, outcome: FormatOutcome) -> bool {
        outcome is Formatted && (open_doc_index(self.open_docs@, path, 0) matches Some(d)
            && self.open_docs@[d].buffer.rev == rev)
    }

    /// Takes the end of a request to format the file `path`.
    pub fn document_format(&mut self, path: &str, rev: u64, outcome: &FormatOutcome) -> (r: Vec<
        EditorAction,
    >)
        requires
            old(self).wf(),
        ensures
            final(self).wf(),
            if old(self).format_fits(path@, rev, *outcome) {
                Self::code_action_post(
                    *old(self),
                    *final(self),
                    path@,
                    outcome->Formatted_0@,
                    actions_view(r@),
                )
            } else {
                *final(self) == *old(self) && actions_view(r@) == Seq::<ActionView>::empty()
            },
    {
        let edits = match outcome {
            FormatOutcome::Formatted(edits) => edits,
            _ => {
                return no_actions();
            },
        };
        let fresh = match self.open_doc(path) {
            Some(d) => self.open_docs[d].rev() == rev,
            None => false,
        };
        if !fresh {
            return no_actions();
        }
        self.apply_code_action(path, edits)
    }
}


/// The item to apply once the server was asked to fill it in: the item
/// that came back, or, where the server failed, the item as it was sent.
pub fn resolved_item(unresolved: CompletionItem, result: Result<CompletionItem, RequestError>) -> (r:
    CompletionItem)
    ensures
        r == (match result {
            Ok(item) => item,
            Err(_) => unresolved,
        }),
{
    match result {
        Ok(item) => item,
        Err(_) => unresolved,
    }
}

} // verus!
