//! What the view asks of the language server while the user types and
//! points: completions, hovers and code actions.

use vstd::prelude::*;
use crate::buffer::{line_begin, newlines, utf16_len, word_end, word_start};
use crate::command::{
    ActionView, EditorAction, LogLevel, LogMessage, ProxyRequest, RequestView, actions_view,
    no_actions, push_action,
};
use crate::completion::{
    CompletionData, CompletionRequestView, CompletionStatus, cached_inputs, is_cached,
};
use crate::cursor::Mode;
use crate::data::{BufferContent, HoverRequest, HoverStatus, code_actions_index};
use crate::editor::{LapceEditorBufferData, Touched};
use crate::nav::Position;

verus! {

/// The position of `offset` in `text` as a language server counts it,
/// where it has one.
pub open spec fn offset_position(text: Seq<u8>, offset: usize) -> Option<Position> {
    let line = newlines(text, offset as int);
    let units = utf16_len(text, line_begin(text, offset as int), offset as int);
    if offset <= text.len() && line <= u32::MAX && units <= u32::MAX {
        Some(Position { line: line as u32, character: units as u32 })
    } else {
        None
    }
}

/// What a keystroke does to the completion.
#[derive(PartialEq, Eq, Structural)]
pub enum CompletionCase {
    /// The completion is ended.
    Cancel,
    /// Nothing happens.
    Ignore,
    /// The session goes on or a new one starts.
    Keystroke,
}

impl LapceEditorBufferData {
    /// The offset at which the word at the cursor starts.
    pub open spec fn word_start_at_cursor(&self) -> usize {
        word_start(self.doc.buffer@, self.editor.cursor.mode@.offset() as int) as usize
    }

    /// The offset at which the word at the cursor ends.
    pub open spec fn word_end_at_cursor(&self) -> usize {
        word_end(self.doc.buffer@, self.editor.cursor.mode@.offset() as int) as usize
    }

    /// The word at the cursor.
    pub open spec fn word_at_cursor(&self) -> Seq<u8> {
        let n = self.doc.buffer@.len() as int;
        let end = vstd::math::min(self.word_end_at_cursor() as int, n);
        self.doc.buffer@.subrange(vstd::math::min(self.word_start_at_cursor() as int, end), end)
    }

    /// Whether a dot or a colon stands in front of the word at the cursor.
    pub open spec fn trigger_before_word(&self) -> bool {
        let start = self.word_start_at_cursor();
        0 < start <= self.doc.buffer@.len() && (self.doc.buffer@[start - 1] == 46
            || self.doc.buffer@[start - 1] == 58)
    }

    /// What a keystroke does to the completion: it ends outside insert
    /// mode; nothing happens in a document that is not loaded or no file;
    /// it ends where nothing is typed of a word, no dot or colon stands in
    /// front, and the user did not ask for a completion.
    pub open spec fn completion_case(&self, display_if_empty_input: bool) -> CompletionCase {
        if self.editor.cursor.mode@.mode() != Mode::Insert {
            CompletionCase::Cancel
        } else if !self.doc.loaded || !self.doc.content@.is_file() {
            CompletionCase::Ignore
        } else if !display_if_empty_input && self.word_at_cursor().len() == 0
            && !self.trigger_before_word() {
            CompletionCase::Cancel
        } else {
            CompletionCase::Keystroke
        }
    }

    /// The requests of a keystroke.
    pub open spec fn completion_requests(&self) -> Seq<CompletionRequestView> {
        self.completion.keystroke_requests(
            self.doc.id,
            self.word_start_at_cursor(),
            self.word_at_cursor(),
            offset_position(self.doc.buffer@, self.word_start_at_cursor()),
            offset_position(self.doc.buffer@, self.editor.cursor.mode@.offset()),
        )
    }

    /// What a keystroke asks for: the request for the empty input and,
    /// where something is typed, the request for the input typed, each in
    /// its place; where a session goes on and the position of a request is
    /// not known, an entry for the log in the place of the request.
    pub open spec fn completion_actions(&self) -> Seq<ActionView> {
        let start = self.word_start_at_cursor();
        let offset = self.editor.cursor.mode@.offset();
        let input = self.word_at_cursor();
        let reuse = self.completion.reused_by(self.doc.id, start);
        let inputs = cached_inputs(self.completion.input_items@);
        let requests = self.completion_requests();
        let wants_empty = !reuse || !is_cached(inputs, Seq::empty());
        let wants_input = input.len() > 0 && (!reuse || !is_cached(inputs, input));
        let first = if !wants_empty {
            Seq::empty()
        } else if offset_position(self.doc.buffer@, start) is Some {
            seq![ActionView::Request(RequestView::GetCompletion(requests[0]))]
        } else if reuse {
            seq![
                ActionView::Log {
                    level: LogLevel::Error,
                    message: LogMessage::OffsetWithoutPosition { offset: start },
                },
            ]
        } else {
            Seq::empty()
        };
        let second = if !wants_input {
            Seq::empty()
        } else if offset_position(self.doc.buffer@, offset) is Some {
            seq![ActionView::Request(RequestView::GetCompletion(requests.last()))]
        } else if reuse {
            seq![
                ActionView::Log {
                    level: LogLevel::Error,
                    message: LogMessage::OffsetWithoutPosition { offset },
                },
            ]
        } else {
            Seq::empty()
        };
        first + second
    }

    /// What a keystroke makes of the completion of the state `before`,
    /// and what it asks for.
    pub open spec fn completion_effect(
        before: Self,
        after: CompletionData,
        display_if_empty_input: bool,
        actions: Seq<ActionView>,
    ) -> bool {
        &&& after.id == before.completion.id
        &&& after.page_size == before.completion.page_size
        &&& match before.completion_case(display_if_empty_input) {
            CompletionCase::Ignore => after == before.completion && actions == Seq::<
                ActionView,
            >::empty(),
            CompletionCase::Cancel => {
                &&& actions == Seq::<ActionView>::empty()
                &&& after.status == CompletionStatus::Inactive
                &&& after.request_id == before.completion.request_id
                &&& before.completion.status == CompletionStatus::Inactive ==> after
                    == before.completion
                &&& before.completion.status != CompletionStatus::Inactive
                    ==> after.input_items@.len() == 0 && after.input@.len() == 0
            },
            CompletionCase::Keystroke => {
                let reuse = before.completion.reused_by(
                    before.doc.id,
                    before.word_start_at_cursor(),
                );
                &&& actions == before.completion_actions()
                &&& after.input@ == before.word_at_cursor()
                &&& after.buffer_id == before.doc.id
                &&& after.offset == before.word_start_at_cursor()
                &&& reuse ==> after.status == before.completion.status && after.request_id
                    == before.completion.request_id && after.input_items
                    == before.completion.input_items && after.index == 0
                &&& !reuse ==> after.status == CompletionStatus::Started && after.request_id
                    == before.completion.next_request_id() && after.input_items@.len() == 0
                    && after.index == before.completion.index
            },
        }
    }

    /// Update the displayed autocompletion box
    /// Sends a request to the LSP for completion information
    pub fn update_completion(&mut self, display_if_empty_input: bool) -> (r: Vec<EditorAction>)
        ensures
            Self::only_touched(*old(self), *final(self), Touched::none().completion()),
            Self::completion_effect(
                *old(self),
                final(self).completion,
                display_if_empty_input,
                actions_view(r@),
            ),
    {
        match self.get_mode() {
            Mode::Insert => {},
            _ => {
                self.cancel_completion();
                return no_actions();
            },
        }
        if !self.doc.loaded() {
            return no_actions();
        }
        if !self.doc.content.is_file() {
            return no_actions();
        }
        let offset = self.editor.cursor.offset();
        let start_offset = self.doc.buffer.prev_code_boundary(offset);
        let end_offset = self.doc.buffer.next_code_boundary(offset);
        let input = self.doc.buffer.slice(start_offset, end_offset);
        let n = self.doc.buffer.len();
        let trigger = start_offset > 0 && start_offset <= n && (self.doc.buffer.text[start_offset
            - 1] == 46 || self.doc.buffer.text[start_offset - 1] == 58);
        if !display_if_empty_input && input.len() == 0 && !trigger {
            self.cancel_completion();
            return no_actions();
        }
        let start_pos = self.doc.buffer.offset_to_position(start_offset);
        let pos = self.doc.buffer.offset_to_position(offset);
        let empty: Vec<u8> = Vec::new();
        let reuse = self.completion.status != CompletionStatus::Inactive && self.completion.offset
            == start_offset && self.completion.buffer_id == self.doc.id;
        let wants_empty = !reuse || !self.completion.contains_key(&empty);
        let wants_input = input.len() > 0 && (!reuse || !self.completion.contains_key(&input));
        let mut requests = self.completion.keystroke(
            self.doc.id,
            start_offset,
            input,
            start_pos,
            pos,
        );
        let ghost wanted = old(self).completion_requests();
        assert(crate::completion::requests_view(requests@) == wanted);
        let second = if wants_input && pos.is_some() {
            assert(requests@.last()@ == wanted.last());
            requests.pop()
        } else {
            None
        };
        let first = if wants_empty && start_pos.is_some() {
            assert(requests@.last()@ == wanted[0]);
            requests.pop()
        } else {
            None
        };
        let mut actions = no_actions();
        if wants_empty {
            match first {
                Some(request) => {
                    push_action(&mut actions, EditorAction::Request(ProxyRequest::GetCompletion(request)));
                },
                None => {
                    if reuse && start_pos.is_none() {
                        push_action(
                            &mut actions,
                            EditorAction::Log {
                                level: LogLevel::Error,
                                message: LogMessage::OffsetWithoutPosition { offset: start_offset },
                            },
                        );
                    }
                },
            }
        }
        if wants_input {
            match second {
                Some(request) => {
                    push_action(&mut actions, EditorAction::Request(ProxyRequest::GetCompletion(request)));
                },
                None => {
                    if reuse && pos.is_none() {
                        push_action(
                            &mut actions,
                            EditorAction::Log {
                                level: LogLevel::Error,
                                message: LogMessage::OffsetWithoutPosition { offset },
                            },
                        );
                    }
                },
            }
        }
        assert(actions_view(actions@) =~= old(self).completion_actions());
        actions
    }

    /// Whether the hover that is shown is the hover for the word at
    /// `offset`, with the pointer in the view (`is_inside`) and in what is
    /// scrolled into sight (`within_scroll`). A hover that is not is ended.
    pub open spec fn hover_stays(&self, offset: usize, is_inside: bool, within_scroll: bool) -> bool {
        self.hover.status != HoverStatus::Inactive && is_inside && within_scroll && self.doc.id
            == self.hover.buffer_id && word_start(self.doc.buffer@, offset as int)
            == self.hover.offset
    }

    /// return true if there's existing hover and it's not changed
    pub fn check_hover(&mut self, offset: usize, is_inside: bool, within_scroll: bool) -> (r: bool)
        ensures
            r == old(self).hover_stays(offset, is_inside, within_scroll),
            Self::only_touched(*old(self), *final(self), Touched::none().hover()),
            r || old(self).hover.status == HoverStatus::Inactive ==> final(self).hover == old(self).hover,
            !r ==> final(self).hover.status == HoverStatus::Inactive,
            !r && old(self).hover.status != HoverStatus::Inactive ==> final(self).hover.items@.len()
                == 0,
            final(self).hover.request_id == old(self).hover.request_id,
            final(self).hover.id == old(self).hover.id,
    {
        if self.hover.status != HoverStatus::Inactive {
            if !is_inside || !within_scroll {
                self.hover.cancel();
                return false;
            }
            let start_offset = self.doc.buffer.prev_code_boundary(offset);
            if self.doc.id == self.hover.buffer_id && start_offset == self.hover.offset {
                return true;
            }
            self.hover.cancel();
            return false;
        }
        false
    }

    /// Whether a hover for the word at `offset` is to be asked for: the
    /// document is a loaded file, there is a word, and no hover for it is
    /// going on.
    pub open spec fn hover_wanted(&self, offset: usize) -> bool {
        let start = word_start(self.doc.buffer@, offset as int);
        let end = word_end(self.doc.buffer@, offset as int);
        let n = self.doc.buffer@.len() as int;
        &&& self.doc.loaded
        &&& self.doc.content@.is_file()
        &&& vstd::math::min(start, vstd::math::min(end, n)) < vstd::math::min(end, n)
        &&& !(self.hover.status != HoverStatus::Inactive && self.hover.offset == start
            && self.hover.buffer_id == self.doc.id)
    }

    /// Starts a hover for the word at `offset`.
    pub fn update_hover(&mut self, offset: usize) -> (r: Vec<EditorAction>)
        ensures
            Self::only_touched(*old(self), *final(self), Touched::none().hover()),
            !old(self).hover_wanted(offset) ==> final(self).hover == old(self).hover
                && actions_view(r@) == Seq::<ActionView>::empty(),
            old(self).hover_wanted(offset) ==> {
                let start = word_start(old(self).doc.buffer@, offset as int) as usize;
                &&& final(self).hover.buffer_id == old(self).doc.id
                &&& final(self).hover.editor_view_id == old(self).editor.view_id
                &&& final(self).hover.offset == start
                &&& final(self).hover.status == HoverStatus::Started
                &&& final(self).hover.items@.len() == 0
                &&& final(self).hover.request_id == old(self).hover.next_request_id()
                &&& final(self).hover.id == old(self).hover.id
                &&& actions_view(r@) == seq![
                    match offset_position(old(self).doc.buffer@, start) {
                        Some(position) => ActionView::Request(
                            RequestView::GetHover(
                                HoverRequest {
                                    request_id: old(self).hover.next_request_id(),
                                    buffer_id: old(self).doc.id,
                                    position,
                                    hover_id: old(self).hover.id,
                                },
                            ),
                        ),
                        None => ActionView::Log {
                            level: LogLevel::Error,
                            message: LogMessage::OffsetWithoutPosition { offset: start },
                        },
                    },
                ]
            },
    {
        if !self.doc.loaded() {
            return no_actions();
        }
        if !self.doc.content.is_file() {
            return no_actions();
        }
        let start_offset = self.doc.buffer.prev_code_boundary(offset);
        let end_offset = self.doc.buffer.next_code_boundary(offset);
        let input = self.doc.buffer.slice(start_offset, end_offset);
        if input.len() == 0 {
            return no_actions();
        }
        if self.hover.status != HoverStatus::Inactive && self.hover.offset == start_offset
            && self.hover.buffer_id == self.doc.id {
            // We're hovering over the same location, but are trying to update
            return no_actions();
        }
        self.hover.buffer_id = self.doc.id;
        self.hover.editor_view_id = self.editor.view_id;
        self.hover.offset = start_offset;
        self.hover.status = HoverStatus::Started;
        self.hover.items = Vec::new();
        self.hover.request_id = if self.hover.request_id < usize::MAX {
            self.hover.request_id + 1
        } else {
            0
        };
        let mut actions = no_actions();
        match self.doc.buffer.offset_to_position(start_offset) {
            Some(position) => {
                push_action(
                    &mut actions,
                    EditorAction::Request(
                        ProxyRequest::GetHover(
                            HoverRequest {
                                request_id: self.hover.request_id,
                                buffer_id: self.doc.id,
                                position,
                                hover_id: self.hover.id,
                            },
                        ),
                    ),
                );
            },
            None => {
                push_action(
                    &mut actions,
                    EditorAction::Log {
                        level: LogLevel::Error,
                        message: LogMessage::OffsetWithoutPosition { offset: start_offset },
                    },
                );
            },
        }
        assert(actions_view(actions@) =~= seq![actions@[0]@]);
        actions
    }

    /// What is to be done to learn the code actions for the word at the
    /// cursor: nothing where the document is no loaded file or the actions
    /// are known; else the server is asked, unless the start of the word
    /// has no position, which goes to the log.
    pub open spec fn code_actions_step(&self) -> Seq<ActionView> {
        let prev = self.word_start_at_cursor();
        if !self.doc.loaded || !self.doc.content@.is_file() || code_actions_index(
            self.doc.code_actions@,
            prev,
            0,
        ) is Some {
            Seq::empty()
        } else {
            match offset_position(self.doc.buffer@, prev) {
                Some(position) => seq![
                    ActionView::Request(
                        RequestView::GetCodeActions {
                            buffer_id: self.doc.id,
                            position,
                            path: self.doc.content@->File_0,
                            rev: self.doc.buffer.rev,
                            offset: prev,
                        },
                    ),
                ],
                None => seq![
                    ActionView::Log {
                        level: LogLevel::Error,
                        message: LogMessage::OffsetWithoutPosition { offset: prev },
                    },
                ],
            }
        }
    }

    /// Asks for the code actions for the word at the cursor.
    pub fn get_code_actions(&self) -> (r: Vec<EditorAction>)
        ensures
            actions_view(r@) == self.code_actions_step(),
    {
        if !self.doc.loaded() {
            return no_actions();
        }
        if !self.doc.content.is_file() {
            return no_actions();
        }
        let mut actions = no_actions();
        if let BufferContent::File(path) = &self.doc.content {
            let offset = self.editor.cursor.offset();
            let prev_offset = self.doc.buffer.prev_code_boundary(offset);
            if self.doc.code_actions_at(prev_offset).is_none() {
                match self.doc.buffer.offset_to_position(prev_offset) {
                    Some(position) => {
                        push_action(
                            &mut actions,
                            EditorAction::Request(
                                ProxyRequest::GetCodeActions {
                                    buffer_id: self.doc.id,
                                    position,
                                    path: path.clone(),
                                    rev: self.doc.rev(),
                                    offset: prev_offset,
                                },
                            ),
                        );
                    },
                    None => {
                        push_action(
                            &mut actions,
                            EditorAction::Log {
                                level: LogLevel::Error,
                                message: LogMessage::OffsetWithoutPosition { offset: prev_offset },
                            },
                        );
                    },
                }
                assert(actions_view(actions@) =~= seq![actions@[0]@]);
            }
        }
        actions
    }
}

} // verus!
