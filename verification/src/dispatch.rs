//! The commands of the focus: each is run on the view that has it.

use vstd::prelude::*;
use crate::apply::placeholders_added;
use crate::assist::offset_position;
use crate::buffer::{forward_chars, line_start, newlines, word_end, word_start};
use crate::command::{
    ActionView, CommandExecuted, CommandKind, EditorAction, EnsureVisiblePosition, FocusCommand,
    LapceCommand, LogLevel, LogMessage, Modifiers, MultiSelectionCommand, ProxyRequest,
    RequestView, SplitCommand, SplitDirection, SplitMoveDirection, Target, UiCommand,
    actions_view, item_view, no_actions, push_action,
};
use crate::completion::{CompletionData, CompletionStatus, page_step, step_index};
use crate::cursor::{CursorMode, CursorModeView, Mode};
use crate::data::{
    BufferContent, BufferContentView, EditorView, HoverStatus, InlineFindDirection,
    LapceEditorData,
};
use crate::editor::{LapceEditorBufferData, Touched, find_tab, tab_at};
use crate::find::{Find, search_result};
use crate::movement::Movement;
use crate::navigate::clamp_usize;
use crate::selection::{SelRegion, Selection};
use crate::snippet::Tab;

verus! {

/// The least number of lines of height `height` that hold `pixels`
/// pixels; none where there are no pixels or the height is not known.
pub open spec fn lines_for(pixels: int, height: int) -> int {
    if pixels <= 0 || height <= 0 {
        0
    } else {
        (pixels + height - 1) / height
    }
}

/// The least number of lines of height `height` that hold `pixels` pixels.
pub fn lines_needed(pixels: i64, height: u32) -> (r: usize)
    ensures
        r == clamp_usize(lines_for(pixels as int, height as int)),
{
    if pixels <= 0 || height == 0 {
        0
    } else {
        crate::navigate::to_usize((pixels as i128 + height as i128 - 1) / (height as i128))
    }
}

/// Whether the bytes hold a line break.
pub open spec fn has_newline(bytes: Seq<u8>) -> bool {
    exists|i: int| 0 <= i < bytes.len() && bytes[i] == 10
}

/// Whether the bytes hold a line break.
pub fn contains_newline(bytes: &Vec<u8>) -> (r: bool)
    ensures
        r == has_newline(bytes@),
{
    let mut i: usize = 0;
    while i < bytes.len()
        invariant
            i <= bytes@.len(),
            forall|k: int| 0 <= k < i ==> bytes@[k] != 10,
        decreases bytes@.len() - i,
    {
        if bytes[i] == 10 {
            return true;
        }
        i += 1;
    }
    false
}

impl LapceEditorBufferData {
    /// What the commands ask for that change nothing in the view.
    pub open spec fn plain_actions(&self, cmd: FocusCommand) -> Seq<ActionView> {
        let view = Target::Widget(self.editor.view_id);
        match cmd {
            FocusCommand::SplitVertical => seq![
                ActionView::Split(
                    SplitCommand::Split {
                        view_id: self.editor.view_id,
                        direction: SplitDirection::Vertical,
                    },
                ),
            ],
            FocusCommand::SplitHorizontal => seq![
                ActionView::Split(
                    SplitCommand::Split {
                        view_id: self.editor.view_id,
                        direction: SplitDirection::Horizontal,
                    },
                ),
            ],
            FocusCommand::SplitExchange => match self.editor.tab_id {
                Some(tab_id) => seq![ActionView::Split(SplitCommand::Exchange { tab_id })],
                None => Seq::empty(),
            },
            FocusCommand::SplitLeft => self.split_move(SplitMoveDirection::Left),
            FocusCommand::SplitRight => self.split_move(SplitMoveDirection::Right),
            FocusCommand::SplitUp => self.split_move(SplitMoveDirection::Up),
            FocusCommand::SplitDown => self.split_move(SplitMoveDirection::Down),
            FocusCommand::SplitClose => seq![
                ActionView::Split(SplitCommand::Close { view_id: self.view_id, force: false }),
            ],
            FocusCommand::ForceExit => seq![
                ActionView::Split(SplitCommand::Close { view_id: self.view_id, force: true }),
            ],
            FocusCommand::GlobalSearchRefresh => seq![
                ActionView::UpdateSearch {
                    pattern: self.doc.buffer@,
                    target: Target::Widget(self.main_split.tab_id),
                },
            ],
            FocusCommand::CenterOfWindow => seq![
                ActionView::Ui {
                    cmd: UiCommand::EnsureCursorPosition(EnsureVisiblePosition::CenterOfWindow),
                    target: view,
                },
            ],
            FocusCommand::TopOfWindow => seq![
                ActionView::Ui {
                    cmd: UiCommand::EnsureCursorPosition(EnsureVisiblePosition::TopOfWindow),
                    target: view,
                },
            ],
            FocusCommand::BottomOfWindow => seq![
                ActionView::Ui {
                    cmd: UiCommand::EnsureCursorPosition(EnsureVisiblePosition::BottomOfWindow),
                    target: view,
                },
            ],
            FocusCommand::ShowCodeActions => seq![
                ActionView::Ui {
                    cmd: UiCommand::ShowCodeActions,
                    target: Target::Widget(self.editor.editor_id),
                },
            ],
            FocusCommand::GotoDefinition => self.goto_definition_step(),
            FocusCommand::GotoTypeDefinition => self.goto_type_definition_step(),
            FocusCommand::NextError => self.next_error_step(),
            FocusCommand::NextDiff => self.next_diff_step(),
            FocusCommand::FormatDocument => match self.doc.content@ {
                BufferContentView::File(path) => seq![
                    ActionView::Request(
                        RequestView::GetDocumentFormatting {
                            buffer_id: self.doc.id,
                            path,
                            rev: self.doc.buffer.rev,
                            tab_id: self.main_split.tab_id,
                        },
                    ),
                ],
                _ => Seq::empty(),
            },
            _ => Seq::empty(),
        }
    }

    /// Whether a command changes nothing in the view.
    pub open spec fn is_plain(cmd: FocusCommand) -> bool {
        cmd == FocusCommand::SplitVertical || cmd == FocusCommand::SplitHorizontal || cmd
            == FocusCommand::SplitExchange || cmd == FocusCommand::SplitLeft || cmd
            == FocusCommand::SplitRight || cmd == FocusCommand::SplitUp || cmd
            == FocusCommand::SplitDown || cmd == FocusCommand::SplitClose || cmd
            == FocusCommand::ForceExit || cmd == FocusCommand::GlobalSearchRefresh || cmd
            == FocusCommand::CenterOfWindow || cmd == FocusCommand::TopOfWindow || cmd
            == FocusCommand::BottomOfWindow || cmd == FocusCommand::ShowCodeActions || cmd
            == FocusCommand::GotoDefinition || cmd == FocusCommand::GotoTypeDefinition || cmd
            == FocusCommand::NextError || cmd == FocusCommand::NextDiff || cmd
            == FocusCommand::FormatDocument
    }

    /// What moving the tab of the view asks for.
    pub open spec fn split_move(&self, direction: SplitMoveDirection) -> Seq<ActionView> {
        match self.editor.tab_id {
            Some(tab_id) => seq![ActionView::Split(SplitCommand::Move { tab_id, direction })],
            None => Seq::empty(),
        }
    }

    /// What going to the definition of the name at the cursor asks for:
    /// the server is asked, with the position of the cursor and that of
    /// the start of the name; an offset without a position goes to the log.
    pub open spec fn goto_definition_step(&self) -> Seq<ActionView> {
        let offset = self.editor.cursor.mode@.offset();
        let start = self.word_start_at_cursor();
        match offset_position(self.doc.buffer@, start) {
            None => seq![
                ActionView::Log {
                    level: LogLevel::Error,
                    message: LogMessage::OffsetWithoutPosition { offset: start },
                },
            ],
            Some(start_position) => match offset_position(self.doc.buffer@, offset) {
                None => seq![
                    ActionView::Log {
                        level: LogLevel::Error,
                        message: LogMessage::OffsetWithoutPosition { offset },
                    },
                ],
                Some(position) => seq![
                    ActionView::Request(
                        RequestView::GetDefinition {
                            offset,
                            buffer_id: self.doc.id,
                            position,
                            start_position,
                            editor_view_id: self.editor.view_id,
                        },
                    ),
                ],
            },
        }
    }

    /// What going to the definition of the type of the name at the cursor
    /// asks for.
    pub open spec fn goto_type_definition_step(&self) -> Seq<ActionView> {
        let offset = self.editor.cursor.mode@.offset();
        match offset_position(self.doc.buffer@, offset) {
            None => seq![
                ActionView::Log {
                    level: LogLevel::Error,
                    message: LogMessage::OffsetWithoutPosition { offset },
                },
            ],
            Some(position) => seq![
                ActionView::Request(
                    RequestView::GetTypeDefinition {
                        offset,
                        buffer_id: self.doc.id,
                        position,
                        editor_view_id: self.editor.view_id,
                    },
                ),
            ],
        }
    }

    /// Runs a command that changes nothing in the view.
    pub fn run_plain_command(&self, cmd: &FocusCommand) -> (r: Vec<EditorAction>)
        requires
            Self::is_plain(*cmd),
        ensures
            actions_view(r@) == self.plain_actions(*cmd),
    {
        let mut actions = no_actions();
        match cmd {
            FocusCommand::SplitVertical => {
                push_action(
                    &mut actions,
                    EditorAction::Split(
                        SplitCommand::Split {
                            view_id: self.editor.view_id,
                            direction: SplitDirection::Vertical,
                        },
                    ),
                );
            },
            FocusCommand::SplitHorizontal => {
                push_action(
                    &mut actions,
                    EditorAction::Split(
                        SplitCommand::Split {
                            view_id: self.editor.view_id,
                            direction: SplitDirection::Horizontal,
                        },
                    ),
                );
            },
            FocusCommand::SplitExchange => {
                if let Some(tab_id) = self.editor.tab_id {
                    push_action(&mut actions, EditorAction::Split(SplitCommand::Exchange { tab_id }));
                }
            },
            FocusCommand::SplitLeft => {
                if let Some(tab_id) = self.editor.tab_id {
                    push_action(
                        &mut actions,
                        EditorAction::Split(
                            SplitCommand::Move { tab_id, direction: SplitMoveDirection::Left },
                        ),
                    );
                }
            },
            FocusCommand::SplitRight => {
                if let Some(tab_id) = self.editor.tab_id {
                    push_action(
                        &mut actions,
                        EditorAction::Split(
                            SplitCommand::Move { tab_id, direction: SplitMoveDirection::Right },
                        ),
                    );
                }
            },
            FocusCommand::SplitUp => {
                if let Some(tab_id) = self.editor.tab_id {
                    push_action(
                        &mut actions,
                        EditorAction::Split(
                            SplitCommand::Move { tab_id, direction: SplitMoveDirection::Up },
                        ),
                    );
                }
            },
            FocusCommand::SplitDown => {
                if let Some(tab_id) = self.editor.tab_id {
                    push_action(
                        &mut actions,
                        EditorAction::Split(
                            SplitCommand::Move { tab_id, direction: SplitMoveDirection::Down },
                        ),
                    );
                }
            },
            FocusCommand::SplitClose => {
                push_action(
                    &mut actions,
                    EditorAction::Split(SplitCommand::Close { view_id: self.view_id, force: false }),
                );
            },
            FocusCommand::ForceExit => {
                push_action(
                    &mut actions,
                    EditorAction::Split(SplitCommand::Close { view_id: self.view_id, force: true }),
                );
            },
            FocusCommand::GlobalSearchRefresh => {
                push_action(
                    &mut actions,
                    EditorAction::UpdateSearch {
                        pattern: self.doc.buffer.text.clone(),
                        target: Target::Widget(self.main_split.tab_id),
                    },
                );
            },
            FocusCommand::CenterOfWindow => {
                push_action(
                    &mut actions,
                    EditorAction::Ui {
                        cmd: UiCommand::EnsureCursorPosition(EnsureVisiblePosition::CenterOfWindow),
                        target: Target::Widget(self.editor.view_id),
                    },
                );
            },
            FocusCommand::TopOfWindow => {
                push_action(
                    &mut actions,
                    EditorAction::Ui {
                        cmd: UiCommand::EnsureCursorPosition(EnsureVisiblePosition::TopOfWindow),
                        target: Target::Widget(self.editor.view_id),
                    },
                );
            },
            FocusCommand::BottomOfWindow => {
                push_action(
                    &mut actions,
                    EditorAction::Ui {
                        cmd: UiCommand::EnsureCursorPosition(EnsureVisiblePosition::BottomOfWindow),
                        target: Target::Widget(self.editor.view_id),
                    },
                );
            },
            FocusCommand::ShowCodeActions => {
                push_action(
                    &mut actions,
                    EditorAction::Ui {
                        cmd: UiCommand::ShowCodeActions,
                        target: Target::Widget(self.editor.editor_id),
                    },
                );
            },
            FocusCommand::GotoDefinition => {
                let offset = self.editor.cursor.offset();
                let start_offset = self.doc.buffer.prev_code_boundary(offset);
                match self.doc.buffer.offset_to_position(start_offset) {
                    None => {
                        push_action(
                            &mut actions,
                            EditorAction::Log {
                                level: LogLevel::Error,
                                message: LogMessage::OffsetWithoutPosition { offset: start_offset },
                            },
                        );
                    },
                    Some(start_position) => match self.doc.buffer.offset_to_position(offset) {
                        None => {
                            push_action(
                                &mut actions,
                                EditorAction::Log {
                                    level: LogLevel::Error,
                                    message: LogMessage::OffsetWithoutPosition { offset },
                                },
                            );
                        },
                        Some(position) => {
                            push_action(
                                &mut actions,
                                EditorAction::Request(
                                    ProxyRequest::GetDefinition {
                                        offset,
                                        buffer_id: self.doc.id,
                                        position,
                                        start_position,
                                        editor_view_id: self.editor.view_id,
                                    },
                                ),
                            );
                        },
                    },
                }
            },
            FocusCommand::GotoTypeDefinition => {
                let offset = self.editor.cursor.offset();
                match self.doc.buffer.offset_to_position(offset) {
                    None => {
                        push_action(
                            &mut actions,
                            EditorAction::Log {
                                level: LogLevel::Error,
                                message: LogMessage::OffsetWithoutPosition { offset },
                            },
                        );
                    },
                    Some(position) => {
                        push_action(
                            &mut actions,
                            EditorAction::Request(
                                ProxyRequest::GetTypeDefinition {
                                    offset,
                                    buffer_id: self.doc.id,
                                    position,
                                    editor_view_id: self.editor.view_id,
                                },
                            ),
                        );
                    },
                }
            },
            FocusCommand::NextError => {
                return self.next_error();
            },
            FocusCommand::NextDiff => {
                return self.next_diff();
            },
            FocusCommand::FormatDocument => {
                if let BufferContent::File(path) = &self.doc.content {
                    push_action(
                        &mut actions,
                        EditorAction::Request(
                            ProxyRequest::GetDocumentFormatting {
                                buffer_id: self.doc.id,
                                path: path.clone(),
                                rev: self.doc.rev(),
                                tab_id: self.main_split.tab_id,
                            },
                        ),
                    );
                }
            },
            _ => {},
        }
        assert(actions_view(actions@) =~= self.plain_actions(*cmd));
        actions
    }
}


/// Which way the choice in a list goes.
#[derive(Clone, Copy, Debug, PartialEq, Eq, Structural)]
pub enum ListStep {
    Next,
    NextPage,
    Previous,
    PreviousPage,
}

impl ListStep {
    /// The command that takes the step.
    pub open spec fn command(self) -> FocusCommand {
        match self {
            ListStep::Next => FocusCommand::ListNext,
            ListStep::NextPage => FocusCommand::ListNextPage,
            ListStep::Previous => FocusCommand::ListPrevious,
            ListStep::PreviousPage => FocusCommand::ListPreviousPage,
        }
    }
}

/// The region that selects a tab stop.
pub open spec fn tab_region(tab: Tab) -> SelRegion {
    SelRegion { start: tab.1.0, end: tab.1.1, horiz: None }
}

impl LapceEditorBufferData {
    /// The completion of `new` is that of `old`, ended.
    pub open spec fn completion_ended(old: CompletionData, new: CompletionData) -> bool {
        &&& new.status == CompletionStatus::Inactive
        &&& new.id == old.id
        &&& new.request_id == old.request_id
        &&& new.offset == old.offset
        &&& new.buffer_id == old.buffer_id
        &&& new.page_size == old.page_size
        &&& old.status == CompletionStatus::Inactive ==> new == old
        &&& old.status != CompletionStatus::Inactive ==> new.input@.len() == 0
            && new.input_items@.len() == 0 && new.index == 0
    }

    /// What closing what lies over the view leaves behind: the palette is
    /// told to close; a completion that shows items and a hover that
    /// shows something end.
    pub open spec fn modal_close_post(old: Self, new: Self, actions: Seq<ActionView>) -> bool {
        &&& Self::only_touched(old, new, Touched::none().completion().hover())
        &&& actions == if old.spec_is_palette() {
            seq![
                ActionView::Command {
                    cmd: FocusCommand::ModalClose,
                    target: Target::Widget(old.palette.widget_id),
                },
            ]
        } else {
            Seq::empty()
        }
        &&& if old.spec_has_completions() {
            Self::completion_ended(old.completion, new.completion)
        } else {
            new.completion == old.completion
        }
        &&& if old.spec_has_hover() {
            new.hover.status == HoverStatus::Inactive && new.hover.items@.len() == 0
                && new.hover.request_id == old.hover.request_id && new.hover.id == old.hover.id
        } else {
            new.hover == old.hover
        }
    }

    /// Closes what lies over the view.
    pub fn modal_close(&mut self) -> (r: Vec<EditorAction>)
        ensures
            Self::modal_close_post(*old(self), *final(self), actions_view(r@)),
    {
        let mut actions = no_actions();
        if self.is_palette() {
            push_action(
                &mut actions,
                EditorAction::Command {
                    cmd: FocusCommand::ModalClose,
                    target: Target::Widget(self.palette.widget_id),
                },
            );
            assert(actions_view(actions@) =~= seq![actions@[0]@]);
        }
        if self.has_completions() {
            self.cancel_completion();
        }
        if self.has_hover() {
            self.cancel_hover();
        }
        actions
    }

    /// `old` with the search of `new`.
    pub open spec fn with_find_of(old: Self, new: Self) -> Self {
        LapceEditorBufferData { find: new.find, ..old }
    }

    /// What a search leaves behind beyond the search itself: the cursor
    /// moves to what was found, if anything was.
    pub open spec fn found_post(old: Self, new: Self, found: Option<int>, mods: Modifiers) -> bool {
        match found {
            Some(start) => Self::move_post(
                Self::with_find_of(old, new),
                new,
                Movement::Offset(start as usize),
                None,
                mods,
            ),
            None => new == Self::with_find_of(old, new),
        }
    }

    /// Moves the cursor to what a search found.
    pub fn go_to_found(&mut self, found: Option<(usize, usize)>, mods: Modifiers)
        requires
            old(self).wf(),
        ensures
            Self::found_post(
                *old(self),
                *final(self),
                match found {
                    Some((start, _)) => Some(start as int),
                    None => None,
                },
                mods,
            ),
            final(self).find == old(self).find,
            final(self).wf(),
    {
        if let Some((start, _end)) = found {
            self.run_move_command(&Movement::Offset(start), None, mods);
        }
    }

    /// What the search for the word at the cursor leaves behind: the word
    /// is searched for as a whole word, the field of the search is told
    /// so, and the cursor goes to the next place where it stands.
    pub open spec fn search_word_post(old: Self, new: Self, mods: Modifiers, actions: Seq<ActionView>) -> bool {
        let word = old.word_at_cursor();
        &&& new.find.visual
        &&& new.find.pattern@ == word
        &&& new.find.whole_words
        &&& !new.find.case_sensitive
        &&& actions == seq![
            ActionView::UpdateSearchInput {
                pattern: word,
                target: Target::Widget(old.main_split.tab_id),
            },
        ]
        &&& Self::found_post(
            old,
            new,
            search_result(
                old.doc.buffer@,
                word,
                true,
                old.editor.cursor.mode@.offset() as int,
                false,
                true,
            ),
            mods,
        )
    }

    /// Searches for the word at the cursor.
    pub fn search_word(&mut self, mods: Modifiers) -> (r: Vec<EditorAction>)
        requires
            old(self).wf(),
        ensures
            Self::search_word_post(*old(self), *final(self), mods, actions_view(r@)),
            final(self).wf(),
    {
        self.find.visual = true;
        let offset = self.editor.cursor.offset();
        let (start, end) = self.doc.buffer.select_word(offset);
        let word = self.doc.buffer.slice(start, end);
        let mut actions = no_actions();
        push_action(
            &mut actions,
            EditorAction::UpdateSearchInput {
                pattern: word.clone(),
                target: Target::Widget(self.main_split.tab_id),
            },
        );
        assert(actions_view(actions@) =~= seq![actions@[0]@]);
        self.find.set_find(&word, false, true);
        let next = self.find.next(&self.doc.buffer.text, offset, false, true);
        self.go_to_found(next, mods);
        actions
    }

    /// What a step of the search leaves behind. The field of a search
    /// hands the command to the view that it serves. Any other view shows
    /// the matches and moves the cursor to the next one, forward or back.
    pub open spec fn search_step_post(
        old: Self,
        new: Self,
        reverse: bool,
        mods: Modifiers,
        actions: Seq<ActionView>,
    ) -> bool {
        if old.editor.content@.is_search() {
            new == old && actions == (match old.editor.parent_view_id {
                Some(parent) => seq![
                    ActionView::Command {
                        cmd: if reverse {
                            FocusCommand::SearchBackward
                        } else {
                            FocusCommand::SearchForward
                        },
                        target: Target::Widget(parent),
                    },
                ],
                None => Seq::empty(),
            })
        } else {
            &&& actions == Seq::<ActionView>::empty()
            &&& new.find.visual
            &&& new.find.pattern == old.find.pattern
            &&& new.find.whole_words == old.find.whole_words
            &&& new.find.case_sensitive == old.find.case_sensitive
            &&& Self::found_post(
                old,
                new,
                search_result(
                    old.doc.buffer@,
                    old.find.pattern@,
                    old.find.whole_words,
                    old.editor.cursor.mode@.offset() as int,
                    reverse,
                    true,
                ),
                mods,
            )
        }
    }

    /// Goes to the next match, forward or back.
    pub fn search_step(&mut self, reverse: bool, mods: Modifiers) -> (r: Vec<EditorAction>)
        requires
            old(self).wf(),
        ensures
            Self::search_step_post(*old(self), *final(self), reverse, mods, actions_view(r@)),
            final(self).wf(),
    {
        let mut actions = no_actions();
        if self.editor.content.is_search() {
            if let Some(parent_view_id) = self.editor.parent_view_id {
                push_action(
                    &mut actions,
                    EditorAction::Command {
                        cmd: if reverse {
                            FocusCommand::SearchBackward
                        } else {
                            FocusCommand::SearchForward
                        },
                        target: Target::Widget(parent_view_id),
                    },
                );
                assert(actions_view(actions@) =~= seq![actions@[0]@]);
            }
        } else {
            self.find.visual = true;
            let offset = self.editor.cursor.offset();
            let next = self.find.next(&self.doc.buffer.text, offset, reverse, true);
            self.go_to_found(next, mods);
        }
        actions
    }

    /// The view that gets the focus when the search is cleared: the
    /// view that this view serves; for the field of a search that serves
    /// none, the view that has the focus; else this view.
    pub open spec fn focus_after_search(&self) -> u64 {
        match self.editor.parent_view_id {
            Some(parent) => parent,
            None => if self.editor.content@.is_search() {
                match self.main_split.active {
                    Some(active) => active,
                    None => self.editor.view_id,
                }
            } else {
                self.editor.view_id
            },
        }
    }

    /// Shows the matches no longer and gives the focus back.
    pub fn clear_search(&mut self) -> (r: Vec<EditorAction>)
        ensures
            Self::only_touched(*old(self), *final(self), Touched::none().find()),
            !final(self).find.visual,
            final(self).find.pattern == old(self).find.pattern,
            final(self).find.whole_words == old(self).find.whole_words,
            final(self).find.case_sensitive == old(self).find.case_sensitive,
            actions_view(r@) == seq![
                ActionView::Ui {
                    cmd: UiCommand::Focus,
                    target: Target::Widget(old(self).focus_after_search()),
                },
            ],
    {
        self.find.visual = false;
        let view_id = if let Some(parent_view_id) = self.editor.parent_view_id {
            parent_view_id
        } else if self.editor.content.is_search() {
            match self.main_split.active {
                Some(active) => active,
                None => self.editor.view_id,
            }
        } else {
            self.editor.view_id
        };
        let mut actions = no_actions();
        push_action(
            &mut actions,
            EditorAction::Ui { cmd: UiCommand::Focus, target: Target::Widget(view_id) },
        );
        assert(actions_view(actions@) =~= seq![actions@[0]@]);
        actions
    }

    /// The offset at which the search in the view starts over when it
    /// finds nothing behind the line of the cursor: the start of the first
    /// line that the view shows, or of the last line of the text where
    /// that lies further on.
    pub open spec fn view_start_offset(&self) -> int {
        let first = clamp_usize(
            lines_for(self.editor.scroll_offset.y as int, self.config.line_height as int),
        );
        let last_line = newlines(self.doc.buffer@, self.doc.buffer@.len() as int);
        line_start(
            self.doc.buffer@,
            if first > last_line {
                first as nat
            } else {
                last_line as nat
            },
        )
    }

    /// What the search in the view leaves behind: the cursor goes to the
    /// first match from the start of its line on, or, where there is none,
    /// to the first match behind the start of the view, over the end of
    /// the text if need be.
    pub open spec fn search_in_view_post(old: Self, new: Self, mods: Modifiers) -> bool {
        let text = old.doc.buffer@;
        let n = text.len() as int;
        let offset = vstd::math::min(old.editor.cursor.mode@.offset() as int, n);
        let from = line_start(text, newlines(text, offset) as nat);
        let first = search_result(
            text,
            old.find.pattern@,
            old.find.whole_words,
            from,
            false,
            false,
        );
        &&& new.find == old.find
        &&& Self::found_post(
            old,
            new,
            if first is Some {
                first
            } else {
                search_result(
                    text,
                    old.find.pattern@,
                    old.find.whole_words,
                    old.view_start_offset(),
                    false,
                    true,
                )
            },
            mods,
        )
    }

    /// Goes to the first match in what the view shows.
    pub fn search_in_view(&mut self, mods: Modifiers)
        requires
            old(self).wf(),
        ensures
            Self::search_in_view_post(*old(self), *final(self), mods),
            final(self).wf(),
    {
        let last_line = self.doc.buffer.last_line();
        let first = lines_needed(self.editor.scroll_offset.y, self.config.line_height);
        let start_line = if first > last_line {
            first
        } else {
            last_line
        };
        let offset = self.editor.cursor.offset();
        let line = self.doc.buffer.line_of_offset(offset);
        let from = self.doc.buffer.offset_of_line(line);
        let next = self.find.next(&self.doc.buffer.text, from, false, false);
        if next.is_some() {
            self.go_to_found(next, mods);
        } else {
            let start_offset = self.doc.buffer.offset_of_line(start_line);
            let next = self.find.next(&self.doc.buffer.text, start_offset, false, true);
            self.go_to_found(next, mods);
        }
    }

    /// The text that a search takes from the cursor: the word around a
    /// caret, what a region selects, and the characters of a visual span.
    pub open spec fn search_pattern(&self) -> Seq<u8> {
        let text = self.doc.buffer@;
        let n = text.len() as int;
        let region = match self.editor.cursor.mode@ {
            CursorModeView::Normal(offset) => SelRegion { start: offset, end: offset, horiz: None },
            CursorModeView::Visual { start, end, mode: _ } => SelRegion {
                start: if start < end {
                    start
                } else {
                    end
                },
                end: forward_chars(
                    text,
                    if start < end {
                        end as int
                    } else {
                        start as int
                    },
                    1,
                    n,
                ) as usize,
                horiz: None,
            },
            CursorModeView::Insert(regions, last) => if 0 <= last < regions.len() {
                regions[last]
            } else {
                SelRegion { start: 0, end: 0, horiz: None }
            },
        };
        let (lo, hi) = if region.is_caret() {
            (word_start(text, region.start as int), word_end(text, region.start as int))
        } else {
            (region.min() as int, region.max() as int)
        };
        text.subrange(vstd::math::min(lo, vstd::math::min(hi, n)), vstd::math::min(hi, n))
    }

    /// What starting a search from the cursor leaves behind: the matches
    /// are shown; a text of one line is searched for and told to the field
    /// of the search; the field, if the view has one, selects what it
    /// holds and takes the focus.
    pub open spec fn search_post(old: Self, new: Self, actions: Seq<ActionView>) -> bool {
        let pattern = old.search_pattern();
        let told = if has_newline(pattern) {
            Seq::empty()
        } else {
            seq![
                ActionView::UpdateSearchInput {
                    pattern,
                    target: Target::Widget(old.main_split.tab_id),
                },
            ]
        };
        &&& Self::only_touched(old, new, Touched::none().find())
        &&& new.find.visual
        &&& if has_newline(pattern) {
            new.find.pattern == old.find.pattern && new.find.whole_words == old.find.whole_words
                && new.find.case_sensitive == old.find.case_sensitive
        } else {
            new.find.pattern@ == pattern && !new.find.whole_words && !new.find.case_sensitive
        }
        &&& actions == told + (match old.editor.find_view_id {
            Some((find_view_id, _)) => seq![
                ActionView::MultiSelection {
                    cmd: MultiSelectionCommand::SelectAll,
                    target: Target::Widget(find_view_id),
                },
                ActionView::Ui { cmd: UiCommand::Focus, target: Target::Widget(find_view_id) },
            ],
            None => Seq::empty(),
        })
    }

    /// Starts a search from the cursor.
    pub fn search(&mut self) -> (r: Vec<EditorAction>)
        ensures
            Self::search_post(*old(self), *final(self), actions_view(r@)),
    {
        self.find.visual = true;
        let n = self.doc.buffer.len();
        let region = match &self.editor.cursor.mode {
            CursorMode::Normal(offset) => SelRegion::caret(*offset),
            CursorMode::Visual { start, end, mode: _ } => SelRegion::new(
                if *start < *end {
                    *start
                } else {
                    *end
                },
                self.doc.buffer.next_grapheme_offset(
                    if *start < *end {
                        *end
                    } else {
                        *start
                    },
                    1,
                    n,
                ),
                None,
            ),
            CursorMode::Insert(selection) => match selection.last_inserted() {
                Some(region) => region,
                None => SelRegion::caret(0),
            },
        };
        let pattern = if region.is_caret() {
            let (start, end) = self.doc.buffer.select_word(region.start);
            self.doc.buffer.slice(start, end)
        } else {
            self.doc.buffer.slice(region.min(), region.max())
        };
        let mut actions = no_actions();
        if !contains_newline(&pattern) {
            self.find.set_find(&pattern, false, false);
            push_action(
                &mut actions,
                EditorAction::UpdateSearchInput {
                    pattern,
                    target: Target::Widget(self.main_split.tab_id),
                },
            );
        }
        if let Some((find_view_id, _)) = self.editor.find_view_id {
            push_action(
                &mut actions,
                EditorAction::MultiSelection {
                    cmd: MultiSelectionCommand::SelectAll,
                    target: Target::Widget(find_view_id),
                },
            );
            push_action(
                &mut actions,
                EditorAction::Ui { cmd: UiCommand::Focus, target: Target::Widget(find_view_id) },
            );
        }
        assert(actions_view(actions@) =~= old(self).search_pattern_actions());
        actions
    }

    /// What starting a search from the cursor asks for.
    pub open spec fn search_pattern_actions(&self) -> Seq<ActionView> {
        let pattern = self.search_pattern();
        (if has_newline(pattern) {
            Seq::empty()
        } else {
            seq![
                ActionView::UpdateSearchInput {
                    pattern,
                    target: Target::Widget(self.main_split.tab_id),
                },
            ]
        }) + (match self.editor.find_view_id {
            Some((find_view_id, _)) => seq![
                ActionView::MultiSelection {
                    cmd: MultiSelectionCommand::SelectAll,
                    target: Target::Widget(find_view_id),
                },
                ActionView::Ui { cmd: UiCommand::Focus, target: Target::Widget(find_view_id) },
            ],
            None => Seq::empty(),
        })
    }

    /// What choosing the item of a list leaves behind. The palette is told
    /// to choose. Else the completion ends, and its chosen item, if it has
    /// one, is applied; an item of which the server holds more is sent to
    /// the server first, to come back whole.
    pub open spec fn list_select_post(old: Self, new: Self, actions: Seq<ActionView>) -> bool {
        if old.spec_is_palette() {
            new == old && actions == seq![
                ActionView::Command {
                    cmd: FocusCommand::ListSelect,
                    target: Target::Widget(old.palette.widget_id),
                },
            ]
        } else {
            let ended = LapceEditorBufferData { completion: new.completion, ..old };
            &&& Self::completion_ended(old.completion, new.completion)
            &&& match old.completion.shown_index() {
                Some(i) if old.completion.index < old.completion.input_items@[i].1@.len() => {
                    let item = old.completion.input_items@[i].1@[old.completion.index as int];
                    if item.has_data {
                        new == ended && actions == seq![
                            ActionView::Request(
                                RequestView::CompletionResolve {
                                    buffer_id: old.doc.id,
                                    rev: old.doc.buffer.rev,
                                    offset: old.editor.cursor.mode@.offset(),
                                    view_id: old.editor.view_id,
                                    item: item_view(item),
                                },
                            ),
                        ]
                    } else {
                        actions == Seq::<ActionView>::empty() && exists|
                            copy: crate::lsp::CompletionItem,
                            r: Result<(), crate::error::EditorError>,
                        |
                            #![trigger Self::apply_item_post(ended, new, copy, r)]
                            item_view(copy) == item_view(item) && Self::apply_item_post(
                                ended,
                                new,
                                copy,
                                r,
                            )
                    }
                },
                _ => new == ended && actions == Seq::<ActionView>::empty(),
            }
        }
    }

    /// Chooses the item of the list.
    pub fn list_select(&mut self) -> (r: Vec<EditorAction>)
        requires
            old(self).wf(),
        ensures
            Self::list_select_post(*old(self), *final(self), actions_view(r@)),
            final(self).wf(),
    {
        let mut actions = no_actions();
        if self.is_palette() {
            push_action(
                &mut actions,
                EditorAction::Command {
                    cmd: FocusCommand::ListSelect,
                    target: Target::Widget(self.palette.widget_id),
                },
            );
            assert(actions_view(actions@) =~= seq![actions@[0]@]);
            return actions;
        }
        let item = match self.completion.current_item() {
            Some(item) => Some(item.duplicate()),
            None => None,
        };
        self.cancel_completion();
        let ghost ended = *self;
        if let Some(item) = item {
            if item.has_data {
                push_action(
                    &mut actions,
                    EditorAction::Request(
                        ProxyRequest::CompletionResolve {
                            buffer_id: self.doc.id,
                            rev: self.doc.rev(),
                            offset: self.editor.cursor.offset(),
                            view_id: self.editor.view_id,
                            item,
                        },
                    ),
                );
                assert(actions_view(actions@) =~= seq![actions@[0]@]);
            } else {
                let applied = self.apply_completion_item(&item);
                assert(Self::apply_item_post(ended, *self, item, applied));
            }
        }
        actions
    }

    /// What a step in a list leaves behind: the palette is told to take
    /// it; else the choice among the items of the completion moves.
    pub open spec fn list_step_post(old: Self, new: Self, step: ListStep, actions: Seq<ActionView>) -> bool {
        if old.spec_is_palette() {
            new == old && actions == seq![
                ActionView::Command {
                    cmd: step.command(),
                    target: Target::Widget(old.palette.widget_id),
                },
            ]
        } else {
            let len = old.completion.shown_len();
            let index = old.completion.index;
            let page = page_step(old.completion.page_size);
            &&& actions == Seq::<ActionView>::empty()
            &&& new == (LapceEditorBufferData {
                completion: CompletionData {
                    index: match step {
                        ListStep::Next => step_index(index, len, 1, true, true),
                        ListStep::Previous => step_index(index, len, 1, false, true),
                        ListStep::NextPage => step_index(index, len, page, true, false),
                        ListStep::PreviousPage => step_index(index, len, page, false, false),
                    },
                    ..old.completion
                },
                ..old
            })
        }
    }

    /// Takes a step in the list.
    pub fn list_step(&mut self, step: ListStep) -> (r: Vec<EditorAction>)
        ensures
            Self::list_step_post(*old(self), *final(self), step, actions_view(r@)),
    {
        let mut actions = no_actions();
        if self.is_palette() {
            let cmd = match step {
                ListStep::Next => FocusCommand::ListNext,
                ListStep::NextPage => FocusCommand::ListNextPage,
                ListStep::Previous => FocusCommand::ListPrevious,
                ListStep::PreviousPage => FocusCommand::ListPreviousPage,
            };
            push_action(
                &mut actions,
                EditorAction::Command { cmd, target: Target::Widget(self.palette.widget_id) },
            );
            assert(actions_view(actions@) =~= seq![actions@[0]@]);
        } else {
            match step {
                ListStep::Next => self.completion.next(),
                ListStep::NextPage => self.completion.next_page(),
                ListStep::Previous => self.completion.previous(),
                ListStep::PreviousPage => self.completion.previous_page(),
            }
        }
        actions
    }

    /// The index of the tab stop in which the cursor stands, or of the first.
    pub open spec fn current_tab(&self) -> int {
        match self.snippet_view() {
            Some(tabs) => match tab_at(tabs, self.editor.cursor.mode@.offset(), 0) {
                Some(i) => i,
                None => 0,
            },
            None => 0,
        }
    }

    /// What the step to the next tab stop leaves behind: the cursor
    /// selects the tab stop behind the one in which it stands; a step from
    /// the last tab stop finds none and gives the snippet up; the
    /// completion ends.
    pub open spec fn next_tab_post(old: Self, new: Self) -> bool {
        match old.snippet_view() {
            None => new == old,
            Some(tabs) => {
                let next = old.current_tab() + 1;
                &&& Self::only_touched(old, new, Touched::none().editor().completion())
                &&& Self::completion_ended(old.completion, new.completion)
                &&& new.editor.cursor.mode@ == if next < tabs.len() {
                    CursorModeView::Insert(seq![tab_region(tabs[next])], 0)
                } else {
                    old.editor.cursor.mode@
                }
                &&& new.snippet_view() == if next >= tabs.len() {
                    None
                } else {
                    old.snippet_view()
                }
                &&& new.editor.cursor.motion_mode == old.editor.cursor.motion_mode
                &&& new.editor.cursor.history_selections == old.editor.cursor.history_selections
                &&& new.editor.jumps == old.editor.jumps
                &&& new.editor.last_movement_new == old.editor.last_movement_new
                &&& new.editor.same_frame(old.editor)
                &&& new.editor.cursor.wf()
            },
        }
    }

    /// Goes to the next tab stop of the snippet.
    pub fn jump_to_next_snippet_placeholder(&mut self)
        requires
            old(self).wf(),
        ensures
            Self::next_tab_post(*old(self), *final(self)),
            final(self).wf(),
    {
        let offset = self.editor.cursor.offset();
        let step = match &self.editor.snippet {
            Some(snippet) => {
                let current = match find_tab(snippet, offset) {
                    Some(i) => i,
                    None => 0,
                };
                let len = snippet.len();
                let next = if current + 1 < len {
                    Some(snippet[current + 1])
                } else {
                    None
                };
                let past = next.is_none();
                Some((next, past))
            },
            None => None,
        };
        if let Some((next, past)) = step {
            if let Some((_, (start, end))) = next {
                self.editor.cursor.set_insert(Selection::region(start, end));
            }
            if past {
                self.editor.snippet = None;
            }
            self.cancel_completion();
        }
    }

    /// What the step to the tab stop before leaves behind: the cursor
    /// selects the tab stop in front of the one in which it stands, and
    /// the completion ends; in the first tab stop nothing happens.
    pub open spec fn prev_tab_post(old: Self, new: Self) -> bool {
        match old.snippet_view() {
            Some(tabs) if old.current_tab() > 0 => {
                &&& Self::only_touched(old, new, Touched::none().editor().completion())
                &&& Self::completion_ended(old.completion, new.completion)
                &&& new.editor.cursor.mode@ == CursorModeView::Insert(
                    seq![tab_region(tabs[old.current_tab() - 1])],
                    0,
                )
                &&& new.editor.snippet == old.editor.snippet
                &&& new.editor.cursor.motion_mode == old.editor.cursor.motion_mode
                &&& new.editor.cursor.history_selections == old.editor.cursor.history_selections
                &&& new.editor.jumps == old.editor.jumps
                &&& new.editor.last_movement_new == old.editor.last_movement_new
                &&& new.editor.same_frame(old.editor)
                &&& new.editor.cursor.wf()
            },
            _ => new == old,
        }
    }

    /// Goes to the tab stop before.
    pub fn jump_to_prev_snippet_placeholder(&mut self)
        requires
            old(self).wf(),
        ensures
            Self::prev_tab_post(*old(self), *final(self)),
            final(self).wf(),
    {
        let offset = self.editor.cursor.offset();
        let before = match &self.editor.snippet {
            Some(snippet) => {
                let current = match find_tab(snippet, offset) {
                    Some(i) => i,
                    None => 0,
                };
                if current > 0 {
                    Some(snippet[current - 1])
                } else {
                    None
                }
            },
            None => None,
        };
        if let Some((_, (start, end))) = before {
            self.editor.cursor.set_insert(Selection::region(start, end));
            self.cancel_completion();
        }
    }

    /// Shows the text in full or only the lines that head a section; a
    /// view that compares stays as it is.
    pub fn toggle_code_lens(&mut self)
        ensures
            Self::only_touched(*old(self), *final(self), Touched::none().editor()),
            final(self).editor.view == (match old(self).editor.view {
                EditorView::Normal => EditorView::Lens,
                EditorView::Lens => EditorView::Normal,
                EditorView::Diff(v) => EditorView::Diff(v),
            }),
            final(self).editor == (LapceEditorData { view: final(self).editor.view, ..old(self).editor }),
    {
        let lens = match &self.editor.view {
            EditorView::Normal => Some(true),
            EditorView::Lens => Some(false),
            EditorView::Diff(_) => None,
        };
        match lens {
            Some(true) => {
                self.editor.view = EditorView::Lens;
            },
            Some(false) => {
                self.editor.view = EditorView::Normal;
            },
            None => {},
        }
    }

    /// The view waits for the character of an inline search.
    pub fn set_inline_find(&mut self, direction: InlineFindDirection)
        ensures
            Self::only_touched(*old(self), *final(self), Touched::none().editor()),
            final(self).editor == (LapceEditorData {
                inline_find: Some(direction),
                ..old(self).editor
            }),
    {
        self.editor.inline_find = Some(direction);
    }

    /// What repeating the last inline search leaves behind.
    pub open spec fn repeat_find_post(old: Self, new: Self) -> bool {
        match old.editor.last_inline_find {
            Some((direction, c)) => match old.inline_target(direction, c@) {
                Some(target) => Self::move_post(
                    old,
                    new,
                    Movement::Offset(target as usize),
                    None,
                    Modifiers { shift: false, alt: false, ctrl: false, meta: false },
                ),
                None => new == old,
            },
            None => new == old,
        }
    }

    /// Makes the last inline search again.
    pub fn repeat_last_inline_find(&mut self)
        requires
            old(self).wf(),
        ensures
            Self::repeat_find_post(*old(self), *final(self)),
            final(self).wf(),
    {
        let last = match &self.editor.last_inline_find {
            Some((direction, c)) => Some((*direction, c.clone())),
            None => None,
        };
        if let Some((direction, c)) = last {
            self.inline_find(direction, &c);
        }
    }
}


impl LapceEditorBufferData {
    /// Whether a command of the focus is one of the view's.
    pub open spec fn handles(cmd: FocusCommand) -> bool {
        cmd != FocusCommand::Rename && cmd != FocusCommand::GetReferences
    }

    /// What a command of the focus leaves behind and asks for.
    pub open spec fn focus_post(
        old: Self,
        new: Self,
        cmd: FocusCommand,
        count: Option<usize>,
        mods: Modifiers,
        actions: Seq<ActionView>,
    ) -> bool {
        let none = Seq::<ActionView>::empty();
        if Self::is_plain(cmd) {
            new == old && actions == old.plain_actions(cmd)
        } else {
            match cmd {
                FocusCommand::ModalClose => Self::modal_close_post(old, new, actions),
                FocusCommand::SearchWholeWordForward => Self::search_word_post(
                    old,
                    new,
                    mods,
                    actions,
                ),
                FocusCommand::SearchForward => Self::search_step_post(old, new, false, mods, actions),
                FocusCommand::SearchBackward => Self::search_step_post(old, new, true, mods, actions),
                FocusCommand::ClearSearch => {
                    &&& Self::only_touched(old, new, Touched::none().find())
                    &&& !new.find.visual
                    &&& new.find.pattern == old.find.pattern
                    &&& new.find.whole_words == old.find.whole_words
                    &&& new.find.case_sensitive == old.find.case_sensitive
                    &&& actions == seq![
                        ActionView::Ui {
                            cmd: UiCommand::Focus,
                            target: Target::Widget(old.focus_after_search()),
                        },
                    ]
                },
                FocusCommand::SearchInView => Self::search_in_view_post(old, new, mods) && actions
                    == none,
                FocusCommand::ListSelect => Self::list_select_post(old, new, actions),
                FocusCommand::ListNext => Self::list_step_post(old, new, ListStep::Next, actions),
                FocusCommand::ListNextPage => Self::list_step_post(
                    old,
                    new,
                    ListStep::NextPage,
                    actions,
                ),
                FocusCommand::ListPrevious => Self::list_step_post(
                    old,
                    new,
                    ListStep::Previous,
                    actions,
                ),
                FocusCommand::ListPreviousPage => Self::list_step_post(
                    old,
                    new,
                    ListStep::PreviousPage,
                    actions,
                ),
                FocusCommand::JumpToNextSnippetPlaceholder => Self::next_tab_post(old, new)
                    && actions == none,
                FocusCommand::JumpToPrevSnippetPlaceholder => Self::prev_tab_post(old, new)
                    && actions == none,
                FocusCommand::PageUp => Self::page_post(old, new, false, mods, actions),
                FocusCommand::PageDown => Self::page_post(old, new, true, mods, actions),
                FocusCommand::ScrollUp => Self::scroll_post(
                    old,
                    new,
                    false,
                    match count {
                        Some(n) => n,
                        None => 1,
                    },
                    mods,
                    actions,
                ),
                FocusCommand::ScrollDown => Self::scroll_post(
                    old,
                    new,
                    true,
                    match count {
                        Some(n) => n,
                        None => 1,
                    },
                    mods,
                    actions,
                ),
                FocusCommand::GetCompletion => Self::only_touched(
                    old,
                    new,
                    Touched::none().completion(),
                ) && Self::completion_effect(old, new.completion, true, actions),
                FocusCommand::JumpLocationBackward => Self::jump_back_post(old, new, actions),
                FocusCommand::JumpLocationForward => Self::jump_forward_post(old, new, actions),
                FocusCommand::ToggleCodeLens => Self::only_touched(
                    old,
                    new,
                    Touched::none().editor(),
                ) && new.editor == (LapceEditorData { view: new.editor.view, ..old.editor })
                    && new.editor.view == (match old.editor.view {
                    EditorView::Normal => EditorView::Lens,
                    EditorView::Lens => EditorView::Normal,
                    EditorView::Diff(v) => EditorView::Diff(v),
                }) && actions == none,
                FocusCommand::Search => Self::search_post(old, new, actions),
                FocusCommand::InlineFindLeft => new == (LapceEditorBufferData {
                    editor: LapceEditorData {
                        inline_find: Some(InlineFindDirection::Left),
                        ..old.editor
                    },
                    ..old
                }) && actions == none,
                FocusCommand::InlineFindRight => new == (LapceEditorBufferData {
                    editor: LapceEditorData {
                        inline_find: Some(InlineFindDirection::Right),
                        ..old.editor
                    },
                    ..old
                }) && actions == none,
                FocusCommand::RepeatLastInlineFind => Self::repeat_find_post(old, new) && actions
                    == none,
                FocusCommand::SaveAndExit => Self::save_post(old, new, true, actions),
                FocusCommand::Save => Self::save_post(old, new, false, actions),
                _ => new == old && actions == none,
            }
        }
    }

    /// Runs a command of the focus on the view.
    #[verifier::rlimit(80)]
    pub fn run_focus_command(&mut self, cmd: &FocusCommand, count: Option<usize>, mods: Modifiers) -> (r:
        (CommandExecuted, Vec<EditorAction>))
        requires
            old(self).wf(),
        ensures
            r.0 == if Self::handles(*cmd) {
                CommandExecuted::Yes
            } else {
                CommandExecuted::No
            },
            Self::focus_post(*old(self), *final(self), *cmd, count, mods, actions_view(r.1@)),
            final(self).wf(),
    {
        let actions = match cmd {
            FocusCommand::ModalClose => self.modal_close(),
            FocusCommand::SplitVertical | FocusCommand::SplitHorizontal | FocusCommand::SplitExchange | FocusCommand::SplitLeft | FocusCommand::SplitRight | FocusCommand::SplitUp | FocusCommand::SplitDown | FocusCommand::SplitClose | FocusCommand::ForceExit | FocusCommand::GlobalSearchRefresh | FocusCommand::CenterOfWindow | FocusCommand::TopOfWindow | FocusCommand::BottomOfWindow | FocusCommand::ShowCodeActions | FocusCommand::GotoDefinition | FocusCommand::GotoTypeDefinition | FocusCommand::NextError | FocusCommand::NextDiff | FocusCommand::FormatDocument => {
                self.run_plain_command(cmd)
            },
            FocusCommand::SearchWholeWordForward => self.search_word(mods),
            FocusCommand::SearchForward => self.search_step(false, mods),
            FocusCommand::SearchBackward => self.search_step(true, mods),
            FocusCommand::ClearSearch => self.clear_search(),
            FocusCommand::SearchInView => {
                self.search_in_view(mods);
                no_actions()
            },
            FocusCommand::ListSelect => self.list_select(),
            FocusCommand::ListNext => self.list_step(ListStep::Next),
            FocusCommand::ListNextPage => self.list_step(ListStep::NextPage),
            FocusCommand::ListPrevious => self.list_step(ListStep::Previous),
            FocusCommand::ListPreviousPage => self.list_step(ListStep::PreviousPage),
            FocusCommand::JumpToNextSnippetPlaceholder => {
                self.jump_to_next_snippet_placeholder();
                no_actions()
            },
            FocusCommand::JumpToPrevSnippetPlaceholder => {
                self.jump_to_prev_snippet_placeholder();
                no_actions()
            },
            FocusCommand::PageUp => self.page_move(false, mods),
            FocusCommand::PageDown => self.page_move(true, mods),
            FocusCommand::ScrollUp => self.scroll(
                false,
                match count {
                    Some(n) => n,
                    None => 1,
                },
                mods,
            ),
            FocusCommand::ScrollDown => self.scroll(
                true,
                match count {
                    Some(n) => n,
                    None => 1,
                },
                mods,
            ),
            FocusCommand::GetCompletion => {
                // we allow empty inputs to allow for cases where the user wants to get the autocompletion beforehand
                self.update_completion(true)
            },
            FocusCommand::JumpLocationBackward => self.jump_location_backward(),
            FocusCommand::JumpLocationForward => self.jump_location_forward(),
            FocusCommand::ToggleCodeLens => {
                self.toggle_code_lens();
                no_actions()
            },
            FocusCommand::Search => self.search(),
            FocusCommand::InlineFindLeft => {
                self.set_inline_find(InlineFindDirection::Left);
                no_actions()
            },
            FocusCommand::InlineFindRight => {
                self.set_inline_find(InlineFindDirection::Right);
                no_actions()
            },
            FocusCommand::RepeatLastInlineFind => {
                self.repeat_last_inline_find();
                no_actions()
            },
            FocusCommand::SaveAndExit => self.save(true),
            FocusCommand::Save => self.save(false),
            FocusCommand::Rename | FocusCommand::GetReferences => {
                return (CommandExecuted::No, no_actions());
            },
        };
        (CommandExecuted::Yes, actions)
    }

    /// Runs a command on the view. A command of the window is not one of
    /// the view's. Where the command changed the text, or the view shows
    /// another document, the earlier selections of the cursor are forgotten.
    pub fn run_command(&mut self, command: &LapceCommand, count: Option<usize>, mods: Modifiers) -> (r:
        (CommandExecuted, Vec<EditorAction>))
        requires
            old(self).wf(),
        ensures
            final(self).wf(),
            r.0 == (match command.kind {
                CommandKind::Workbench(_) => CommandExecuted::No,
                CommandKind::Focus(cmd) => if Self::handles(cmd) {
                    CommandExecuted::Yes
                } else {
                    CommandExecuted::No
                },
                _ => CommandExecuted::Yes,
            }),
            exists|mid: Self| #[trigger]
                Self::command_post(*old(self), mid, command.kind, count, mods, actions_view(r.1@))
                    && Self::history_post(*old(self), mid, *final(self)),
    {
        let old_rev = self.doc.rev();
        let old_content = self.doc.content.clone();
        let (executed, actions) = match &command.kind {
            CommandKind::Edit(cmd) => self.run_edit_command(cmd),
            CommandKind::Move(cmd) => {
                let movement = cmd.to_movement(count);
                (self.run_move_command(&movement, count, mods), no_actions())
            },
            CommandKind::Focus(cmd) => self.run_focus_command(cmd, count, mods),
            CommandKind::MotionMode(cmd) => {
                let (executed, _) = self.run_motion_mode_command(cmd);
                (executed, no_actions())
            },
            CommandKind::MultiSelection(cmd) => (self.run_multi_selection_command(cmd), no_actions()),
            CommandKind::Workbench(_) => (CommandExecuted::No, no_actions()),
        };
        let ghost mid = *self;
        if !self.doc.content.same(&old_content) || self.doc.rev() != old_rev {
            self.editor.cursor.history_selections = Vec::new();
        }
        assert(Self::command_post(*old(self), mid, command.kind, count, mods, actions_view(actions@)));
        assert(Self::history_post(*old(self), mid, *self));
        (executed, actions)
    }

    /// What a command leaves behind and asks for, by its kind.
    pub open spec fn command_post(
        old: Self,
        new: Self,
        kind: CommandKind,
        count: Option<usize>,
        mods: Modifiers,
        actions: Seq<ActionView>,
    ) -> bool {
        match kind {
            CommandKind::Move(cmd) => Self::move_post(old, new, cmd.movement(count), count, mods)
                && actions == Seq::<ActionView>::empty(),
            CommandKind::Focus(cmd) => Self::focus_post(old, new, cmd, count, mods, actions),
            CommandKind::Workbench(_) => new == old && actions == Seq::<ActionView>::empty(),
            CommandKind::MotionMode(cmd) => Self::motion_mode_post(old, new, cmd) && actions
                == Seq::<ActionView>::empty(),
            CommandKind::MultiSelection(cmd) => Self::multi_selection_post(old, new, cmd) && actions
                == Seq::<ActionView>::empty(),
            CommandKind::Edit(cmd) => Self::edit_command_post(old, new, cmd, actions),
        }
    }

    /// What is left of the earlier selections of the cursor after a
    /// command that led from `old` to `mid`: none where the text was
    /// changed or the view shows another document.
    pub open spec fn history_post(old: Self, mid: Self, new: Self) -> bool {
        if mid.doc.content@ != old.doc.content@ || mid.doc.buffer.rev != old.doc.buffer.rev {
            &&& new.editor.cursor.history_selections@.len() == 0
            &&& new.editor.cursor.mode == mid.editor.cursor.mode
            &&& new.editor.cursor.horiz == mid.editor.cursor.horiz
            &&& new.editor.cursor.motion_mode == mid.editor.cursor.motion_mode
            &&& new.editor.jumps == mid.editor.jumps
            &&& new.editor.snippet == mid.editor.snippet
            &&& new.editor.last_movement_new == mid.editor.last_movement_new
            &&& new.editor.same_frame(mid.editor)
            &&& Self::only_touched(mid, new, Touched::none().editor())
        } else {
            new == mid
        }
    }

    /// What a step of one page leaves behind and asks for.
    pub open spec fn page_post(old: Self, new: Self, down: bool, mods: Modifiers, actions: Seq<ActionView>) -> bool {
        &&& Self::move_post(
            old,
            new,
            if down {
                Movement::Down
            } else {
                Movement::Up
            },
            Some(old.page_lines()),
            mods,
        )
        &&& actions == seq![
            ActionView::Ui {
                cmd: UiCommand::EnsureRectVisible(
                    crate::command::Rect {
                        x: old.editor.scroll_offset.x,
                        y: crate::navigate::clamp_i64(
                            old.editor.scroll_offset.y + if down {
                                old.page_lines() * old.config.line_height
                            } else {
                                -(old.page_lines() * old.config.line_height)
                            },
                        ),
                        width: old.editor.size.width,
                        height: old.editor.size.height,
                    },
                ),
                target: Target::Widget(old.editor.view_id),
            },
        ]
    }

    /// What scrolling by `count` lines leaves behind and asks for.
    pub open spec fn scroll_post(
        old: Self,
        new: Self,
        down: bool,
        count: usize,
        mods: Modifiers,
        actions: Seq<ActionView>,
    ) -> bool {
        let line = old.cursor_line();
        let new_line = old.scrolled_line(down, count);
        &&& if new_line > line {
            Self::move_post(old, new, Movement::Down, Some((new_line - line) as usize), mods)
        } else if new_line < line {
            Self::move_post(old, new, Movement::Up, Some((line - new_line) as usize), mods)
        } else {
            new == old
        }
        &&& actions == seq![
            ActionView::Ui {
                cmd: UiCommand::ScrollTo(
                    old.editor.scroll_offset.x,
                    crate::navigate::clamp_i64(old.scrolled_top(down, count)),
                ),
                target: Target::Widget(old.editor.view_id),
            },
        ]
    }

    /// What a step back along the jumps of the view leaves behind and asks for.
    pub open spec fn jump_back_post(old: Self, new: Self, actions: Seq<ActionView>) -> bool {
        let here = old.place_to_save();
        &&& Self::only_touched(old, new, Touched::none().editor())
        &&& new.editor.cursor == old.editor.cursor
        &&& new.editor.snippet == old.editor.snippet
        &&& new.editor.last_movement_new == old.editor.last_movement_new
        &&& new.editor.same_frame(old.editor)
        &&& new.editor.jumps@ == old.editor.jumps@.backward(here)
        &&& actions == if old.editor.jumps@.can_go_back(here is Some) {
            seq![
                ActionView::GoToLocationNew {
                    view_id: old.editor.view_id,
                    location: crate::command::location_view(new.editor.jumps@.place()->0),
                },
            ]
        } else {
            Seq::empty()
        }
    }

    /// What a step forward along the jumps of the view leaves behind and
    /// asks for.
    pub open spec fn jump_forward_post(old: Self, new: Self, actions: Seq<ActionView>) -> bool {
        &&& Self::only_touched(old, new, Touched::none().editor())
        &&& new.editor.cursor == old.editor.cursor
        &&& new.editor.snippet == old.editor.snippet
        &&& new.editor.last_movement_new == old.editor.last_movement_new
        &&& new.editor.same_frame(old.editor)
        &&& new.editor.jumps@ == old.editor.jumps@.forward()
        &&& actions == if old.editor.jumps@.can_go_forward() {
            seq![
                ActionView::GoToLocationNew {
                    view_id: old.editor.view_id,
                    location: crate::command::location_view(new.editor.jumps@.place()->0),
                },
            ]
        } else {
            Seq::empty()
        }
    }

    /// What saving the view leaves behind and asks for.
    pub open spec fn save_post(old: Self, new: Self, exit: bool, actions: Seq<ActionView>) -> bool {
        &&& actions == old.save_step(exit)
        &&& Self::only_touched(old, new, Touched::none().main_split())
        &&& new.main_split.tab_id == old.main_split.tab_id
        &&& new.main_split.active == old.main_split.active
        &&& new.main_split.editors == old.main_split.editors
        &&& new.main_split.open_docs == old.main_split.open_docs
        &&& new.main_split.register == old.main_split.register
        &&& new.main_split.pending_edits == old.main_split.pending_edits
        &&& match old.doc.content@ {
            BufferContentView::Scratch(..) => new.main_split.current_save_as matches Some(
                (content, view_id, closes),
            ) && content == old.doc.content && view_id == old.editor.view_id && closes == exit,
            _ => new.main_split.current_save_as == old.main_split.current_save_as,
        }
    }
}

} // verus!
