//! Typing and the commands that change the text.

use vstd::prelude::*;
use vstd::string::{StrSliceExecFns, StringExecFns};
use crate::assist::CompletionCase;
use crate::buffer::{Buffer, forward_chars, line_begin, line_start, newlines, next_newline};
use crate::command::{
    ActionView, CommandExecuted, EditCommand, EditorAction, MotionModeCommand,
    MultiSelectionCommand, actions_view, no_actions,
};
use crate::completion::CompletionStatus;
use crate::cursor::{Cursor, CursorMode, CursorModeView, Mode, MotionMode, normal_offset};
use crate::command::Modifiers;
use crate::data::{Document, HoverStatus, LapceEditorData};
use crate::movement::Movement;
use vstd::string::StringSliceAdditionalSpecFns;
use crate::delta::{Delta, DeltaView, InsertDrift};
use crate::edit::{
    EditType, EditsView, InvalLines, apply_els, build_els, can_edit, edits_view,
    sorted_replacements,
};
use crate::editor::{LapceEditorBufferData, Touched, deltas_wf, moved_tabs};
use crate::movement::backward_chars;
use crate::selection::{
    SelRegion, Selection, apply_delta_upto, lemma_remapped_selection_covers, merged_upto,
};
use crate::snippet::Tab;

verus! {

/// The regions that a cursor stands for when the text is edited: the
/// regions of a selection, a caret at the offset of normal mode, and the
/// characters of a visual span, its last one included.
pub open spec fn cursor_regions(mode: CursorModeView, text: Seq<u8>) -> Seq<SelRegion> {
    match mode {
        CursorModeView::Insert(regions, _) => regions,
        CursorModeView::Normal(offset) => seq![SelRegion { start: offset, end: offset, horiz: None }],
        CursorModeView::Visual { start, end, mode: _ } => {
            let lo = if start < end {
                start
            } else {
                end
            };
            let hi = if start < end {
                end
            } else {
                start
            };
            seq![
                SelRegion {
                    start: lo,
                    end: forward_chars(text, hi as int, 1, text.len() as int) as usize,
                    horiz: None,
                },
            ]
        },
    }
}

/// Which stretch of text an edit replaces for each region of the cursor.
#[derive(Clone, Copy, Debug, PartialEq, Eq, Structural)]
pub enum Replace {
    /// The region itself.
    Selected,
    /// The region, or the character in front of a caret.
    Backward,
    /// The region, or the character behind a caret.
    Forward,
    /// Nothing, at the start of the line of the region.
    Above,
    /// Nothing, at the end of the line of the region.
    Below,
}

/// Which stretch of text a command replaces.
pub open spec fn replace_of(cmd: EditCommand) -> Replace {
    match cmd {
        EditCommand::DeleteBackward => Replace::Backward,
        EditCommand::DeleteForward => Replace::Forward,
        EditCommand::NewLineAbove => Replace::Above,
        EditCommand::NewLineBelow => Replace::Below,
        _ => Replace::Selected,
    }
}

/// The kind of edit that a command makes: a break of the line, a
/// deletion, or characters put in.
pub open spec fn edit_kind(cmd: EditCommand) -> EditType {
    match cmd {
        EditCommand::InsertNewLine | EditCommand::NewLineAbove | EditCommand::NewLineBelow => EditType::InsertNewline,
        EditCommand::DeleteBackward | EditCommand::DeleteForward => EditType::Delete,
        _ => EditType::InsertChars,
    }
}

/// The stretch of text that an edit replaces for one region.
pub open spec fn command_region(text: Seq<u8>, region: SelRegion, cmd: Replace) -> SelRegion {
    let n = text.len() as int;
    match cmd {
        Replace::Backward if region.is_caret() => SelRegion {
            start: backward_chars(text, region.end as int, 1, 0) as usize,
            end: region.end,
            horiz: None,
        },
        Replace::Forward if region.is_caret() => SelRegion {
            start: region.start,
            end: forward_chars(text, region.end as int, 1, n) as usize,
            horiz: None,
        },
        Replace::Above => {
            let at = line_begin(text, vstd::math::min(region.min() as int, n)) as usize;
            SelRegion { start: at, end: at, horiz: None }
        },
        Replace::Below => {
            let at = next_newline(text, vstd::math::min(region.max() as int, n)) as usize;
            SelRegion { start: at, end: at, horiz: None }
        },
        _ => region,
    }
}

/// The stretches of text that a command replaces.
pub open spec fn command_regions(regions: Seq<SelRegion>, text: Seq<u8>, cmd: Replace) -> Seq<
    SelRegion,
> {
    Seq::new(regions.len(), |i: int| command_region(text, regions[i], cmd))
}

/// The text that a command puts in.
pub open spec fn command_text(cmd: EditCommand) -> Seq<char> {
    match cmd {
        EditCommand::InsertNewLine | EditCommand::NewLineAbove | EditCommand::NewLineBelow => "\n"@,
        EditCommand::InsertTab => "\t"@,
        _ => ""@,
    }
}

/// Whether a command changes the text, rather than the mode.
pub open spec fn changes_text(cmd: EditCommand) -> bool {
    cmd != EditCommand::NormalMode && cmd != EditCommand::InsertMode
}

/// A character that counts as white space.
pub open spec fn is_space(c: char) -> bool {
    c == ' ' || ('\u{9}' <= c <= '\u{d}') || c == '\u{85}' || c == '\u{a0}' || c == '\u{1680}' || (
    '\u{2000}' <= c <= '\u{200a}') || c == '\u{2028}' || c == '\u{2029}' || c == '\u{202f}' || c
        == '\u{205f}' || c == '\u{3000}'
}

/// Whether every character of `s` is white space.
pub open spec fn all_space(s: Seq<char>) -> bool {
    forall|i: int| 0 <= i < s.len() ==> is_space(#[trigger] s[i])
}

/// Whether every character of `s` is white space.
pub fn is_blank_text(s: &str) -> (r: bool)
    ensures
        r == all_space(s@),
{
    let n = s.unicode_len();
    let mut i: usize = 0;
    while i < n
        invariant
            i <= n,
            n == s@.len(),
            forall|k: int| 0 <= k < i ==> is_space(#[trigger] s@[k]),
        decreases n - i,
    {
        let c = s.get_char(i);
        let space = c == ' ' || ('\u{9}' <= c && c <= '\u{d}') || c == '\u{85}' || c == '\u{a0}'
            || c == '\u{1680}' || ('\u{2000}' <= c && c <= '\u{200a}') || c == '\u{2028}' || c
            == '\u{2029}' || c == '\u{202f}' || c == '\u{205f}' || c == '\u{3000}';
        if !space {
            return false;
        }
        i += 1;
    }
    true
}

impl LapceEditorBufferData {
    /// The edit that replaces what the cursor stands for, as `cmd` has it,
    /// by `text`.
    pub open spec fn typed_edits(&self, cmd: Replace, text: Seq<char>) -> EditsView {
        let regions = command_regions(
            cursor_regions(self.editor.cursor.mode@, self.doc.buffer@),
            self.doc.buffer@,
            cmd,
        );
        seq![(merged_upto(regions, regions.len() as int).0, text)]
    }

    /// The change of the text that the edit makes.
    pub open spec fn typed_delta(&self, cmd: Replace, text: Seq<char>) -> DeltaView {
        let edits = self.typed_edits(cmd, text);
        DeltaView {
            els: build_els(sorted_replacements(edits), edits, self.doc.buffer@.len() as usize),
            base_len: self.doc.buffer@.len() as usize,
        }
    }

    /// Whether the edit can be made.
    pub open spec fn can_type(&self, cmd: Replace, text: Seq<char>) -> bool {
        can_edit(
            self.doc.buffer@.len() as usize,
            self.doc.buffer.rev,
            self.typed_edits(cmd, text),
        )
    }

    /// The cursor after the edit: in insert mode behind what was put in,
    /// in the other modes in normal mode at the place of the edit.
    pub open spec fn typed_cursor(&self, cmd: Replace, text: Seq<char>) -> CursorModeView {
        let delta = self.typed_delta(cmd, text);
        let replaced = self.typed_edits(cmd, text)[0].0;
        let moved = apply_delta_upto(
            replaced,
            delta,
            true,
            InsertDrift::Default,
            replaced.len() as int,
        );
        match self.editor.cursor.mode@ {
            CursorModeView::Insert(..) => CursorModeView::Insert(moved.0, moved.1),
            _ => CursorModeView::Normal(
                normal_offset(
                    apply_els(self.doc.buffer@, delta.els),
                    if moved.0.len() == 0 {
                        0
                    } else {
                        moved.0[0].min()
                    },
                ),
            ),
        }
    }

    /// What an edit at the cursor leaves behind in the document and the
    /// cursor, where it can be made.
    pub open spec fn typed_post(
        old: Self,
        new: Self,
        cmd: Replace,
        text: Seq<char>,
        edit_type: EditType,
    ) -> bool {
        let delta = old.typed_delta(cmd, text);
        &&& delta.wf()
        &&& Document::edited(old.doc, new.doc, delta, edit_type)
        &&& new.editor.cursor.mode@ == old.typed_cursor(cmd, text)
        &&& new.editor.cursor.mode@.within(new.doc.buffer@.len() as int)
        &&& new.editor.cursor.horiz == old.editor.cursor.horiz
        &&& new.editor.cursor.motion_mode == old.editor.cursor.motion_mode
        &&& new.editor.cursor.history_selections == old.editor.cursor.history_selections
        &&& new.editor.jumps == old.editor.jumps
        &&& new.editor.snippet == old.editor.snippet
        &&& new.editor.last_movement_new == old.editor.last_movement_new
        &&& new.editor.same_frame(old.editor)
        &&& new.editor.cursor.wf()
    }

    /// The stretches of text that `cmd` replaces at the cursor.
    pub fn edit_selection(&self, cmd: Replace) -> (r: Selection)
        ensures
            ({
                let regions = command_regions(
                    cursor_regions(self.editor.cursor.mode@, self.doc.buffer@),
                    self.doc.buffer@,
                    cmd,
                );
                r@ == merged_upto(regions, regions.len() as int).0
            }),
            r.wf(),
    {
        let n = self.doc.buffer.len();
        let mut base: Vec<SelRegion> = Vec::new();
        match &self.editor.cursor.mode {
            CursorMode::Insert(selection) => {
                let mut i: usize = 0;
                while i < selection.regions.len()
                    invariant
                        i <= selection.regions@.len(),
                        base@ == selection.regions@.subrange(0, i as int),
                    decreases selection.regions@.len() - i,
                {
                    base.push(selection.regions[i]);
                    assert(base@ =~= selection.regions@.subrange(0, i + 1));
                    i += 1;
                }
                assert(selection.regions@.subrange(0, i as int) =~= selection.regions@);
            },
            CursorMode::Normal(offset) => {
                base.push(SelRegion::caret(*offset));
                assert(base@ =~= seq![SelRegion { start: *offset, end: *offset, horiz: None }]);
            },
            CursorMode::Visual { start, end, mode: _ } => {
                let lo = if *start < *end {
                    *start
                } else {
                    *end
                };
                let hi = if *start < *end {
                    *end
                } else {
                    *start
                };
                let after = self.doc.buffer.next_grapheme_offset(hi, 1, n);
                base.push(SelRegion::new(lo, after, None));
                assert(base@ =~= seq![SelRegion { start: lo, end: after, horiz: None }]);
            },
        }
        assert(base@ == cursor_regions(self.editor.cursor.mode@, self.doc.buffer@));
        let mut regions: Vec<SelRegion> = Vec::new();
        let mut i: usize = 0;
        while i < base.len()
            invariant
                i <= base@.len(),
                n == self.doc.buffer@.len(),
                regions@ == command_regions(base@, self.doc.buffer@, cmd).subrange(0, i as int),
            decreases base@.len() - i,
        {
            let region = base[i];
            let replaced = match cmd {
                Replace::Backward => {
                    if region.is_caret() {
                        SelRegion::new(
                            self.doc.buffer.prev_grapheme_offset(region.end, 1, 0),
                            region.end,
                            None,
                        )
                    } else {
                        region
                    }
                },
                Replace::Forward => {
                    if region.is_caret() {
                        SelRegion::new(
                            region.start,
                            self.doc.buffer.next_grapheme_offset(region.end, 1, n),
                            None,
                        )
                    } else {
                        region
                    }
                },
                Replace::Above => {
                    let lo = region.min();
                    let (_, col) = self.doc.buffer.offset_to_line_col(lo);
                    let at = if lo < n {
                        lo - col
                    } else {
                        n - col
                    };
                    SelRegion::caret(at)
                },
                Replace::Below => {
                    let hi = region.max();
                    let at = self.doc.buffer.next_line_break(
                        if hi < n {
                            hi
                        } else {
                            n
                        },
                    );
                    SelRegion::caret(at)
                },
                _ => region,
            };
            assert(replaced == command_region(self.doc.buffer@, region, cmd));
            regions.push(replaced);
            assert(regions@ =~= command_regions(base@, self.doc.buffer@, cmd).subrange(0, i + 1));
            i += 1;
        }
        assert(command_regions(base@, self.doc.buffer@, cmd).subrange(0, i as int)
            =~= command_regions(base@, self.doc.buffer@, cmd));
        Selection::from_regions(&regions)
    }

    /// Replaces what the cursor stands for, as `cmd` has it, by `text`.
    /// The change of the text is returned, or none where the edit cannot
    /// be made; then nothing is changed.
    pub fn type_text(&mut self, cmd: Replace, text: String, edit_type: EditType) -> (r: Vec<
        (Delta, InvalLines),
    >)
        requires
            old(self).wf(),
        ensures
            Self::only_touched(*old(self), *final(self), Touched::none().editor().doc()),
            final(self).wf(),
            deltas_wf(r@),
            match old(self).can_type(cmd, text@) {
                true => r@.len() == 1 && r@[0].0@ == old(self).typed_delta(cmd, text@)
                    && Self::typed_post(*old(self), *final(self), cmd, text@, edit_type),
                false => r@.len() == 0 && *final(self) == *old(self),
            },
    {
        let selection = self.edit_selection(cmd);
        let ghost replaced = selection@;
        let mut edits: Vec<(Selection, String)> = Vec::new();
        edits.push((selection, text));
        assert(edits_view(edits@) =~= old(self).typed_edits(cmd, text@));
        let mut deltas: Vec<(Delta, InvalLines)> = Vec::new();
        match self.doc.do_raw_edit(&edits, edit_type) {
            Some((delta, inval_lines)) => {
                let moved = edits[0].0.apply_delta(&delta, true, InsertDrift::Default);
                proof {
                    lemma_remapped_selection_covers(replaced, delta@, true, InsertDrift::Default);
                }
                self.editor.cursor.update_selection(&self.doc.buffer, moved);
                assert(Document::edited(old(self).doc, self.doc, delta@, edit_type));
                deltas.push((delta, inval_lines));
            },
            None => {},
        }
        deltas
    }

    /// What a command that changes the mode leaves behind. In an editor
    /// with modes the cursor goes to normal mode, onto a character of its
    /// line, or to insert mode with a caret where it stands. In an editor
    /// without modes a selection gives way to a caret at its start.
    pub open spec fn mode_cursor(&self, cmd: EditCommand, modal: bool) -> CursorModeView {
        let mode = self.editor.cursor.mode@;
        match cmd {
            EditCommand::NormalMode => if modal {
                CursorModeView::Normal(normal_offset(self.doc.buffer@, mode.offset()))
            } else {
                match mode {
                    CursorModeView::Insert(regions, _) if regions.len() > 0 => CursorModeView::Insert(
                        seq![
                            SelRegion {
                                start: regions[0].min(),
                                end: regions[0].min(),
                                horiz: None,
                            },
                        ],
                        0,
                    ),
                    _ => mode,
                }
            },
            EditCommand::InsertMode => CursorModeView::Insert(
                seq![SelRegion { start: mode.offset(), end: mode.offset(), horiz: None }],
                0,
            ),
            _ => mode,
        }
    }

    /// Whether the editor has modes in this view.
    pub open spec fn is_modal(&self) -> bool {
        self.config.modal && !self.editor.content@.is_input()
    }

    /// The text that a command cuts out of a visual span.
    pub open spec fn yanked(&self) -> Option<Seq<u8>> {
        match self.editor.cursor.mode@ {
            CursorModeView::Visual { start, end, mode: _ } => {
                let text = self.doc.buffer@;
                let n = text.len() as int;
                let lo = if start < end {
                    start
                } else {
                    end
                };
                let hi = forward_chars(
                    text,
                    if start < end {
                        end as int
                    } else {
                        start as int
                    },
                    1,
                    n,
                );
                Some(
                    text.subrange(
                        vstd::math::min(lo as int, vstd::math::min(hi, n)),
                        vstd::math::min(hi, n),
                    ),
                )
            },
            _ => None,
        }
    }

    /// What an edit at the cursor leaves behind beyond the document and the
    /// cursor: the tab stops of the view and the cursors of the other
    /// views of the document follow the change, where one was made
    /// (`made`). Of the cursor only the place changes.
    pub open spec fn followed_post(old: Self, new: Self, made: bool, delta: DeltaView) -> bool {
        &&& new.snippet_view() == (match old.snippet_view() {
            Some(t) if made => Some(moved_tabs(t, delta)),
            other => other,
        })
        &&& new.main_split.editors@.len() == old.main_split.editors@.len()
        &&& forall|i: int|
            0 <= i < old.main_split.editors@.len() ==> if made && old.shows_same_doc(i) {
                LapceEditorData::carried(old.main_split.editors@[i], #[trigger] new.main_split.editors@[i], delta)
            } else {
                new.main_split.editors@[i] == old.main_split.editors@[i]
            }
        &&& new.main_split.open_docs == old.main_split.open_docs
        &&& new.main_split.pending_edits == old.main_split.pending_edits
        &&& new.main_split.tab_id == old.main_split.tab_id
        &&& new.main_split.active == old.main_split.active
        &&& new.main_split.current_save_as == old.main_split.current_save_as
        &&& new.editor.same_frame(old.editor)
        &&& new.editor.jumps == old.editor.jumps
        &&& new.editor.last_movement_new == old.editor.last_movement_new
        &&& new.editor.cursor.horiz == old.editor.cursor.horiz
        &&& new.editor.cursor.motion_mode == old.editor.cursor.motion_mode
        &&& new.editor.cursor.history_selections == old.editor.cursor.history_selections
        &&& new.view_id == old.view_id
        &&& new.config == old.config
        &&& new.find == old.find
        &&& new.palette == old.palette
        &&& new.source_control == old.source_control
    }

    /// The state in which the completion sees a keystroke: the state
    /// after the keystroke, with the completion as it was before.
    pub open spec fn before_completion(old: Self, new: Self) -> Self {
        LapceEditorBufferData { completion: old.completion, ..new }
    }

    /// What a command that changes the text or the mode leaves behind and
    /// asks for. What a command cuts out of a visual span goes to the
    /// register. Unless the command breaks the line or puts in a tab, the
    /// completion follows the keystroke. The cursors of the other views of
    /// the document and the tab stops of this view follow the change.
    pub open spec fn edit_command_post(
        old: Self,
        new: Self,
        cmd: EditCommand,
        actions: Seq<ActionView>,
    ) -> bool {
        &&& new.hover == old.hover
        &&& {
                let text = command_text(cmd);
                let how = replace_of(cmd);
                let made = changes_text(cmd) && old.can_type(how, text);
                let delta = old.typed_delta(how, text);
                &&& Self::followed_post(old, new, made, delta)
                &&& if !changes_text(cmd) {
                    new.doc == old.doc && new.editor.cursor.mode@ == old.mode_cursor(cmd, old.is_modal())
                } else if made {
                    &&& Document::edited(old.doc, new.doc, delta, edit_kind(cmd))
                    &&& new.editor.cursor.mode@ == old.typed_cursor(how, text)
                    &&& new.editor.cursor.mode@.within(new.doc.buffer@.len() as int)
                } else {
                    new.doc == old.doc && new.editor.cursor == old.editor.cursor
                }
                &&& new.main_split.register.unnamed@ == (match old.yanked() {
                    Some(data) if made => data,
                    _ => old.main_split.register.unnamed@,
                })
                &&& if cmd == EditCommand::InsertNewLine || cmd == EditCommand::InsertTab || cmd
                    == EditCommand::NewLineAbove || cmd == EditCommand::NewLineBelow {
                    new.completion == old.completion && actions == Seq::<
                        ActionView,
                    >::empty()
                } else {
                    Self::completion_effect(
                        Self::before_completion(old, new),
                        new.completion,
                        false,
                        actions,
                    )
                }
            }
    }

    /// Runs a command that changes the text or the mode.
    #[verifier::rlimit(100)]
    pub fn run_edit_command(&mut self, cmd: &EditCommand) -> (r: (CommandExecuted, Vec<EditorAction>))
        requires
            old(self).wf(),
        ensures
            r.0 == CommandExecuted::Yes,
            final(self).wf(),
            Self::edit_command_post(*old(self), *final(self), *cmd, actions_view(r.1@)),
    {
        let modal = self.config.modal && !self.editor.content.is_input();
        let yank_data = match &self.editor.cursor.mode {
            CursorMode::Visual { start, end, mode: _ } => {
                let n = self.doc.buffer.len();
                let lo = if *start < *end {
                    *start
                } else {
                    *end
                };
                let hi = self.doc.buffer.next_grapheme_offset(
                    if *start < *end {
                        *end
                    } else {
                        *start
                    },
                    1,
                    n,
                );
                Some(self.doc.buffer.slice(lo, hi))
            },
            _ => None,
        };
        let mut actions = no_actions();
        let deltas: Vec<(Delta, InvalLines)> = match cmd {
            EditCommand::NormalMode => {
                if modal {
                    let offset = self.editor.cursor.offset();
                    let line_end = self.doc.buffer.offset_line_end(offset, false);
                    let offset = if line_end < offset {
                        line_end
                    } else {
                        offset
                    };
                    self.editor.cursor.mode = CursorMode::Normal(offset);
                } else {
                    let first = match &self.editor.cursor.mode {
                        CursorMode::Insert(selection) => selection.first(),
                        _ => None,
                    };
                    if let Some(region) = first {
                        self.editor.cursor.mode = CursorMode::Insert(Selection::caret(region.min()));
                    }
                }
                Vec::new()
            },
            EditCommand::InsertMode => {
                let offset = self.editor.cursor.offset();
                self.editor.cursor.mode = CursorMode::Insert(Selection::caret(offset));
                Vec::new()
            },
            EditCommand::InsertNewLine => self.type_text(
                Replace::Selected,
                String::from_str("\n"),
                EditType::InsertNewline,
            ),
            EditCommand::NewLineAbove => self.type_text(
                Replace::Above,
                String::from_str("\n"),
                EditType::InsertNewline,
            ),
            EditCommand::NewLineBelow => self.type_text(
                Replace::Below,
                String::from_str("\n"),
                EditType::InsertNewline,
            ),
            EditCommand::InsertTab => self.type_text(
                Replace::Selected,
                String::from_str("\t"),
                EditType::InsertChars,
            ),
            EditCommand::DeleteBackward => self.type_text(
                Replace::Backward,
                String::from_str(""),
                EditType::Delete,
            ),
            EditCommand::DeleteForward => self.type_text(
                Replace::Forward,
                String::from_str(""),
                EditType::Delete,
            ),
        };
        if deltas.len() > 0 {
            if let Some(data) = yank_data {
                self.main_split.register.unnamed = data;
            }
        }
        match cmd {
            EditCommand::InsertNewLine | EditCommand::InsertTab | EditCommand::NewLineAbove | EditCommand::NewLineBelow => {},
            _ => {
                actions = self.update_completion(false);
            },
        }
        let ghost mid = *self;
        self.apply_deltas(&deltas);
        proof {
            lemma_one_delta(deltas@);
            assert forall|i: int| 0 <= i < old(self).main_split.editors@.len() implies mid.shows_same_doc(
                i,
            ) == old(self).shows_same_doc(i) by {}
        }
        (CommandExecuted::Yes, actions)
    }

    /// What a typed text leaves behind. In insert mode it takes the place
    /// of what is selected; unless it is white space only, the completion
    /// follows; the hover ends. In the other modes it is the character
    /// that an inline search waits for, if one does: the search is made,
    /// kept for repetition, and waits no longer.
    pub open spec fn typed_char_post(old: Self, new: Self, c: &str, actions: Seq<ActionView>) -> bool {
        if old.editor.cursor.mode@.mode() == Mode::Insert {
            let made = old.can_type(Replace::Selected, c@);
            let delta = old.typed_delta(Replace::Selected, c@);
            &&& Self::followed_post(old, new, made, delta)
            &&& new.main_split.register == old.main_split.register
            &&& if made {
                &&& Document::edited(old.doc, new.doc, delta, EditType::InsertChars)
                &&& new.editor.cursor.mode@ == old.typed_cursor(Replace::Selected, c@)
                &&& new.editor.cursor.mode@.within(new.doc.buffer@.len() as int)
            } else {
                new.doc == old.doc && new.editor.cursor == old.editor.cursor
            }
            &&& if all_space(c@) {
                new.completion == old.completion && actions == Seq::<ActionView>::empty()
            } else {
                Self::completion_effect(
                    Self::before_completion(old, new),
                    new.completion,
                    false,
                    actions,
                )
            }
            &&& new.hover.status == HoverStatus::Inactive
            &&& new.hover.request_id == old.hover.request_id
            &&& old.hover.status == HoverStatus::Inactive ==> new.hover == old.hover
            &&& old.hover.status != HoverStatus::Inactive ==> new.hover.items@.len() == 0
        } else {
            match old.editor.inline_find {
                Some(direction) => {
                    let found = LapceEditorBufferData {
                        editor: LapceEditorData {
                            inline_find: old.editor.inline_find,
                            last_inline_find: old.editor.last_inline_find,
                            ..new.editor
                        },
                        ..new
                    };
                    &&& actions == Seq::<ActionView>::empty()
                    &&& new.editor.inline_find.is_none()
                    &&& new.editor.last_inline_find matches Some((d, text)) && d == direction
                        && text@ == c.spec_bytes()
                    &&& match old.inline_target(direction, c.spec_bytes()) {
                        Some(target) => Self::move_post(
                            old,
                            found,
                            Movement::Offset(target as usize),
                            None,
                            Modifiers { shift: false, alt: false, ctrl: false, meta: false },
                        ),
                        None => found == old,
                    }
                },
                None => new == old && actions == Seq::<ActionView>::empty(),
            }
        }
    }

    /// Takes a text that the user typed.
    #[verifier::rlimit(60)]
    pub fn receive_char(&mut self, c: &str) -> (r: Vec<EditorAction>)
        requires
            old(self).wf(),
        ensures
            Self::typed_char_post(*old(self), *final(self), c, actions_view(r@)),
            final(self).wf(),
    {
        let mut actions = no_actions();
        match self.get_mode() {
            Mode::Insert => {
                let deltas = self.type_text(Replace::Selected, c.to_owned(), EditType::InsertChars);
                if !is_blank_text(c) {
                    actions = self.update_completion(false);
                }
                self.cancel_hover();
                let ghost mid = *self;
                self.apply_deltas(&deltas);
                proof {
                    lemma_one_delta(deltas@);
                    assert forall|i: int|
                        0 <= i < old(self).main_split.editors@.len() implies mid.shows_same_doc(i)
                        == old(self).shows_same_doc(i) by {}
                }
            },
            _ => {
                if let Some(direction) = self.editor.inline_find {
                    let text = c.as_bytes_vec();
                    self.inline_find(direction, &text);
                    let ghost found = *self;
                    self.editor.last_inline_find = Some((direction, text));
                    self.editor.inline_find = None;
                    proof {
                        let back = LapceEditorBufferData {
                            editor: LapceEditorData {
                                inline_find: old(self).editor.inline_find,
                                last_inline_find: old(self).editor.last_inline_find,
                                ..self.editor
                            },
                            ..*self
                        };
                        assert(back.editor == found.editor);
                        assert(back == found);
                    }
                }
            },
        }
        actions
    }

    /// What an operator that waits for a motion leaves behind. The
    /// operator that already waits, given again, waits no longer; so does
    /// any operator that waits when another is given. Else the operator
    /// waits.
    pub open spec fn motion_mode_post(old: Self, new: Self, cmd: MotionModeCommand) -> bool {
        &&& Self::only_touched(old, new, Touched::none().editor())
        &&& new.editor.cursor.motion_mode == if old.editor.cursor.motion_mode is Some {
            None
        } else {
            Some(cmd.motion_mode())
        }
        &&& new.editor.cursor.mode == old.editor.cursor.mode
        &&& new.editor.cursor.horiz == old.editor.cursor.horiz
        &&& new.editor.cursor.history_selections == old.editor.cursor.history_selections
        &&& new.editor.jumps == old.editor.jumps
        &&& new.editor.snippet == old.editor.snippet
        &&& new.editor.last_movement_new == old.editor.last_movement_new
        &&& new.editor.same_frame(old.editor)
    }

    /// Takes an operator that waits for a motion. Returns whether the
    /// operator is the one that already waited, and so is to be applied
    /// to the line of the cursor.
    pub fn run_motion_mode_command(&mut self, cmd: &MotionModeCommand) -> (r: (CommandExecuted, bool))
        ensures
            r.0 == CommandExecuted::Yes,
            r.1 == (old(self).editor.cursor.motion_mode == Some(cmd.motion_mode())),
            Self::motion_mode_post(*old(self), *final(self), *cmd),
    {
        let motion_mode = match cmd {
            MotionModeCommand::MotionModeDelete => MotionMode::Delete,
            MotionModeCommand::MotionModeIndent => MotionMode::Indent,
            MotionModeCommand::MotionModeOutdent => MotionMode::Outdent,
            MotionModeCommand::MotionModeYank => MotionMode::Yank,
        };
        match self.editor.cursor.motion_mode {
            Some(waiting) => {
                let again = match (waiting, motion_mode) {
                    (MotionMode::Delete, MotionMode::Delete) => true,
                    (MotionMode::Yank, MotionMode::Yank) => true,
                    (MotionMode::Indent, MotionMode::Indent) => true,
                    (MotionMode::Outdent, MotionMode::Outdent) => true,
                    _ => false,
                };
                self.editor.cursor.motion_mode = None;
                (CommandExecuted::Yes, again)
            },
            None => {
                self.editor.cursor.motion_mode = Some(motion_mode);
                (CommandExecuted::Yes, false)
            },
        }
    }

    /// The selection that a command of several cursors makes.
    pub open spec fn multi_selection(&self, cmd: MultiSelectionCommand) -> SelRegion {
        let text = self.doc.buffer@;
        let n = text.len() as int;
        match cmd {
            MultiSelectionCommand::SelectAll => SelRegion { start: 0, end: n as usize, horiz: None },
            MultiSelectionCommand::SelectCurrentLine => {
                let offset = vstd::math::min(self.editor.cursor.mode@.offset() as int, n);
                let start = line_start(text, newlines(text, offset) as nat);
                let line_break = next_newline(text, start);
                SelRegion {
                    start: start as usize,
                    end: if line_break < n {
                        (line_break + 1) as usize
                    } else {
                        n as usize
                    },
                    horiz: None,
                }
            },
        }
    }

    /// What a command of several cursors leaves behind: the cursor
    /// selects what the command names, and the completion ends.
    pub open spec fn multi_selection_post(old: Self, new: Self, cmd: MultiSelectionCommand) -> bool {
        &&& Self::only_touched(old, new, Touched::none().editor().completion())
        &&& new.editor.cursor.mode@ == CursorModeView::Insert(seq![old.multi_selection(cmd)], 0)
        &&& new.editor.cursor.wf()
        &&& new.editor.cursor.motion_mode == old.editor.cursor.motion_mode
        &&& new.editor.cursor.history_selections == old.editor.cursor.history_selections
        &&& new.editor.jumps == old.editor.jumps
        &&& new.editor.snippet == old.editor.snippet
        &&& new.editor.last_movement_new == old.editor.last_movement_new
        &&& new.editor.same_frame(old.editor)
        &&& new.completion.status == CompletionStatus::Inactive
        &&& new.completion.request_id == old.completion.request_id
        &&& new.completion.id == old.completion.id
        &&& old.completion.status == CompletionStatus::Inactive ==> new.completion
            == old.completion
        &&& old.completion.status != CompletionStatus::Inactive
            ==> new.completion.input_items@.len() == 0
    }

    /// Runs a command of several cursors.
    pub fn run_multi_selection_command(&mut self, cmd: &MultiSelectionCommand) -> (r: CommandExecuted)
        ensures
            r == CommandExecuted::Yes,
            Self::multi_selection_post(*old(self), *final(self), *cmd),
    {
        let n = self.doc.buffer.len();
        let region = match cmd {
            MultiSelectionCommand::SelectAll => SelRegion::new(0, n, None),
            MultiSelectionCommand::SelectCurrentLine => {
                let offset = self.editor.cursor.offset();
                let line = self.doc.buffer.line_of_offset(offset);
                let start = self.doc.buffer.offset_of_line(line);
                let line_break = self.doc.buffer.next_line_break(start);
                SelRegion::new(
                    start,
                    if line_break < n {
                        line_break + 1
                    } else {
                        n
                    },
                    None,
                )
            },
        };
        self.editor.cursor.set_insert(Selection::sel_region(region));
        self.cancel_completion();
        CommandExecuted::Yes
    }
}

/// What one change, or none, makes of tab stops and cursors.
pub proof fn lemma_one_delta(deltas: Seq<(Delta, InvalLines)>)
    requires
        deltas.len() <= 1,
    ensures
        forall|t: Seq<Tab>| #[trigger]
            crate::editor::tabs_after(t, deltas, deltas.len() as int) == if deltas.len() == 1 {
                moved_tabs(t, deltas[0].0@)
            } else {
                t
            },
        forall|m: CursorModeView| #[trigger]
            crate::editor::cursor_after(m, deltas, deltas.len() as int) == if deltas.len() == 1 {
                m.delta_applied(deltas[0].0@)
            } else {
                m
            },
{
    assert forall|t: Seq<Tab>| #[trigger]
        crate::editor::tabs_after(t, deltas, deltas.len() as int) == if deltas.len() == 1 {
            moved_tabs(t, deltas[0].0@)
        } else {
            t
        } by {
        assert(crate::editor::tabs_after(t, deltas, 0) == t);
    }
    assert forall|m: CursorModeView| #[trigger]
        crate::editor::cursor_after(m, deltas, deltas.len() as int) == if deltas.len() == 1 {
            m.delta_applied(deltas[0].0@)
        } else {
            m
        } by {
        assert(crate::editor::cursor_after(m, deltas, 0) == m);
    }
}

} // verus!
