//! Scrolling, paging, and the clicks of the pointer.

use vstd::prelude::*;
use crate::buffer::{line_col_offset, line_end, line_start, newlines, next_newline, word_end, word_start};
use crate::command::{
    ActionView, EditorAction, FocusCommand, Modifiers, Rect, Target, UiCommand, actions_view,
    no_actions, push_action,
};
use crate::cursor::Mode;
use crate::data::history_index;
use crate::editor::{LapceEditorBufferData, Touched};
use crate::movement::Movement;
use crate::navigate::{actual_line, clamp_i64, clamp_usize, scroll_line, to_i64, to_usize};

verus! {

/// The product of a height in pixels and a number of lines.
pub fn times(height: u32, count: usize) -> (r: i128)
    ensures
        r == height * count,
        0 <= r < 0x1_0000_0000_0000_0000_0000_0000,
{
    assert(0 <= height * count < 0x1_0000_0000_0000_0000_0000_0000) by (nonlinear_arith)
        requires
            0 <= height < 0x1_0000_0000,
            0 <= count < 0x1_0000_0000_0000_0000,
    ;
    (height as i128) * (count as i128)
}

impl LapceEditorBufferData {
    /// The number of lines that half a page holds, rounded; none where the
    /// height of a line is not known.
    pub open spec fn page_lines(&self) -> usize {
        let height = self.config.line_height as int;
        if height == 0 {
            0
        } else {
            clamp_usize((self.editor.size.height + height) / (2 * height))
        }
    }

    /// Moves the cursor half a page down or up and asks for the view to
    /// show what lies that far from what it shows now.
    pub fn page_move(&mut self, down: bool, mods: Modifiers) -> (r: Vec<EditorAction>)
        requires
            old(self).wf(),
        ensures
            Self::move_post(
                *old(self),
                *final(self),
                if down {
                    Movement::Down
                } else {
                    Movement::Up
                },
                Some(old(self).page_lines()),
                mods,
            ),
            actions_view(r@) == seq![
                ActionView::Ui {
                    cmd: UiCommand::EnsureRectVisible(
                        Rect {
                            x: old(self).editor.scroll_offset.x,
                            y: clamp_i64(
                                old(self).editor.scroll_offset.y + if down {
                                    old(self).page_lines() * old(self).config.line_height
                                } else {
                                    -(old(self).page_lines() * old(self).config.line_height)
                                },
                            ),
                            width: old(self).editor.size.width,
                            height: old(self).editor.size.height,
                        },
                    ),
                    target: Target::Widget(old(self).editor.view_id),
                },
            ],
    {
        let line_height = self.config.line_height as u64;
        let lines: usize = if line_height == 0 {
            0
        } else {
            to_usize(((self.editor.size.height as u64 + line_height) / (2 * line_height)) as i128)
        };
        let distance: i128 = times(self.config.line_height, lines);
        assert(lines == self.page_lines());
        assert(distance == self.page_lines() * self.config.line_height) by (nonlinear_arith)
            requires
                distance == self.config.line_height * lines,
                lines == self.page_lines(),
        ;
        let movement = if down {
            Movement::Down
        } else {
            Movement::Up
        };
        self.run_move_command(&movement, Some(lines), mods);
        let y = self.editor.scroll_offset.y as i128 + if down {
            distance
        } else {
            -distance
        };
        let rect = Rect {
            x: self.editor.scroll_offset.x,
            y: to_i64(y),
            width: self.editor.size.width,
            height: self.editor.size.height,
        };
        let mut actions = no_actions();
        push_action(
            &mut actions,
            EditorAction::Ui {
                cmd: UiCommand::EnsureRectVisible(rect),
                target: Target::Widget(self.editor.view_id),
            },
        );
        assert(actions_view(actions@) =~= seq![actions@[0]@]);
        actions
    }

    /// The line on which the cursor stands.
    pub open spec fn cursor_line(&self) -> int {
        newlines(
            self.doc.buffer@,
            vstd::math::min(self.editor.cursor.mode@.offset() as int, self.doc.buffer@.len() as int),
        )
    }

    /// The pixel that is the upper edge of the view after it was scrolled
    /// by `count` lines.
    pub open spec fn scrolled_top(&self, down: bool, count: usize) -> int {
        let diff = self.config.line_height * count;
        self.editor.scroll_offset.y + if down {
            diff
        } else {
            -diff
        }
    }

    /// The line to which the cursor goes when the view is scrolled by
    /// `count` lines; it stays where the height of a line is not known.
    pub open spec fn scrolled_line(&self, down: bool, count: usize) -> usize {
        let height = self.config.line_height as int;
        let top = self.scrolled_top(down, count);
        if height == 0 {
            self.cursor_line() as usize
        } else {
            clamp_usize(
                scroll_line(self.cursor_line(), height, top, top + self.editor.size.height),
            )
        }
    }

    /// Scrolls the view by `count` lines and takes the cursor along where
    /// it would leave the view.
    pub fn scroll(&mut self, down: bool, count: usize, mods: Modifiers) -> (r: Vec<EditorAction>)
        requires
            old(self).wf(),
        ensures
            ({
                let line = old(self).cursor_line();
                let new_line = old(self).scrolled_line(down, count);
                if new_line > line {
                    Self::move_post(
                        *old(self),
                        *final(self),
                        Movement::Down,
                        Some((new_line - line) as usize),
                        mods,
                    )
                } else if new_line < line {
                    Self::move_post(
                        *old(self),
                        *final(self),
                        Movement::Up,
                        Some((line - new_line) as usize),
                        mods,
                    )
                } else {
                    *final(self) == *old(self)
                }
            }),
            actions_view(r@) == seq![
                ActionView::Ui {
                    cmd: UiCommand::ScrollTo(
                        old(self).editor.scroll_offset.x,
                        clamp_i64(old(self).scrolled_top(down, count)),
                    ),
                    target: Target::Widget(old(self).editor.view_id),
                },
            ],
    {
        let height = self.config.line_height as i128;
        let diff: i128 = times(self.config.line_height, count);
        let diff = if down {
            diff
        } else {
            -diff
        };
        let offset = self.editor.cursor.offset();
        let (line, _col) = self.doc.buffer.offset_to_line_col(offset);
        let top: i128 = self.editor.scroll_offset.y as i128 + diff;
        let bottom: i128 = top + self.editor.size.height as i128;
        let x = self.editor.scroll_offset.x;
        let view_id = self.editor.view_id;
        let new_line: usize = if height == 0 {
            line
        } else {
            let below: i128 = times(self.config.line_height, line);
            let product: i128 = below + height;
            assert(product == (line + 1) * (height as int)) by (nonlinear_arith)
                requires
                    product == (line as int) * (height as int) + (height as int),
            ;
            if product + height > bottom {
                let l: i128 = if bottom > 0 {
                    bottom / height
                } else {
                    0
                };
                to_usize(
                    if l > 2 {
                        l - 2
                    } else {
                        0
                    },
                )
            } else if below - height < top {
                to_usize(
                    (if top > 0 {
                        (top + height - 1) / height
                    } else {
                        0
                    }) + 1,
                )
            } else {
                line
            }
        };
        if new_line > line {
            self.run_move_command(&Movement::Down, Some(new_line - line), mods);
        } else if new_line < line {
            self.run_move_command(&Movement::Up, Some(line - new_line), mods);
        }
        let mut actions = no_actions();
        push_action(
            &mut actions,
            EditorAction::Ui {
                cmd: UiCommand::ScrollTo(x, to_i64(top)),
                target: Target::Widget(view_id),
            },
        );
        assert(actions_view(actions@) =~= seq![actions@[0]@]);
        actions
    }

    /// The line of the text that is shown at the line `visual_line` of the
    /// view: in a view that compares the file with an earlier state, the
    /// line of the file that stands there.
    pub open spec fn line_shown_at(&self, visual_line: usize) -> usize {
        match self.editor.compare {
            Some(version) if !(self.editor.view is Lens) => match history_index(
                self.doc.histories@,
                version@,
                0,
            ) {
                Some(h) => clamp_usize(
                    actual_line(self.doc.histories@[h].changes@, visual_line as int, 0, 0, 0),
                ),
                None => visual_line,
            },
            _ => visual_line,
        }
    }

    /// The offset at which a pointer stands that is over the line
    /// `visual_line` of the view and, counted in characters from the left,
    /// nearest to the column `col_round` and in the column `col_floor`.
    /// In insert mode the caret goes to the nearest gap between
    /// characters; in the other modes it goes onto the character under the
    /// pointer. Below the last line it goes to the start of the last line.
    pub open spec fn mouse_offset(&self, visual_line: usize, col_round: usize, col_floor: usize) -> int {
        let text = self.doc.buffer@;
        let line = self.line_shown_at(visual_line);
        let last_line = newlines(text, text.len() as int);
        let mode = self.editor.cursor.mode@.mode();
        if line > last_line {
            line_col_offset(text, last_line as nat, 0)
        } else {
            let max_col = line_end(text, line as nat, mode != Mode::Normal) - line_start(
                text,
                line as nat,
            );
            let col = if mode == Mode::Insert {
                col_round
            } else {
                col_floor
            };
            line_col_offset(
                text,
                line as nat,
                if col < max_col {
                    col as int
                } else {
                    max_col
                },
            )
        }
    }

    /// The offset at which the pointer stands.
    pub fn offset_of_mouse(&self, visual_line: usize, col_round: usize, col_floor: usize) -> (r: usize)
        ensures
            r == self.mouse_offset(visual_line, col_round, col_floor),
            r <= self.doc.buffer@.len(),
    {
        let line = if self.editor.is_code_lens() {
            visual_line
        } else {
            match &self.editor.compare {
                Some(compare) => self.doc.history_actual_line_from_visual(compare.as_str(), visual_line),
                None => visual_line,
            }
        };
        let last_line = self.doc.buffer.last_line();
        let mode = self.editor.cursor.get_mode();
        let (line, col) = if line > last_line {
            (last_line, 0)
        } else {
            let caret = match mode {
                Mode::Normal => false,
                _ => true,
            };
            let line_end = self.doc.buffer.line_end_col(line, caret);
            let wanted = match mode {
                Mode::Insert => col_round,
                _ => col_floor,
            };
            (
                line,
                if wanted < line_end {
                    wanted
                } else {
                    line_end
                },
            )
        };
        self.doc.buffer.offset_of_line_col(line, col)
    }

    /// A click at `new_offset`. It moves the cursor: with shift it extends
    /// what is selected, with alt it adds a caret. With the key that goes
    /// to definitions held (`goto_key`) the view is told to go there;
    /// else, with the left button, the view takes the pointer.
    pub fn single_click(
        &mut self,
        new_offset: usize,
        mods: Modifiers,
        goto_key: bool,
        left_button: bool,
    ) -> (r: Vec<EditorAction>)
        requires
            old(self).wf(),
        ensures
            Self::only_touched(*old(self), *final(self), Touched::none().editor()),
            final(self).wf(),
            final(self).editor.cursor.mode@ == old(self).editor.cursor.mode@.with_offset(
                new_offset,
                mods.shift,
                mods.alt,
            ),
            final(self).editor.cursor.horiz == old(self).editor.cursor.horiz,
            final(self).editor.jumps == old(self).editor.jumps,
            final(self).editor.snippet == old(self).editor.snippet,
            final(self).editor.last_movement_new == old(self).editor.last_movement_new,
            final(self).editor.same_frame(old(self).editor),
            actions_view(r@) == if goto_key {
                seq![
                    ActionView::Command {
                        cmd: FocusCommand::GotoDefinition,
                        target: Target::Widget(old(self).editor.view_id),
                    },
                ]
            } else if left_button {
                seq![ActionView::SetActive]
            } else {
                Seq::empty()
            },
    {
        self.editor.cursor.set_offset(new_offset, mods.shift, mods.alt);
        let mut actions = no_actions();
        if goto_key {
            push_action(
                &mut actions,
                EditorAction::Command {
                    cmd: FocusCommand::GotoDefinition,
                    target: Target::Widget(self.editor.view_id),
                },
            );
            assert(actions_view(actions@) =~= seq![actions@[0]@]);
        } else if left_button {
            push_action(&mut actions, EditorAction::SetActive);
            assert(actions_view(actions@) =~= seq![actions@[0]@]);
        }
        actions
    }

    /// A double click at `mouse_offset`: the word there is selected.
    pub fn double_click(&mut self, mouse_offset: usize, mods: Modifiers) -> (r: Vec<EditorAction>)
        requires
            old(self).wf(),
        ensures
            Self::only_touched(*old(self), *final(self), Touched::none().editor()),
            final(self).wf(),
            final(self).editor.cursor.mode@ == old(self).editor.cursor.mode@.with_region(
                word_start(old(self).doc.buffer@, mouse_offset as int) as usize,
                word_end(old(self).doc.buffer@, mouse_offset as int) as usize,
                mods.shift,
                mods.alt,
            ),
            final(self).editor.jumps == old(self).editor.jumps,
            final(self).editor.snippet == old(self).editor.snippet,
            final(self).editor.last_movement_new == old(self).editor.last_movement_new,
            final(self).editor.same_frame(old(self).editor),
            actions_view(r@) == seq![ActionView::SetActive],
    {
        let (start, end) = self.doc.buffer.select_word(mouse_offset);
        self.editor.cursor.add_region(start, end, mods.shift, mods.alt);
        let mut actions = no_actions();
        push_action(&mut actions, EditorAction::SetActive);
        assert(actions_view(actions@) =~= seq![actions@[0]@]);
        actions
    }

    /// A triple click at `mouse_offset`: the line there is selected, its
    /// line break included.
    pub fn triple_click(&mut self, mouse_offset: usize, mods: Modifiers) -> (r: Vec<EditorAction>)
        requires
            old(self).wf(),
        ensures
            Self::only_touched(*old(self), *final(self), Touched::none().editor()),
            final(self).wf(),
            ({
                let text = old(self).doc.buffer@;
                let n = text.len() as int;
                let line = newlines(text, vstd::math::min(mouse_offset as int, n));
                let start = line_start(text, line as nat);
                let line_break = next_newline(text, start);
                final(self).editor.cursor.mode@ == old(self).editor.cursor.mode@.with_region(
                    start as usize,
                    if line_break < n {
                        (line_break + 1) as usize
                    } else {
                        n as usize
                    },
                    mods.shift,
                    mods.alt,
                )
            }),
            final(self).editor.jumps == old(self).editor.jumps,
            final(self).editor.snippet == old(self).editor.snippet,
            final(self).editor.last_movement_new == old(self).editor.last_movement_new,
            final(self).editor.same_frame(old(self).editor),
            actions_view(r@) == seq![ActionView::SetActive],
    {
        let n = self.doc.buffer.len();
        let line = self.doc.buffer.line_of_offset(mouse_offset);
        let start = self.doc.buffer.offset_of_line(line);
        let line_break = self.doc.buffer.next_line_break(start);
        let end = if line_break < n {
            line_break + 1
        } else {
            n
        };
        self.editor.cursor.add_region(start, end, mods.shift, mods.alt);
        let mut actions = no_actions();
        push_action(&mut actions, EditorAction::SetActive);
        assert(actions_view(actions@) =~= seq![actions@[0]@]);
        actions
    }
}

} // verus!
