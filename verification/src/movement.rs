//! The movements of the cursor, and where each takes an offset.

use vstd::prelude::*;
use crate::buffer::{
    Buffer, byte_is_word, forward_chars, is_word_byte, line_begin, line_col_offset, line_end,
    line_start, newlines, next_newline, prev_boundary, skip_blanks, word_end, word_start,
};
use crate::cursor::{Cursor, CursorMode, CursorModeView, Mode};
use crate::position::line_index;
use crate::selection::{SelRegion, Selection, add_region_result, regions_sorted, lemma_add_region_sorted};

verus! {

/// A movement of the cursor.
#[derive(Clone, Copy, Debug, PartialEq, Eq, Structural)]
pub enum Movement {
    Left,
    Right,
    Up,
    Down,
    DocumentStart,
    DocumentEnd,
    FirstNonBlank,
    StartOfLine,
    EndOfLine,
    /// To the line with this number, counted from 1.
    Line(usize),
    Offset(usize),
    /// To the start of the next word.
    WordForward,
    /// To the start of the word, or of the word before.
    WordBackward,
}

impl Movement {
    /// Whether the movement is a jump, from which the view can go back.
    pub open spec fn spec_is_jump(&self) -> bool {
        *self is Line || *self is Offset || *self is DocumentStart || *self is DocumentEnd
    }

    #[verifier::when_used_as_spec(spec_is_jump)]
    pub fn is_jump(&self) -> (r: bool)
        ensures
            r == self.spec_is_jump(),
    {
        match self {
            Movement::Line(_) | Movement::Offset(_) | Movement::DocumentStart | Movement::DocumentEnd => true,
            _ => false,
        }
    }

    pub fn same(&self, other: &Movement) -> (r: bool)
        ensures
            r == (*self == *other),
    {
        match (self, other) {
            (Movement::Left, Movement::Left) => true,
            (Movement::Right, Movement::Right) => true,
            (Movement::Up, Movement::Up) => true,
            (Movement::Down, Movement::Down) => true,
            (Movement::DocumentStart, Movement::DocumentStart) => true,
            (Movement::DocumentEnd, Movement::DocumentEnd) => true,
            (Movement::FirstNonBlank, Movement::FirstNonBlank) => true,
            (Movement::StartOfLine, Movement::StartOfLine) => true,
            (Movement::EndOfLine, Movement::EndOfLine) => true,
            (Movement::Line(a), Movement::Line(b)) => *a == *b,
            (Movement::Offset(a), Movement::Offset(b)) => *a == *b,
            (Movement::WordForward, Movement::WordForward) => true,
            (Movement::WordBackward, Movement::WordBackward) => true,
            _ => false,
        }
    }
}

/// The offset `count` characters in front of `offset`, but not in front of `limit`.
pub open spec fn backward_chars(text: Seq<u8>, offset: int, count: nat, limit: int) -> int
    decreases count,
{
    if count == 0 || offset <= limit || offset <= 0 || offset > text.len() {
        offset
    } else {
        backward_chars(text, prev_boundary(text, offset, limit), (count - 1) as nat, limit)
    }
}

/// The first offset at or behind `from` at which a byte of a word stands,
/// or the end of the text.
pub open spec fn next_word_byte(text: Seq<u8>, from: int) -> int
    decreases text.len() - from,
{
    if from < 0 || from >= text.len() {
        text.len() as int
    } else if is_word_byte(text[from]) {
        from
    } else {
        next_word_byte(text, from + 1)
    }
}

/// The last offset at or in front of `from` in front of which a byte of a
/// word stands, or the start of the text.
pub open spec fn prev_word_byte(text: Seq<u8>, from: int) -> int
    decreases from,
{
    if from <= 0 || from > text.len() {
        0
    } else if is_word_byte(text[from - 1]) {
        from
    } else {
        prev_word_byte(text, from - 1)
    }
}

/// The start of the `count`-th word behind `offset`: over the rest of the
/// word at `offset`, then over what stands between the words.
pub open spec fn words_forward(text: Seq<u8>, offset: int, count: nat) -> int
    decreases count,
{
    if count == 0 || offset < 0 || offset >= text.len() {
        offset
    } else {
        words_forward(text, next_word_byte(text, word_end(text, offset)), (count - 1) as nat)
    }
}

/// The start of the `count`-th word in front of `offset`: over what stands
/// between the words, then to the start of the word.
pub open spec fn words_backward(text: Seq<u8>, offset: int, count: nat) -> int
    decreases count,
{
    if count == 0 || offset <= 0 || offset > text.len() {
        offset
    } else {
        words_backward(text, word_start(text, prev_word_byte(text, offset)), (count - 1) as nat)
    }
}

/// The offset on line `line` that a vertical movement reaches which tries to
/// keep the column `col`.
pub open spec fn column_on_line(text: Seq<u8>, line: nat, col: int, caret: bool) -> int {
    let wanted = line_col_offset(text, line, col);
    let end = line_end(text, line, caret);
    if wanted < end {
        wanted
    } else {
        end
    }
}

/// Where `movement`, made `count` times, takes the offset `offset`, and the
/// column that it keeps for later vertical movements. In normal mode the
/// offset stays on a character of its line; in insert mode it can stand
/// behind the last and go from line to line.
pub open spec fn moved(
    text: Seq<u8>,
    offset: usize,
    horiz: Option<usize>,
    movement: Movement,
    count: usize,
    mode: Mode,
) -> (int, Option<usize>) {
    let n = text.len() as int;
    let o = if offset < n {
        offset as int
    } else {
        n
    };
    let caret = mode != Mode::Normal;
    let line = newlines(text, o);
    let last_line = newlines(text, n);
    let col = match horiz {
        Some(c) => c as int,
        None => o - line_begin(text, o),
    };
    match movement {
        Movement::Left => (
            backward_chars(
                text,
                o,
                count as nat,
                if mode == Mode::Insert {
                    0
                } else {
                    line_begin(text, o)
                },
            ),
            None,
        ),
        Movement::Right => (
            forward_chars(
                text,
                o,
                count as nat,
                if mode == Mode::Insert {
                    n
                } else {
                    line_end(text, line as nat, caret)
                },
            ),
            None,
        ),
        Movement::Up => (
            column_on_line(
                text,
                if count < line {
                    (line - count) as nat
                } else {
                    0
                },
                col,
                caret,
            ),
            Some(col as usize),
        ),
        Movement::Down => (
            column_on_line(
                text,
                if line + count < last_line {
                    (line + count) as nat
                } else {
                    last_line as nat
                },
                col,
                caret,
            ),
            Some(col as usize),
        ),
        Movement::Line(number) => (
            column_on_line(
                text,
                if line_index(number) < last_line {
                    line_index(number)
                } else {
                    last_line as nat
                },
                col,
                caret,
            ),
            Some(col as usize),
        ),
        Movement::DocumentStart => (0, None),
        Movement::DocumentEnd => (line_end(text, last_line as nat, caret), None),
        Movement::FirstNonBlank => (
            skip_blanks(
                text,
                line_start(text, line as nat),
                next_newline(text, line_start(text, line as nat)),
            ),
            None,
        ),
        Movement::StartOfLine => (line_start(text, line as nat), None),
        Movement::EndOfLine => (line_end(text, line as nat, caret), None),
        Movement::Offset(target) => (
            if target < n {
                target as int
            } else {
                n
            },
            None,
        ),
        Movement::WordForward => (words_forward(text, o, count as nat), None),
        Movement::WordBackward => (words_backward(text, o, count as nat), None),
    }
}

/// The region that a movement makes of `region`: its end moves, and its
/// start follows unless the movement extends the selection.
pub open spec fn moved_region(
    text: Seq<u8>,
    region: SelRegion,
    movement: Movement,
    count: usize,
    modify: bool,
) -> SelRegion {
    let m = moved(text, region.end, region.horiz, movement, count, Mode::Insert);
    SelRegion {
        start: if modify {
            region.start
        } else {
            m.0 as usize
        },
        end: m.0 as usize,
        horiz: m.1,
    }
}

/// The first `n` of `regions`, each moved and added to the result in turn.
pub open spec fn moved_regions_upto(
    regions: Seq<SelRegion>,
    text: Seq<u8>,
    movement: Movement,
    count: usize,
    modify: bool,
    n: int,
) -> (Seq<SelRegion>, int)
    decreases n,
{
    if n <= 0 || n > regions.len() {
        (Seq::empty(), 0)
    } else {
        add_region_result(
            moved_regions_upto(regions, text, movement, count, modify, n - 1).0,
            moved_region(text, regions[n - 1], movement, count, modify),
        )
    }
}

/// The cursor after a movement. With `modify` a cursor in normal mode
/// starts a visual span where it stands, and a selection is extended.
pub open spec fn moved_cursor(
    mode: CursorModeView,
    horiz: Option<usize>,
    text: Seq<u8>,
    movement: Movement,
    count: usize,
    modify: bool,
) -> (CursorModeView, Option<usize>) {
    match mode {
        CursorModeView::Normal(offset) => {
            let m = moved(text, offset, horiz, movement, count, Mode::Normal);
            (
                if modify {
                    CursorModeView::Visual {
                        start: offset,
                        end: m.0 as usize,
                        mode: crate::cursor::VisualMode::Normal,
                    }
                } else {
                    CursorModeView::Normal(m.0 as usize)
                },
                m.1,
            )
        },
        CursorModeView::Visual { start, end, mode: visual } => {
            let m = moved(text, end, horiz, movement, count, Mode::Visual);
            (CursorModeView::Visual { start, end: m.0 as usize, mode: visual }, m.1)
        },
        CursorModeView::Insert(regions, _) => {
            let r = moved_regions_upto(regions, text, movement, count, modify, regions.len() as int);
            (CursorModeView::Insert(r.0, r.1), None)
        },
    }
}

impl Buffer {
    /// The offset `count` characters in front of `offset`, but not in front
    /// of `limit`.
    pub fn prev_grapheme_offset(&self, offset: usize, count: usize, limit: usize) -> (r: usize)
        ensures
            r == backward_chars(self@, offset as int, count as nat, limit as int),
            r <= offset,
            limit <= offset ==> limit <= r,
    {
        let n = self.text.len();
        let mut pos: usize = offset;
        let mut left: usize = count;
        while left > 0 && pos > limit && pos > 0 && pos <= n
            invariant
                n == self.text@.len(),
                pos <= offset,
                limit <= offset ==> limit <= pos,
                backward_chars(self.text@, offset as int, count as nat, limit as int)
                    == backward_chars(self.text@, pos as int, left as nat, limit as int),
            decreases left,
        {
            pos = self.prev_char_offset(pos, limit);
            left -= 1;
        }
        pos
    }

    /// The offset on line `line` that a vertical movement reaches which
    /// tries to keep the column `col`.
    pub fn column_offset(&self, line: usize, col: usize, caret: bool) -> (r: usize)
        ensures
            r == column_on_line(self@, line as nat, col as int, caret),
            r <= self@.len(),
    {
        let wanted = self.offset_of_line_col(line, col);
        let end = self.line_end_offset(line, caret);
        if wanted < end {
            wanted
        } else {
            end
        }
    }

    /// Where `movement`, made `count` times, takes `offset`, and the column
    /// that it keeps.
    pub fn move_offset(
        &self,
        offset: usize,
        horiz: Option<usize>,
        movement: &Movement,
        count: usize,
        mode: Mode,
    ) -> (r: (usize, Option<usize>))
        ensures
            r.0 == moved(self@, offset, horiz, *movement, count, mode).0,
            r.1 == moved(self@, offset, horiz, *movement, count, mode).1,
            r.0 <= self@.len(),
    {
        let n = self.text.len();
        let o = if offset < n {
            offset
        } else {
            n
        };
        let insert = match mode {
            Mode::Insert => true,
            _ => false,
        };
        let caret = match mode {
            Mode::Normal => false,
            _ => true,
        };
        let (line, col_here) = self.offset_to_line_col(o);
        let last_line = self.last_line();
        let col = match horiz {
            Some(c) => c,
            None => col_here,
        };
        match movement {
            Movement::Left => {
                let limit = if insert {
                    0
                } else {
                    o - col_here
                };
                (self.prev_grapheme_offset(o, count, limit), None)
            },
            Movement::Right => {
                let limit = if insert {
                    n
                } else {
                    self.line_end_offset(line, caret)
                };
                let r = self.next_grapheme_offset(o, count, limit);
                (
                    if r <= n {
                        r
                    } else {
                        n
                    },
                    None,
                )
            },
            Movement::Up => {
                let target = if count < line {
                    line - count
                } else {
                    0
                };
                (self.column_offset(target, col, caret), Some(col))
            },
            Movement::Down => {
                let target = if count < last_line && line < last_line - count {
                    line + count
                } else {
                    last_line
                };
                (self.column_offset(target, col, caret), Some(col))
            },
            Movement::Line(number) => {
                let index = number.saturating_sub(1);
                let target = if index < last_line {
                    index
                } else {
                    last_line
                };
                (self.column_offset(target, col, caret), Some(col))
            },
            Movement::DocumentStart => (0, None),
            Movement::DocumentEnd => (self.line_end_offset(last_line, caret), None),
            Movement::FirstNonBlank => (self.first_non_blank_character_on_line(line), None),
            Movement::StartOfLine => (self.offset_of_line(line), None),
            Movement::EndOfLine => (self.line_end_offset(line, caret), None),
            Movement::Offset(target) => (
                if *target < n {
                    *target
                } else {
                    n
                },
                None,
            ),
            Movement::WordForward => (self.words_forward_offset(o, count), None),
            Movement::WordBackward => (self.words_backward_offset(o, count), None),
        }
    }

    /// The first offset at or behind `from` at which a byte of a word stands.
    pub fn next_word_offset(&self, from: usize) -> (r: usize)
        ensures
            r == next_word_byte(self@, from as int),
            r <= self@.len(),
            from <= self@.len() ==> from <= r,
    {
        let n = self.text.len();
        let mut i: usize = from;
        while i < n && !byte_is_word(self.text[i])
            invariant
                n == self.text@.len(),
                from <= i,
                next_word_byte(self.text@, from as int) == next_word_byte(self.text@, i as int),
            decreases n - i,
        {
            i += 1;
        }
        if i < n {
            i
        } else {
            n
        }
    }

    /// The last offset at or in front of `from` in front of which a byte
    /// of a word stands.
    pub fn prev_word_offset(&self, from: usize) -> (r: usize)
        ensures
            r == prev_word_byte(self@, from as int),
            r <= from,
    {
        let n = self.text.len();
        if from > n {
            return 0;
        }
        let mut i: usize = from;
        while i > 0 && !byte_is_word(self.text[i - 1])
            invariant
                i <= from <= self.text@.len(),
                prev_word_byte(self.text@, from as int) == prev_word_byte(self.text@, i as int),
            decreases i,
        {
            i -= 1;
        }
        i
    }

    /// The start of the `count`-th word behind `offset`.
    pub fn words_forward_offset(&self, offset: usize, count: usize) -> (r: usize)
        requires
            offset <= self@.len(),
        ensures
            r == words_forward(self@, offset as int, count as nat),
            r <= self@.len(),
    {
        let n = self.text.len();
        let mut pos: usize = offset;
        let mut left: usize = count;
        while left > 0 && pos < n
            invariant
                n == self.text@.len(),
                pos <= n,
                words_forward(self.text@, offset as int, count as nat) == words_forward(
                    self.text@,
                    pos as int,
                    left as nat,
                ),
            decreases left,
        {
            let end = self.next_code_boundary(pos);
            pos = self.next_word_offset(end);
            left -= 1;
        }
        pos
    }

    /// The start of the `count`-th word in front of `offset`.
    pub fn words_backward_offset(&self, offset: usize, count: usize) -> (r: usize)
        requires
            offset <= self@.len(),
        ensures
            r == words_backward(self@, offset as int, count as nat),
            r <= offset,
    {
        let mut pos: usize = offset;
        let mut left: usize = count;
        while left > 0 && pos > 0
            invariant
                pos <= offset <= self.text@.len(),
                words_backward(self.text@, offset as int, count as nat) == words_backward(
                    self.text@,
                    pos as int,
                    left as nat,
                ),
            decreases left,
        {
            let end = self.prev_word_offset(pos);
            pos = self.prev_code_boundary(end);
            left -= 1;
        }
        pos
    }
}

/// Moved regions, added in turn, are in order.
pub proof fn lemma_moved_regions_sorted(
    regions: Seq<SelRegion>,
    text: Seq<u8>,
    movement: Movement,
    count: usize,
    modify: bool,
    n: int,
)
    ensures
        regions_sorted(moved_regions_upto(regions, text, movement, count, modify, n).0),
        moved_regions_upto(regions, text, movement, count, modify, n).0.len() > 0 ==> 0
            <= moved_regions_upto(regions, text, movement, count, modify, n).1 < moved_regions_upto(
            regions,
            text,
            movement,
            count,
            modify,
            n,
        ).0.len(),
        moved_regions_upto(regions, text, movement, count, modify, n).0.len() == 0
            ==> moved_regions_upto(regions, text, movement, count, modify, n).1 == 0,
    decreases n,
{
    if 0 < n <= regions.len() {
        lemma_moved_regions_sorted(regions, text, movement, count, modify, n - 1);
        lemma_add_region_sorted(
            moved_regions_upto(regions, text, movement, count, modify, n - 1).0,
            moved_region(text, regions[n - 1], movement, count, modify),
        );
    }
}

impl Cursor {
    /// Moves the cursor over the text of `buffer`.
    pub fn move_by(&mut self, buffer: &Buffer, movement: &Movement, count: usize, modify: bool)
        requires
            old(self).wf(),
        ensures
            final(self).mode@ == moved_cursor(
                old(self).mode@,
                old(self).horiz,
                buffer@,
                *movement,
                count,
                modify,
            ).0,
            final(self).horiz == moved_cursor(
                old(self).mode@,
                old(self).horiz,
                buffer@,
                *movement,
                count,
                modify,
            ).1,
            final(self).wf(),
            final(self).motion_mode == old(self).motion_mode,
            final(self).history_selections == old(self).history_selections,
    {
        let (mode, horiz) = match &self.mode {
            CursorMode::Normal(offset) => {
                let (new_offset, horiz) = buffer.move_offset(
                    *offset,
                    self.horiz,
                    movement,
                    count,
                    Mode::Normal,
                );
                (
                    if modify {
                        CursorMode::Visual {
                            start: *offset,
                            end: new_offset,
                            mode: crate::cursor::VisualMode::Normal,
                        }
                    } else {
                        CursorMode::Normal(new_offset)
                    },
                    horiz,
                )
            },
            CursorMode::Visual { start, end, mode } => {
                let (new_offset, horiz) = buffer.move_offset(
                    *end,
                    self.horiz,
                    movement,
                    count,
                    Mode::Visual,
                );
                (CursorMode::Visual { start: *start, end: new_offset, mode: *mode }, horiz)
            },
            CursorMode::Insert(selection) => {
                let mut result = Selection::new();
                let mut i: usize = 0;
                while i < selection.regions.len()
                    invariant
                        i <= selection.regions@.len(),
                        result.wf(),
                        result@ == moved_regions_upto(
                            selection@,
                            buffer@,
                            *movement,
                            count,
                            modify,
                            i as int,
                        ).0,
                        result.last_inserted == moved_regions_upto(
                            selection@,
                            buffer@,
                            *movement,
                            count,
                            modify,
                            i as int,
                        ).1,
                    decreases selection.regions@.len() - i,
                {
                    let region = selection.regions[i];
                    let (new_end, horiz) = buffer.move_offset(
                        region.end,
                        region.horiz,
                        movement,
                        count,
                        Mode::Insert,
                    );
                    let new_region = SelRegion::new(
                        if modify {
                            region.start
                        } else {
                            new_end
                        },
                        new_end,
                        horiz,
                    );
                    assert(new_region == moved_region(buffer@, region, *movement, count, modify));
                    result.add_region(new_region);
                    i += 1;
                }
                (CursorMode::Insert(result), None)
            },
        };
        self.mode = mode;
        self.horiz = horiz;
    }
}

} // verus!
