//! The cursor of a view: a single offset, a visual span, or a selection of
//! carets and regions, with the operations that move and reshape it.

use vstd::prelude::*;
use crate::buffer::{Buffer, line_end, newlines};
use crate::delta::{Delta, DeltaView, InsertDrift, lemma_total_len_nonnegative};
use crate::selection::{
    SelRegion, Selection, add_region_result, apply_delta_upto, regions_sorted, regions_within,
    lemma_add_region_sorted,
};

verus! {

/// The mode of the editor as the key bindings see it.
#[derive(Clone, Copy, Debug, PartialEq, Eq, Structural)]
pub enum Mode {
    Normal,
    Insert,
    Visual,
}

/// What a visual span selects.
#[derive(Clone, Copy, Debug, PartialEq, Eq, Structural)]
pub enum VisualMode {
    Normal,
    Linewise,
    Blockwise,
}

/// An operator that waits for the motion it is applied to.
#[derive(Clone, Copy, Debug, PartialEq, Eq, Structural)]
pub enum MotionMode {
    Delete,
    Yank,
    Indent,
    Outdent,
}

/// Where the cursor is, by mode.
#[derive(Debug)]
pub enum CursorMode {
    Normal(usize),
    Visual { start: usize, end: usize, mode: VisualMode },
    Insert(Selection),
}

/// A cursor mode as a value of specifications: a selection is given by its
/// regions and the index of the region added last.
pub enum CursorModeView {
    Normal(usize),
    Visual { start: usize, end: usize, mode: VisualMode },
    Insert(Seq<SelRegion>, int),
}

impl View for CursorMode {
    type V = CursorModeView;

    open spec fn view(&self) -> CursorModeView {
        match *self {
            CursorMode::Normal(offset) => CursorModeView::Normal(offset),
            CursorMode::Visual { start, end, mode } => CursorModeView::Visual { start, end, mode },
            CursorMode::Insert(selection) => CursorModeView::Insert(
                selection@,
                selection.last_inserted as int,
            ),
        }
    }
}

impl Clone for CursorMode {
    fn clone(&self) -> (r: CursorMode)
        ensures
            r@ == self@,
    {
        match self {
            CursorMode::Normal(offset) => CursorMode::Normal(*offset),
            CursorMode::Visual { start, end, mode } => CursorMode::Visual {
                start: *start,
                end: *end,
                mode: *mode,
            },
            CursorMode::Insert(selection) => CursorMode::Insert(selection.clone()),
        }
    }
}

impl CursorModeView {
    /// A selection, where there is one, is in order, and the index of its
    /// last region names one of its regions.
    pub open spec fn wf(self) -> bool {
        match self {
            CursorModeView::Insert(regions, last) => regions_sorted(regions) && (0 <= last
                < regions.len() || (regions.len() == 0 && last == 0)),
            _ => true,
        }
    }

    /// The cursor stands in a text of `len` bytes: no offset of it lies
    /// behind the end of the text.
    pub open spec fn within(self, len: int) -> bool {
        match self {
            CursorModeView::Normal(offset) => offset <= len,
            CursorModeView::Visual { start, end, .. } => start <= len && end <= len,
            CursorModeView::Insert(regions, _) => regions_within(regions, len),
        }
    }

    /// The offset of the caret: the offset itself, the end of the visual
    /// span, or the end of the region added last.
    pub open spec fn offset(self) -> usize {
        match self {
            CursorModeView::Normal(offset) => offset,
            CursorModeView::Visual { end, .. } => end,
            CursorModeView::Insert(regions, last) => if 0 <= last < regions.len() {
                regions[last].end
            } else {
                0
            },
        }
    }

    pub open spec fn mode(self) -> Mode {
        match self {
            CursorModeView::Normal(_) => Mode::Normal,
            CursorModeView::Visual { .. } => Mode::Visual,
            CursorModeView::Insert(..) => Mode::Insert,
        }
    }

    /// The cursor after `delta` changed the text. An offset goes behind text
    /// inserted at it; of a visual span the start stays in front of such text.
    pub open spec fn delta_applied(self, delta: DeltaView) -> CursorModeView {
        match self {
            CursorModeView::Normal(offset) => CursorModeView::Normal(
                delta.transform(offset as int, true) as usize,
            ),
            CursorModeView::Visual { start, end, mode } => CursorModeView::Visual {
                start: delta.transform(start as int, false) as usize,
                end: delta.transform(end as int, true) as usize,
                mode,
            },
            CursorModeView::Insert(regions, _) => {
                let r = apply_delta_upto(regions, delta, true, InsertDrift::Default, regions.len() as int);
                CursorModeView::Insert(r.0, r.1)
            },
        }
    }

    /// The cursor after a click at `offset`. With `modify` the click extends
    /// what is selected; with `new_cursor`, in insert mode, it adds a caret.
    pub open spec fn with_offset(self, offset: usize, modify: bool, new_cursor: bool) -> CursorModeView {
        match self {
            CursorModeView::Normal(old_offset) => if modify {
                CursorModeView::Visual { start: old_offset, end: offset, mode: VisualMode::Normal }
            } else {
                CursorModeView::Normal(offset)
            },
            CursorModeView::Visual { start, end, mode } => if modify {
                CursorModeView::Visual { start, end: offset, mode }
            } else {
                CursorModeView::Normal(offset)
            },
            CursorModeView::Insert(regions, last) => {
                let caret = SelRegion { start: offset, end: offset, horiz: None };
                if new_cursor {
                    if modify && 0 <= last < regions.len() {
                        let r = add_region_result(
                            regions.remove(last),
                            SelRegion { start: regions[last].start, end: offset, horiz: None },
                        );
                        CursorModeView::Insert(r.0, r.1)
                    } else {
                        let r = add_region_result(regions, caret);
                        CursorModeView::Insert(r.0, r.1)
                    }
                } else if modify && regions.len() > 0 {
                    CursorModeView::Insert(
                        seq![SelRegion { start: regions[0].start, end: offset, horiz: None }],
                        0,
                    )
                } else {
                    CursorModeView::Insert(seq![caret], 0)
                }
            },
        }
    }

    /// The cursor after the stretch from `start` to `end` was selected, as a
    /// double or triple click does. A visual span ends on the last selected
    /// byte. With `modify` the stretch is joined to what is selected; with
    /// `new_cursor`, in insert mode, it is added as a region of its own.
    pub open spec fn with_region(self, start: usize, end: usize, modify: bool, new_cursor: bool) -> CursorModeView {
        let last_byte = if end > 0 {
            (end - 1) as usize
        } else {
            0
        };
        let region = SelRegion { start, end, horiz: None };
        match self {
            CursorModeView::Normal(_) => CursorModeView::Visual {
                start,
                end: last_byte,
                mode: VisualMode::Normal,
            },
            CursorModeView::Visual { start: old_start, end: _, mode } => CursorModeView::Visual {
                start: if modify && old_start < start {
                    old_start
                } else {
                    start
                },
                end: last_byte,
                mode: VisualMode::Normal,
            },
            CursorModeView::Insert(regions, last) => {
                if new_cursor {
                    if modify && 0 <= last < regions.len() {
                        let r = add_region_result(
                            regions.remove(last),
                            regions[last].merge_with(region),
                        );
                        CursorModeView::Insert(r.0, r.1)
                    } else {
                        let r = add_region_result(regions, region);
                        CursorModeView::Insert(r.0, r.1)
                    }
                } else if modify && regions.len() > 0 {
                    CursorModeView::Insert(seq![regions[0].merge_with(region)], 0)
                } else {
                    CursorModeView::Insert(seq![region], 0)
                }
            },
        }
    }
}

/// Regions in order stay in order when one is taken out.
pub proof fn lemma_remove_sorted(regions: Seq<SelRegion>, i: int)
    requires
        regions_sorted(regions),
        0 <= i < regions.len(),
    ensures
        regions_sorted(regions.remove(i)),
{
    let r = regions.remove(i);
    assert forall|a: int, b: int| 0 <= a < b < r.len() implies (#[trigger] r[a]).max() <= (
    #[trigger] r[b]).min() by {
        let a2 = if a < i {
            a
        } else {
            a + 1
        };
        let b2 = if b < i {
            b
        } else {
            b + 1
        };
        assert(r[a] == regions[a2]);
        assert(r[b] == regions[b2]);
    }
}

/// Each of the two operations on a well-formed cursor gives a well-formed cursor.
pub proof fn lemma_cursor_ops_wf(m: CursorModeView, a: usize, b: usize, modify: bool, new_cursor: bool)
    requires
        m.wf(),
    ensures
        m.with_offset(a, modify, new_cursor).wf(),
        m.with_region(a, b, modify, new_cursor).wf(),
{
    match m {
        CursorModeView::Insert(regions, last) => {
            if 0 <= last < regions.len() {
                lemma_remove_sorted(regions, last);
                lemma_add_region_sorted(
                    regions.remove(last),
                    SelRegion { start: regions[last].start, end: a, horiz: None },
                );
                lemma_add_region_sorted(
                    regions.remove(last),
                    regions[last].merge_with(SelRegion { start: a, end: b, horiz: None }),
                );
            }
            lemma_add_region_sorted(regions, SelRegion { start: a, end: a, horiz: None });
            lemma_add_region_sorted(regions, SelRegion { start: a, end: b, horiz: None });
        },
        _ => {},
    }
}

/// The cursor of a view.
#[derive(Debug)]
pub struct Cursor {
    pub mode: CursorMode,
    /// The column that vertical movement tries to keep.
    pub horiz: Option<usize>,
    /// The operator that waits for a motion.
    pub motion_mode: Option<MotionMode>,
    /// Earlier selections, to go back to.
    pub history_selections: Vec<Selection>,
}

impl Clone for Cursor {
    fn clone(&self) -> (r: Cursor)
        ensures
            r.mode@ == self.mode@,
            r.horiz == self.horiz,
            r.motion_mode == self.motion_mode,
            r.history_selections@.len() == self.history_selections@.len(),
    {
        let mut history: Vec<Selection> = Vec::new();
        let mut i: usize = 0;
        while i < self.history_selections.len()
            invariant
                i <= self.history_selections@.len(),
                history@.len() == i,
            decreases self.history_selections@.len() - i,
        {
            history.push(self.history_selections[i].clone());
            i += 1;
        }
        Cursor {
            mode: self.mode.clone(),
            horiz: self.horiz,
            motion_mode: self.motion_mode,
            history_selections: history,
        }
    }
}

impl Cursor {
    pub open spec fn wf(&self) -> bool {
        self.mode@.wf()
    }

    pub fn new(mode: CursorMode, horiz: Option<usize>, motion_mode: Option<MotionMode>) -> (c: Cursor)
        ensures
            c.mode@ == mode@,
            c.horiz == horiz,
            c.motion_mode == motion_mode,
            c.history_selections@.len() == 0,
    {
        Cursor { mode, horiz, motion_mode, history_selections: Vec::new() }
    }

    /// A cursor in normal mode at offset 0.
    pub fn origin() -> (c: Cursor)
        ensures
            c.mode@ == CursorModeView::Normal(0),
            c.horiz.is_none(),
            c.motion_mode.is_none(),
            c.history_selections@.len() == 0,
            c.wf(),
    {
        Cursor::new(CursorMode::Normal(0), None, None)
    }

    /// The offset of the caret.
    pub fn offset(&self) -> (r: usize)
        ensures
            r == self.mode@.offset(),
    {
        match &self.mode {
            CursorMode::Normal(offset) => *offset,
            CursorMode::Visual { start: _, end, mode: _ } => *end,
            CursorMode::Insert(selection) => selection.get_cursor_offset(),
        }
    }

    pub fn get_mode(&self) -> (r: Mode)
        ensures
            r == self.mode@.mode(),
    {
        match &self.mode {
            CursorMode::Normal(_) => Mode::Normal,
            CursorMode::Visual { .. } => Mode::Visual,
            CursorMode::Insert(_) => Mode::Insert,
        }
    }

    pub fn is_normal(&self) -> (r: bool)
        ensures
            r == (self.mode@.mode() == Mode::Normal),
    {
        match &self.mode {
            CursorMode::Normal(_) => true,
            _ => false,
        }
    }

    pub fn is_insert(&self) -> (r: bool)
        ensures
            r == (self.mode@.mode() == Mode::Insert),
    {
        match &self.mode {
            CursorMode::Insert(_) => true,
            _ => false,
        }
    }

    pub fn is_visual(&self) -> (r: bool)
        ensures
            r == (self.mode@.mode() == Mode::Visual),
    {
        match &self.mode {
            CursorMode::Visual { .. } => true,
            _ => false,
        }
    }

    /// Puts the cursor in normal mode at `offset`.
    pub fn set_normal(&mut self, offset: usize)
        ensures
            final(self).mode@ == CursorModeView::Normal(offset),
            final(self).horiz.is_none(),
            final(self).motion_mode == old(self).motion_mode,
            final(self).history_selections == old(self).history_selections,
    {
        self.mode = CursorMode::Normal(offset);
        self.horiz = None;
    }

    /// Puts the cursor in insert mode on `selection`.
    pub fn set_insert(&mut self, selection: Selection)
        ensures
            final(self).mode@ == CursorModeView::Insert(selection@, selection.last_inserted as int),
            final(self).horiz.is_none(),
            final(self).motion_mode == old(self).motion_mode,
            final(self).history_selections == old(self).history_selections,
    {
        self.mode = CursorMode::Insert(selection);
        self.horiz = None;
    }

    /// Takes over `selection` after an edit. In insert mode the cursor is the
    /// selection. In the other modes it goes, in normal mode, to the least
    /// offset of the selection, or to the last character of that line where
    /// the offset lies behind it.
    pub fn update_selection(&mut self, buffer: &Buffer, selection: Selection)
        ensures
            final(self).mode@ == (match old(self).mode@ {
                CursorModeView::Insert(..) => CursorModeView::Insert(
                    selection@,
                    selection.last_inserted as int,
                ),
                _ => CursorModeView::Normal(normal_offset(buffer@, selection.spec_min_offset())),
            }),
            selection.within(buffer@.len() as int) ==> final(self).mode@.within(buffer@.len() as int),
            final(self).horiz == old(self).horiz,
            final(self).motion_mode == old(self).motion_mode,
            final(self).history_selections == old(self).history_selections,
    {
        match &self.mode {
            CursorMode::Insert(_) => {
                self.mode = CursorMode::Insert(selection);
            },
            _ => {
                let offset = selection.min_offset();
                proof {
                    if selection@.len() > 0 && selection.within(buffer@.len() as int) {
                        assert(selection@[0].max() <= buffer@.len());
                    }
                }
                let line_end = buffer.offset_line_end(offset, false);
                let offset = if line_end < offset {
                    line_end
                } else {
                    offset
                };
                self.mode = CursorMode::Normal(offset);
            },
        }
    }

    /// Carries the cursor over a change of the text.
    pub fn apply_delta(&mut self, delta: &Delta)
        requires
            delta.wf(),
        ensures
            final(self).mode@ == old(self).mode@.delta_applied(delta@),
            final(self).mode@.offset() <= delta.new_len(),
            final(self).wf(),
            final(self).horiz.is_none(),
            final(self).motion_mode == old(self).motion_mode,
            final(self).history_selections == old(self).history_selections,
    {
        let mode = match &self.mode {
            CursorMode::Normal(offset) => CursorMode::Normal(delta.transform_offset(*offset, true)),
            CursorMode::Visual { start, end, mode } => CursorMode::Visual {
                start: delta.transform_offset(*start, false),
                end: delta.transform_offset(*end, true),
                mode: *mode,
            },
            CursorMode::Insert(selection) => {
                let s = selection.apply_delta(delta, true, InsertDrift::Default);
                assert(s.cursor_offset() <= delta.new_len()) by {
                    lemma_total_len_nonnegative(delta@.els, 0, delta.base_len as int);
                    if s.last_inserted < s@.len() {
                        assert(s@[s.last_inserted as int].max() <= delta.new_len());
                    }
                }
                CursorMode::Insert(s)
            },
        };
        self.mode = mode;
        self.horiz = None;
    }

    /// Moves the cursor to `offset` as a click does.
    pub fn set_offset(&mut self, offset: usize, modify: bool, new_cursor: bool)
        requires
            old(self).wf(),
        ensures
            final(self).mode@ == old(self).mode@.with_offset(offset, modify, new_cursor),
            final(self).wf(),
            final(self).horiz == old(self).horiz,
            final(self).motion_mode == old(self).motion_mode,
            final(self).history_selections == old(self).history_selections,
    {
        proof {
            lemma_cursor_ops_wf(self.mode@, offset, offset, modify, new_cursor);
        }
        let mode = match &self.mode {
            CursorMode::Normal(old_offset) => if modify {
                CursorMode::Visual { start: *old_offset, end: offset, mode: VisualMode::Normal }
            } else {
                CursorMode::Normal(offset)
            },
            CursorMode::Visual { start, end: _, mode } => if modify {
                CursorMode::Visual { start: *start, end: offset, mode: *mode }
            } else {
                CursorMode::Normal(offset)
            },
            CursorMode::Insert(selection) => {
                if new_cursor {
                    let mut s = selection.clone();
                    match selection.last_inserted() {
                        Some(region) if modify => {
                            s.replace_last_inserted_region(SelRegion::new(region.start, offset, None));
                        },
                        _ => {
                            s.add_region(SelRegion::caret(offset));
                        },
                    }
                    CursorMode::Insert(s)
                } else {
                    match selection.first() {
                        Some(region) if modify => CursorMode::Insert(
                            Selection::region(region.start, offset),
                        ),
                        _ => CursorMode::Insert(Selection::caret(offset)),
                    }
                }
            },
        };
        self.mode = mode;
    }

    /// Selects the stretch from `start` to `end` as a double or triple click does.
    pub fn add_region(&mut self, start: usize, end: usize, modify: bool, new_cursor: bool)
        requires
            old(self).wf(),
        ensures
            final(self).mode@ == old(self).mode@.with_region(start, end, modify, new_cursor),
            final(self).wf(),
            final(self).horiz == old(self).horiz,
            final(self).motion_mode == old(self).motion_mode,
            final(self).history_selections == old(self).history_selections,
    {
        proof {
            lemma_cursor_ops_wf(self.mode@, start, end, modify, new_cursor);
        }
        let last_byte = if end > 0 {
            end - 1
        } else {
            0
        };
        let new_region = SelRegion::new(start, end, None);
        let mode = match &self.mode {
            CursorMode::Normal(_) => CursorMode::Visual {
                start,
                end: last_byte,
                mode: VisualMode::Normal,
            },
            CursorMode::Visual { start: old_start, end: _, mode: _ } => CursorMode::Visual {
                start: if modify && *old_start < start {
                    *old_start
                } else {
                    start
                },
                end: last_byte,
                mode: VisualMode::Normal,
            },
            CursorMode::Insert(selection) => {
                if new_cursor {
                    let mut s = selection.clone();
                    match selection.last_inserted() {
                        Some(region) if modify => {
                            s.replace_last_inserted_region(region.merge_with(new_region));
                        },
                        _ => {
                            s.add_region(new_region);
                        },
                    }
                    CursorMode::Insert(s)
                } else {
                    match selection.first() {
                        Some(region) if modify => CursorMode::Insert(
                            Selection::sel_region(region.merge_with(new_region)),
                        ),
                        _ => CursorMode::Insert(Selection::sel_region(new_region)),
                    }
                }
            },
        };
        self.mode = mode;
    }
}

/// The offset at which the cursor can stand in normal mode when it is sent
/// to `offset`: `offset`, or the start of the last character of its line
/// where `offset` lies behind that.
pub open spec fn normal_offset(text: Seq<u8>, offset: usize) -> usize {
    let end = line_end(
        text,
        newlines(text, vstd::math::min(offset as int, text.len() as int)) as nat,
        false,
    );
    if end < offset {
        end as usize
    } else {
        offset
    }
}

impl Selection {
    /// Puts `region` in the place of the region that was added last.
    pub fn replace_last_inserted_region(&mut self, region: SelRegion)
        requires
            old(self).wf(),
            old(self).last_inserted < old(self)@.len(),
        ensures
            final(self)@ == add_region_result(
                old(self)@.remove(old(self).last_inserted as int),
                region,
            ).0,
            final(self).last_inserted == add_region_result(
                old(self)@.remove(old(self).last_inserted as int),
                region,
            ).1,
            final(self).wf(),
    {
        proof {
            lemma_remove_sorted(self@, self.last_inserted as int);
        }
        self.regions.remove(self.last_inserted);
        self.last_inserted = 0;
        self.add_region(region);
    }
}


impl Cursor {
    /// Whether the cursor is well formed.
    pub fn check(&self) -> (r: bool)
        ensures
            r == self.wf(),
    {
        match &self.mode {
            CursorMode::Insert(selection) => selection.check(),
            _ => true,
        }
    }
}

} // verus!
