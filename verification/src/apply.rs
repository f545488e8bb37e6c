//! Applying a completion that the user chose: the word at the cursor gives
//! way to the text of the item, or to a snippet whose tab stops the cursor
//! then visits.

use vstd::prelude::*;
use crate::buffer::{Buffer, position_offset};
use crate::completion::CompletionStatus;
use crate::cursor::{CursorModeView, normal_offset};
use crate::data::{Document, HoverStatus, LapceEditorData};
use crate::delta::{Delta, DeltaView, InsertDrift};
use crate::edit::{
    EditType, EditsView, InvalLines, apply_els, build_els, can_edit, edits_view,
    lemma_single_replacement, lemma_single_replacement_places, sorted_replacements,
};
use crate::editor::{LapceEditorBufferData, Touched, find_tab, moved_tabs, tab_at};
use crate::error::EditorError;
use crate::lsp::{CompletionItem, CompletionTextEdit, InsertTextFormat, TextEdit};
use crate::selection::{
    SelRegion, Selection, add_region_result, apply_delta_upto, lemma_remapped_selection_covers,
};
use crate::snippet::{Snippet, Tab, parsed, sorted_tabs};

verus! {

/// The edits that the first `n` text edits ask for, each with the region
/// between the offsets of its range; none where a position names no offset.
pub open spec fn resolved_edits(text: Seq<u8>, edits: Seq<TextEdit>, n: int) -> Option<EditsView>
    decreases n,
{
    if n <= 0 || n > edits.len() {
        Some(Seq::empty())
    } else {
        match (
            resolved_edits(text, edits, n - 1),
            position_offset(text, edits[n - 1].range.start),
            position_offset(text, edits[n - 1].range.end),
        ) {
            (Some(prev), Some(start), Some(end)) => Some(
                prev.push(
                    (
                        seq![SelRegion { start: start as usize, end: end as usize, horiz: None }],
                        edits[n - 1].new_text@,
                    ),
                ),
            ),
            _ => None,
        }
    }
}

/// The tab stops of a view after the tab stops `new` of a snippet were put
/// in at the cursor. A view that fills in no snippet takes them where they
/// are more than one. In a view that does, they take the place of the tab
/// stop in which the cursor stands, or of the first.
pub open spec fn placeholders_added(
    current: Option<Seq<Tab>>,
    new: Seq<Tab>,
    offset: usize,
) -> Option<Seq<Tab>> {
    match current {
        None => if new.len() > 1 {
            Some(new)
        } else {
            None
        },
        Some(tabs) => if tabs.len() == 0 {
            Some(new)
        } else {
            let at = match tab_at(tabs, offset, 0) {
                Some(i) => i,
                None => 0,
            };
            Some(tabs.subrange(0, at) + new + tabs.subrange(at + 1, tabs.len() as int))
        },
    }
}

/// What applying a completion item comes to.
pub struct CompletionPlan {
    /// The stretch of text that gives way.
    pub start: usize,
    pub end: usize,
    /// The text that takes its place.
    pub text: Seq<char>,
    /// The tab stops that come with the text, counted from its start.
    pub tabs: Option<Seq<Tab>>,
}

impl LapceEditorBufferData {
    /// The tab stops of the snippet that is being filled in.
    pub open spec fn snippet_view(&self) -> Option<Seq<Tab>> {
        match self.editor.snippet {
            Some(tabs) => Some(tabs@),
            None => None,
        }
    }

    /// The edits that come with a completion item besides its own.
    pub open spec fn additional_edits(&self, item: CompletionItem) -> Option<EditsView> {
        match item.additional_text_edits {
            Some(edits) => resolved_edits(self.doc.buffer@, edits@, edits@.len() as int),
            None => Some(Seq::empty()),
        }
    }

    /// What applying `item` comes to. An item with an edit of its own, as
    /// plain text or as a snippet, replaces the word at the cursor widened
    /// to the range of the edit. Any other item replaces the word at the
    /// cursor by its text to insert, or by its label.
    pub open spec fn completion_plan(&self, item: CompletionItem) -> CompletionPlan {
        let word_start = self.word_start_at_cursor();
        let word_end = self.word_end_at_cursor();
        let format = match item.insert_text_format {
            Some(f) => f,
            None => InsertTextFormat::PlainText,
        };
        match item.text_edit {
            Some(CompletionTextEdit::Edit(edit)) if format != InsertTextFormat::Other => {
                let edit_start = position_offset(self.doc.buffer@, edit.range.start)->0 as usize;
                let edit_end = position_offset(self.doc.buffer@, edit.range.end)->0 as usize;
                CompletionPlan {
                    start: if word_start < edit_start {
                        word_start
                    } else {
                        edit_start
                    },
                    end: if word_end > edit_end {
                        word_end
                    } else {
                        edit_end
                    },
                    text: if format == InsertTextFormat::Snippet {
                        parsed(edit.new_text@).text
                    } else {
                        edit.new_text@
                    },
                    tabs: if format == InsertTextFormat::Snippet {
                        Some(parsed(edit.new_text@).tabs)
                    } else {
                        None
                    },
                }
            },
            _ => CompletionPlan {
                start: word_start,
                end: word_end,
                text: match item.insert_text {
                    Some(t) => t@,
                    None => item.label@,
                },
                tabs: None,
            },
        }
    }

    /// The edits that applying `item` makes: its own first.
    pub open spec fn completion_edits(&self, item: CompletionItem) -> EditsView {
        let plan = self.completion_plan(item);
        seq![(seq![SelRegion { start: plan.start, end: plan.end, horiz: None }], plan.text)]
            + self.additional_edits(item)->0
    }

    /// Why `item` cannot be applied, if it cannot.
    pub open spec fn completion_error(&self, item: CompletionItem) -> Option<EditorError> {
        if self.additional_edits(item) is None {
            Some(EditorError::BadAdditionalEditPosition)
        } else if item.text_edit matches Some(CompletionTextEdit::Edit(edit)) && position_offset(
            self.doc.buffer@,
            edit.range.start,
        ) is None {
            Some(EditorError::BadEditStartPosition)
        } else if item.text_edit matches Some(CompletionTextEdit::Edit(edit)) && position_offset(
            self.doc.buffer@,
            edit.range.end,
        ) is None {
            Some(EditorError::BadEditEndPosition)
        } else if !can_edit(
            self.doc.buffer@.len() as usize,
            self.doc.buffer.rev,
            self.completion_edits(item),
        ) {
            Some(EditorError::EditRejected)
        } else {
            None
        }
    }

    /// The change of the text that applying `item` makes.
    pub open spec fn completion_delta(&self, item: CompletionItem) -> DeltaView {
        let edits = self.completion_edits(item);
        DeltaView {
            els: build_els(sorted_replacements(edits), edits, self.doc.buffer@.len() as usize),
            base_len: self.doc.buffer@.len() as usize,
        }
    }

    /// The tab stops that applying `item` brings, at their offsets in the
    /// new text and in the order in which the tab key visits them.
    pub open spec fn completion_tabs(&self, item: CompletionItem) -> Seq<Tab> {
        let plan = self.completion_plan(item);
        match plan.tabs {
            Some(tabs) => sorted_tabs(
                tabs,
                self.completion_delta(item).transform(plan.start as int, false) as usize,
                tabs.len() as int,
            ),
            None => Seq::empty(),
        }
    }

    /// The cursor after `item` was applied. Where the item brings tab
    /// stops, the cursor selects the first. Else it goes behind the text
    /// that was put in.
    pub open spec fn completion_cursor(&self, item: CompletionItem) -> CursorModeView {
        let plan = self.completion_plan(item);
        let delta = self.completion_delta(item);
        let tabs = self.completion_tabs(item);
        if tabs.len() > 0 {
            CursorModeView::Insert(
                seq![SelRegion { start: tabs[0].1.0, end: tabs[0].1.1, horiz: None }],
                0,
            )
        } else {
            let moved = apply_delta_upto(
                seq![SelRegion { start: plan.start, end: plan.end, horiz: None }],
                delta,
                true,
                InsertDrift::Default,
                1,
            );
            match self.editor.cursor.mode@ {
                CursorModeView::Insert(..) => CursorModeView::Insert(moved.0, moved.1),
                _ => CursorModeView::Normal(
                    normal_offset(
                        apply_els(self.doc.buffer@, delta.els),
                        if moved.0.len() == 0 {
                            0
                        } else {
                            moved.0[0].min()
                        },
                    ),
                ),
            }
        }
    }

    /// The edits that `edits` ask for.
    pub fn resolve_edits(&self, edits: &Vec<TextEdit>) -> (r: Option<Vec<(Selection, String)>>)
        ensures
            match r {
                Some(v) => resolved_edits(self.doc.buffer@, edits@, edits@.len() as int) == Some(
                    edits_view(v@),
                ),
                None => resolved_edits(self.doc.buffer@, edits@, edits@.len() as int) is None,
            },
    {
        resolve_text_edits(&self.doc.buffer, edits)
    }

    /// Puts the tab stops of a snippet in at the cursor.
    pub fn add_snippet_placeholders(&mut self, new_placeholders: Vec<Tab>)
        ensures
            Self::only_touched(*old(self), *final(self), Touched::none().editor()),
            final(self).snippet_view() == placeholders_added(
                old(self).snippet_view(),
                new_placeholders@,
                old(self).editor.cursor.mode@.offset(),
            ),
            final(self).editor.cursor == old(self).editor.cursor,
            final(self).editor.jumps == old(self).editor.jumps,
            final(self).editor.last_movement_new == old(self).editor.last_movement_new,
            final(self).editor.same_frame(old(self).editor),
    {
        let offset = self.editor.cursor.offset();
        let merged = match &self.editor.snippet {
            None => {
                if new_placeholders.len() > 1 {
                    Some(new_placeholders)
                } else {
                    None
                }
            },
            Some(placeholders) => {
                if placeholders.len() == 0 {
                    Some(new_placeholders)
                } else {
                    let current = match find_tab(placeholders, offset) {
                        Some(i) => i,
                        None => 0,
                    };
                    let mut out: Vec<Tab> = Vec::new();
                    let mut i: usize = 0;
                    while i < current
                        invariant
                            i <= current < placeholders@.len(),
                            out@ == placeholders@.subrange(0, i as int),
                        decreases current - i,
                    {
                        out.push(placeholders[i]);
                        assert(out@ =~= placeholders@.subrange(0, i + 1));
                        i += 1;
                    }
                    let mut k: usize = 0;
                    while k < new_placeholders.len()
                        invariant
                            k <= new_placeholders@.len(),
                            current < placeholders@.len(),
                            out@ == placeholders@.subrange(0, current as int)
                                + new_placeholders@.subrange(0, k as int),
                        decreases new_placeholders@.len() - k,
                    {
                        out.push(new_placeholders[k]);
                        assert(out@ =~= placeholders@.subrange(0, current as int)
                            + new_placeholders@.subrange(0, k + 1));
                        k += 1;
                    }
                    assert(new_placeholders@.subrange(0, k as int) =~= new_placeholders@);
                    let n = placeholders.len();
                    let mut j: usize = current + 1;
                    while j < n
                        invariant
                            current < j <= n,
                            n == placeholders@.len(),
                            out@ == placeholders@.subrange(0, current as int) + new_placeholders@
                                + placeholders@.subrange(current + 1, j as int),
                        decreases n - j,
                    {
                        out.push(placeholders[j]);
                        assert(out@ =~= placeholders@.subrange(0, current as int)
                            + new_placeholders@ + placeholders@.subrange(current + 1, j + 1));
                        j += 1;
                    }
                    Some(out)
                }
            },
        };
        self.editor.snippet = merged;
    }

    /// What applying a completion item leaves behind: the text is changed
    /// by an edit of the kind `Completion`, the cursor goes behind what was
    /// put in or selects the first tab stop of a snippet, and the cursors
    /// of the other views of the document and the tab stops of this view
    /// follow the change. Nothing else of the document, of the cursor or
    /// of the views' common state is touched. The cursor lies in the new
    /// text; only the tab stops of a snippet that comes with further edits
    /// are counted from where the start of the replaced span lands,
    /// wherever that is. An item that cannot be applied changes nothing.
    pub open spec fn apply_item_post(
        old: Self,
        new: Self,
        item: CompletionItem,
        r: Result<(), EditorError>,
    ) -> bool {
            match r {
                Err(e) => old.completion_error(item) == Some(e) && new == old,
                Ok(()) => {
                    let delta = old.completion_delta(item);
                    let tabs = old.completion_tabs(item);
                    &&& old.completion_error(item) is None
                    &&& Self::only_touched(
                        old,
                        new,
                        Touched::none().editor().doc().main_split(),
                    )
                    &&& new.wf()
                    &&& delta.wf()
                    &&& Document::edited(old.doc, new.doc, delta, EditType::Completion)
                    &&& new.editor.cursor.mode@ == old.completion_cursor(item)
                    &&& tabs.len() == 0 || old.additional_edits(item)->0.len() == 0
                        ==> new.editor.cursor.mode@.within(new.doc.buffer@.len() as int)
                    &&& new.editor.cursor.horiz == if tabs.len() > 0 {
                        None
                    } else {
                        old.editor.cursor.horiz
                    }
                    &&& new.editor.cursor.motion_mode == old.editor.cursor.motion_mode
                    &&& new.editor.cursor.history_selections
                        == old.editor.cursor.history_selections
                    &&& new.editor.last_movement_new == old.editor.last_movement_new
                    &&& new.main_split.open_docs == old.main_split.open_docs
                    &&& new.main_split.pending_edits == old.main_split.pending_edits
                    &&& new.main_split.tab_id == old.main_split.tab_id
                    &&& new.main_split.active == old.main_split.active
                    &&& new.main_split.register == old.main_split.register
                    &&& new.main_split.current_save_as == old.main_split.current_save_as
                    &&& new.snippet_view() == if tabs.len() > 0 {
                        placeholders_added(
                            match old.snippet_view() {
                                Some(t) => Some(moved_tabs(t, delta)),
                                None => None,
                            },
                            tabs,
                            old.completion_cursor(item).offset(),
                        )
                    } else {
                        match old.snippet_view() {
                            Some(t) => Some(moved_tabs(t, delta)),
                            None => None,
                        }
                    }
                    &&& new.editor.jumps == old.editor.jumps
                    &&& new.editor.same_frame(old.editor)
                    &&& new.main_split.editors@.len() == old.main_split.editors@.len()
                    &&& forall|i: int|
                        0 <= i < old.main_split.editors@.len() ==> if old.shows_same_doc(i) {
                            LapceEditorData::carried(old.main_split.editors@[i], #[trigger] new.main_split.editors@[i], delta)
                        } else {
                            new.main_split.editors@[i] == old.main_split.editors@[i]
                        }
                },
            }
    }

    /// Applies the completion item that the user chose.
    #[verifier::rlimit(60)]
    pub fn apply_completion_item(&mut self, item: &CompletionItem) -> (r: Result<(), EditorError>)
        requires
            old(self).wf(),
        ensures
            Self::apply_item_post(*old(self), *final(self), *item, r),
    {
        let additional: Vec<(Selection, String)> = match &item.additional_text_edits {
            Some(edits) => match self.resolve_edits(edits) {
                Some(v) => v,
                None => {
                    return Err(EditorError::BadAdditionalEditPosition);
                },
            },
            None => {
                let v: Vec<(Selection, String)> = Vec::new();
                assert(edits_view(v@) =~= Seq::empty());
                v
            },
        };
        let format = match item.insert_text_format {
            Some(f) => f,
            None => InsertTextFormat::PlainText,
        };
        let offset = self.editor.cursor.offset();
        let word_start = self.doc.buffer.prev_code_boundary(offset);
        let word_end = self.doc.buffer.next_code_boundary(offset);
        let mut start = word_start;
        let mut end = word_end;
        let mut snippet: Option<Snippet> = None;
        let mut own_text: Option<String> = None;
        if let Some(CompletionTextEdit::Edit(edit)) = &item.text_edit {
            let edit_start = match self.doc.buffer.offset_of_position(&edit.range.start) {
                Some(o) => o,
                None => {
                    return Err(EditorError::BadEditStartPosition);
                },
            };
            let edit_end = match self.doc.buffer.offset_of_position(&edit.range.end) {
                Some(o) => o,
                None => {
                    return Err(EditorError::BadEditEndPosition);
                },
            };
            match format {
                InsertTextFormat::PlainText => {
                    start = if word_start < edit_start {
                        word_start
                    } else {
                        edit_start
                    };
                    end = if word_end > edit_end {
                        word_end
                    } else {
                        edit_end
                    };
                    own_text = Some(edit.new_text.clone());
                },
                InsertTextFormat::Snippet => {
                    start = if word_start < edit_start {
                        word_start
                    } else {
                        edit_start
                    };
                    end = if word_end > edit_end {
                        word_end
                    } else {
                        edit_end
                    };
                    let read = Snippet::from_str(edit.new_text.as_str());
                    own_text = Some(read.text());
                    snippet = Some(read);
                },
                InsertTextFormat::Other => {},
            }
        }
        let text = match own_text {
            Some(t) => t,
            None => match &item.insert_text {
                Some(t) => t.clone(),
                None => item.label.clone(),
            },
        };
        let ghost plan = old(self).completion_plan(*item);
        assert(plan.start == start && plan.end == end && plan.text == text@);
        let ghost planned = old(self).completion_edits(*item);
        let mut edits: Vec<(Selection, String)> = Vec::new();
        edits.push((Selection::region(start, end), text));
        let mut additional = additional;
        let ghost extra = edits_view(additional@);
        edits.append(&mut additional);
        assert(edits_view(edits@) =~= planned);
        let (delta, inval_lines) = match self.doc.do_raw_edit(&edits, EditType::Completion) {
            Some(done) => done,
            None => {
                return Err(EditorError::EditRejected);
            },
        };
        assert(delta@ == old(self).completion_delta(*item));
        let selection = Selection::region(start, end).apply_delta(&delta, true, InsertDrift::Default);
        proof {
            lemma_remapped_selection_covers(
                seq![SelRegion { start, end, horiz: None }],
                delta@,
                true,
                InsertDrift::Default,
            );
        }
        let tabs = match &snippet {
            Some(read) => read.tabs(delta.transform_offset(start, false)),
            None => Vec::new(),
        };
        assert(tabs@ =~= old(self).completion_tabs(*item));
        if tabs.len() > 0 {
            let mut first = Selection::new();
            let (_tab, (tab_start, tab_end)) = tabs[0];
            first.add_region(SelRegion::new(tab_start, tab_end, None));
            assert(first@ =~= seq![SelRegion { start: tab_start, end: tab_end, horiz: None }]);
            proof {
                if extra.len() == 0 {
                    let len = old(self).doc.buffer@.len() as usize;
                    assert(planned =~= seq![(seq![SelRegion { start, end, horiz: None }], plan.text)]);
                    lemma_single_replacement(len, start, end, plan.text);
                    assert(sorted_replacements(planned)[0].end <= len);
                    lemma_single_replacement_places(len, start, end, plan.text);
                    assert(tab_start <= self.doc.buffer@.len() && tab_end <= self.doc.buffer@.len());
                    assert(first@[0].max() <= self.doc.buffer@.len());
                }
            }
            self.editor.cursor.set_insert(first);
        } else {
            self.editor.cursor.update_selection(&self.doc.buffer, selection);
        }
        let mut deltas: Vec<(Delta, InvalLines)> = Vec::new();
        deltas.push((delta, inval_lines));
        assert(crate::editor::deltas_wf(deltas@));
        let ghost mid = *self;
        self.apply_deltas(&deltas);
        proof {
            let dv = old(self).completion_delta(*item);
            assert(deltas@[0].0@ == dv);
            assert forall|t: Seq<Tab>| crate::editor::tabs_after(t, deltas@, 1) == moved_tabs(t, dv) by {
                assert(crate::editor::tabs_after(t, deltas@, 0) == t);
            }
            assert forall|m: CursorModeView| crate::editor::cursor_after(m, deltas@, 1)
                == m.delta_applied(dv) by {
                assert(crate::editor::cursor_after(m, deltas@, 0) == m);
            }
            assert forall|i: int| 0 <= i < old(self).main_split.editors@.len() implies mid.shows_same_doc(
                i,
            ) == old(self).shows_same_doc(i) by {}
        }
        if tabs.len() > 0 {
            self.add_snippet_placeholders(tabs);
        }
        Ok(())
    }
}

/// The edits that `edits` ask for in the text of `buffer`: none where a
/// position names no offset.
pub fn resolve_text_edits(buffer: &Buffer, edits: &Vec<TextEdit>) -> (r: Option<
    Vec<(Selection, String)>,
>)
    ensures
        match r {
            Some(v) => resolved_edits(buffer@, edits@, edits@.len() as int) == Some(edits_view(v@)),
            None => resolved_edits(buffer@, edits@, edits@.len() as int) is None,
        },
{
    let mut out: Vec<(Selection, String)> = Vec::new();
    assert(edits_view(out@) =~= Seq::empty());
    let mut i: usize = 0;
    while i < edits.len()
        invariant
            i <= edits@.len(),
            resolved_edits(buffer@, edits@, i as int) == Some(edits_view(out@)),
        decreases edits@.len() - i,
    {
        let start = match buffer.offset_of_position(&edits[i].range.start) {
            Some(o) => o,
            None => {
                proof {
                    lemma_resolved_none(buffer@, edits@, i + 1, edits@.len() as int);
                }
                return None;
            },
        };
        let end = match buffer.offset_of_position(&edits[i].range.end) {
            Some(o) => o,
            None => {
                proof {
                    lemma_resolved_none(buffer@, edits@, i + 1, edits@.len() as int);
                }
                return None;
            },
        };
        let ghost before = edits_view(out@);
        out.push((Selection::region(start, end), edits[i].new_text.clone()));
        assert(edits_view(out@) =~= before.push(
            (seq![SelRegion { start, end, horiz: None }], edits@[i as int].new_text@),
        ));
        i += 1;
    }
    Some(out)
}

/// Edits that cannot be resolved stay so when more follow.
pub proof fn lemma_resolved_none(text: Seq<u8>, edits: Seq<TextEdit>, n: int, m: int)
    requires
        0 <= n <= m <= edits.len(),
        resolved_edits(text, edits, n) is None,
    ensures
        resolved_edits(text, edits, m) is None,
    decreases m - n,
{
    if n < m {
        lemma_resolved_none(text, edits, n, m - 1);
    }
}

} // verus!
