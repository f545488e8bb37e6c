//! One view and its document, with what the views of the window share: the
//! commands that the view takes, and how a change of the text reaches every
//! cursor that looks at it.

use vstd::prelude::*;
use crate::command::{EditorAction, LogLevel, LogMessage, ProxyRequest, Target, UiCommand};
use crate::completion::{CompletionData, CompletionStatus};
use crate::cursor::{Cursor, CursorModeView, Mode};
use crate::data::{
    BufferContent, BufferContentView, Config, Document, EditorDiagnostic, HoverData, HoverStatus,
    LapceEditorData, LapceMainSplitData, LocalBufferKind, PaletteData, SourceControlData,
    code_actions_index,
};
use crate::delta::{Delta, DeltaView};
use crate::edit::InvalLines;
use crate::find::Find;
use crate::lsp::CodeActionOrCommand;
use crate::position::ScrollOffset;
use crate::snippet::Tab;
use crate::buffer::{
    forward_chars, line_end, line_start, newlines, next_newline, word_end, word_start,
};
use crate::command::{CommandExecuted, Modifiers};
use crate::data::InlineFindDirection;
use crate::find::{first_found, last_found};
use crate::movement::{Movement, moved_cursor};
use crate::text::str_eq;

verus! {

/// A view with its document and the state around them.
#[derive(Debug)]
pub struct LapceEditorBufferData {
    pub view_id: u64,
    pub editor: LapceEditorData,
    pub doc: Document,
    pub completion: CompletionData,
    pub hover: HoverData,
    pub main_split: LapceMainSplitData,
    pub source_control: SourceControlData,
    pub palette: PaletteData,
    pub find: Find,
    pub config: Config,
}

/// The parts of the state that an operation may change.
pub struct Touched {
    pub editor: bool,
    pub doc: bool,
    pub completion: bool,
    pub hover: bool,
    pub main_split: bool,
    pub find: bool,
}

impl Touched {
    pub open spec fn none() -> Touched {
        Touched {
            editor: false,
            doc: false,
            completion: false,
            hover: false,
            main_split: false,
            find: false,
        }
    }

    pub open spec fn editor(self) -> Touched {
        Touched { editor: true, ..self }
    }

    pub open spec fn doc(self) -> Touched {
        Touched { doc: true, ..self }
    }

    pub open spec fn completion(self) -> Touched {
        Touched { completion: true, ..self }
    }

    pub open spec fn hover(self) -> Touched {
        Touched { hover: true, ..self }
    }

    pub open spec fn main_split(self) -> Touched {
        Touched { main_split: true, ..self }
    }

    pub open spec fn find(self) -> Touched {
        Touched { find: true, ..self }
    }
}

/// The tab stops after `delta` changed the text: the start of each stays in
/// front of text inserted at it, its end goes behind.
pub open spec fn moved_tabs(tabs: Seq<Tab>, delta: DeltaView) -> Seq<Tab> {
    Seq::new(
        tabs.len(),
        |i: int|
            (
                tabs[i].0,
                (
                    delta.transform(tabs[i].1.0 as int, false) as usize,
                    delta.transform(tabs[i].1.1 as int, true) as usize,
                ),
            ),
    )
}

/// Whether `offset` lies in one of the tab stops.
pub open spec fn in_some_tab(tabs: Seq<Tab>, offset: usize) -> bool {
    exists|i: int| 0 <= i < tabs.len() && (#[trigger] tabs[i]).1.0 <= offset <= tabs[i].1.1
}

/// The index of the first tab stop at or behind `from` that holds `offset`.
pub open spec fn tab_at(tabs: Seq<Tab>, offset: usize, from: int) -> Option<int>
    decreases tabs.len() - from,
{
    if from < 0 || from >= tabs.len() {
        None
    } else if tabs[from].1.0 <= offset <= tabs[from].1.1 {
        Some(from)
    } else {
        tab_at(tabs, offset, from + 1)
    }
}

/// The index of the first tab stop that holds `offset`.
pub fn find_tab(tabs: &Vec<Tab>, offset: usize) -> (r: Option<usize>)
    ensures
        match r {
            Some(i) => tab_at(tabs@, offset, 0) == Some(i as int) && i < tabs@.len(),
            None => tab_at(tabs@, offset, 0) is None,
        },
        r is Some <==> in_some_tab(tabs@, offset),
{
    let mut i: usize = 0;
    while i < tabs.len()
        invariant
            i <= tabs@.len(),
            tab_at(tabs@, offset, 0) == tab_at(tabs@, offset, i as int),
            forall|k: int| 0 <= k < i ==> !((#[trigger] tabs@[k]).1.0 <= offset <= tabs@[k].1.1),
        decreases tabs@.len() - i,
    {
        if tabs[i].1.0 <= offset && offset <= tabs[i].1.1 {
            return Some(i);
        }
        i += 1;
    }
    None
}

/// The element of `vec` at index `i`, to be changed in place.
pub(crate) fn element_mut<T>(vec: &mut Vec<T>, i: usize) -> (element: &mut T)
    requires
        i < old(vec)@.len(),
    ensures
        *element == old(vec)@[i as int],
        final(vec)@ == old(vec)@.update(i as int, *final(element)),
{
    &mut vec[i]
}

impl LapceMainSplitData {
    /// The cursor of every view is well formed.
    pub open spec fn wf(&self) -> bool {
        forall|i: int| 0 <= i < self.editors@.len() ==> (#[trigger] self.editors@[i]).wf()
    }

    /// Whether the state of every view is well formed.
    pub fn check(&self) -> (r: bool)
        ensures
            r == self.wf(),
    {
        let mut i: usize = 0;
        while i < self.editors.len()
            invariant
                i <= self.editors@.len(),
                forall|k: int| 0 <= k < i ==> (#[trigger] self.editors@[k]).wf(),
            decreases self.editors@.len() - i,
        {
            if !self.editors[i].check() {
                return false;
            }
            i += 1;
        }
        true
    }
}

impl LapceEditorBufferData {
    /// The view's state and that of every other view is well formed.
    pub open spec fn wf(&self) -> bool {
        self.editor.wf() && self.main_split.wf()
    }

    /// Whether the state is well formed.
    pub fn check(&self) -> (r: bool)
        ensures
            r == self.wf(),
    {
        self.editor.check() && self.main_split.check()
    }

    /// Everything but what `touched` names is as it was.
    pub open spec fn only_touched(old: Self, new: Self, touched: Touched) -> bool {
        &&& new.view_id == old.view_id
        &&& new.source_control == old.source_control
        &&& new.palette == old.palette
        &&& new.config == old.config
        &&& touched.editor || new.editor == old.editor
        &&& touched.doc || new.doc == old.doc
        &&& touched.completion || new.completion == old.completion
        &&& touched.hover || new.hover == old.hover
        &&& touched.main_split || new.main_split == old.main_split
        &&& touched.find || new.find == old.find
    }

    /// Whether another view, the one at index `i`, shows the document of
    /// this view.
    pub open spec fn shows_same_doc(&self, i: int) -> bool {
        self.main_split.editors@[i].view_id != self.editor.view_id && self.doc.content@
            == self.main_split.editors@[i].content@
    }

    /// Carries the cursors of the other views of this document over a
    /// change of its text.
    pub fn inactive_apply_delta(&mut self, delta: &Delta)
        requires
            delta.wf(),
            old(self).wf(),
        ensures
            Self::only_touched(*old(self), *final(self), Touched::none().main_split()),
            final(self).wf(),
            final(self).main_split.editors@.len() == old(self).main_split.editors@.len(),
            forall|i: int|
                0 <= i < old(self).main_split.editors@.len() ==> if old(self).shows_same_doc(i) {
                    LapceEditorData::carried(old(self).main_split.editors@[i], #[trigger] final(self).main_split.editors@[i], delta@)
                } else {
                    final(self).main_split.editors@[i] == old(self).main_split.editors@[i]
                },
            final(self).main_split.open_docs == old(self).main_split.open_docs,
            final(self).main_split.pending_edits == old(self).main_split.pending_edits,
            final(self).main_split.tab_id == old(self).main_split.tab_id,
            final(self).main_split.active == old(self).main_split.active,
            final(self).main_split.register == old(self).main_split.register,
            final(self).main_split.current_save_as == old(self).main_split.current_save_as,
    {
        let n = self.main_split.editors.len();
        let mut i: usize = 0;
        while i < n
            invariant
                i <= n,
                n == self.main_split.editors@.len(),
                n == old(self).main_split.editors@.len(),
                delta.wf(),
                Self::only_touched(*old(self), *self, Touched::none().main_split()),
                self.editor.wf(),
                forall|k: int| 0 <= k < n ==> (#[trigger] self.main_split.editors@[k]).wf(),
                forall|k: int|
                    0 <= k < i ==> if old(self).shows_same_doc(k) {
                        LapceEditorData::carried(old(self).main_split.editors@[k], #[trigger] self.main_split.editors@[k], delta@)
                    } else {
                        self.main_split.editors@[k] == old(self).main_split.editors@[k]
                    },
                forall|k: int|
                    i <= k < n ==> (#[trigger] self.main_split.editors@[k]) == old(self).main_split.editors@[k],
                self.main_split.open_docs == old(self).main_split.open_docs,
                self.main_split.pending_edits == old(self).main_split.pending_edits,
                self.main_split.tab_id == old(self).main_split.tab_id,
                self.main_split.active == old(self).main_split.active,
                self.main_split.register == old(self).main_split.register,
                self.main_split.current_save_as == old(self).main_split.current_save_as,
            decreases n - i,
        {
            if self.main_split.editors[i].view_id != self.editor.view_id && self.doc.content.same(
                &self.main_split.editors[i].content,
            ) {
                let editor = element_mut(&mut self.main_split.editors, i);
                editor.cursor.apply_delta(delta);
            }
            i += 1;
        }
    }
}


/// The tab stops after each of the first `n` changes of the text in turn.
pub open spec fn tabs_after(tabs: Seq<Tab>, deltas: Seq<(Delta, InvalLines)>, n: int) -> Seq<Tab>
    decreases n,
{
    if n <= 0 || n > deltas.len() {
        tabs
    } else {
        moved_tabs(tabs_after(tabs, deltas, n - 1), deltas[n - 1].0@)
    }
}

/// A cursor after each of the first `n` changes of the text in turn.
pub open spec fn cursor_after(mode: CursorModeView, deltas: Seq<(Delta, InvalLines)>, n: int) -> CursorModeView
    decreases n,
{
    if n <= 0 || n > deltas.len() {
        mode
    } else {
        cursor_after(mode, deltas, n - 1).delta_applied(deltas[n - 1].0@)
    }
}

/// Every change is well formed.
pub open spec fn deltas_wf(deltas: Seq<(Delta, InvalLines)>) -> bool {
    forall|i: int| 0 <= i < deltas.len() ==> (#[trigger] deltas[i]).0.wf()
}

impl LapceEditorBufferData {
    /// Whether the view is the input field of the palette.
    pub open spec fn spec_is_palette(&self) -> bool {
        self.editor.content@.is_palette()
    }

    /// Whether a completion is going on that has items to show.
    pub open spec fn spec_has_completions(&self) -> bool {
        self.completion.status != CompletionStatus::Inactive && self.completion.shown_len() > 0
    }

    /// Whether a hover is going on that has something to show.
    pub open spec fn spec_has_hover(&self) -> bool {
        self.hover.status != HoverStatus::Inactive && self.hover.items@.len() > 0
    }

    /// Whether the condition of a key binding holds of this view. A
    /// condition that the editor does not know holds of no view.
    pub open spec fn condition_holds(&self, condition: Seq<char>) -> bool {
        if condition == "search_focus"@ {
            self.editor.content@.is_search() && self.editor.parent_view_id.is_some()
        } else if condition == "global_search_focus"@ {
            self.editor.content@.is_search() && self.editor.parent_view_id.is_none()
        } else if condition == "input_focus"@ {
            self.editor.content@.is_input()
        } else if condition == "editor_focus"@ {
            self.editor.content@ is File || self.editor.content@ is Scratch
        } else if condition == "diff_focus"@ {
            self.editor.compare.is_some()
        } else if condition == "source_control_focus"@ {
            self.editor.content@.is_source_control()
        } else if condition == "in_snippet"@ {
            self.editor.snippet.is_some()
        } else if condition == "completion_focus"@ {
            self.spec_has_completions()
        } else if condition == "hover_focus"@ {
            self.spec_has_hover()
        } else if condition == "list_focus"@ {
            self.spec_has_completions() || self.spec_is_palette()
        } else if condition == "modal_focus"@ {
            (self.spec_has_completions() && !self.config.modal) || self.spec_has_hover()
                || self.spec_is_palette()
        } else {
            false
        }
    }

    pub fn is_palette(&self) -> (r: bool)
        ensures
            r == self.spec_is_palette(),
    {
        self.editor.content.is_palette()
    }

    /// Check if there are completions that are being rendered
    pub fn has_completions(&self) -> (r: bool)
        ensures
            r == self.spec_has_completions(),
    {
        self.completion.status != CompletionStatus::Inactive && self.completion.len() > 0
    }

    pub fn has_hover(&self) -> (r: bool)
        ensures
            r == self.spec_has_hover(),
    {
        self.hover.status != HoverStatus::Inactive && !self.hover.is_empty()
    }

    pub fn cancel_completion(&mut self)
        ensures
            Self::only_touched(*old(self), *final(self), Touched::none().completion()),
            final(self).completion.status == CompletionStatus::Inactive,
            old(self).completion.status == CompletionStatus::Inactive ==> final(self).completion
                == old(self).completion,
            old(self).completion.status != CompletionStatus::Inactive ==> final(self).completion.input@.len() == 0 && final(self).completion.input_items@.len() == 0
                && final(self).completion.index == 0,
            final(self).completion.id == old(self).completion.id,
            final(self).completion.request_id == old(self).completion.request_id,
            final(self).completion.offset == old(self).completion.offset,
            final(self).completion.buffer_id == old(self).completion.buffer_id,
            final(self).completion.page_size == old(self).completion.page_size,
    {
        self.completion.cancel();
    }

    pub fn cancel_hover(&mut self)
        ensures
            Self::only_touched(*old(self), *final(self), Touched::none().hover()),
            final(self).hover.status == HoverStatus::Inactive,
            old(self).hover.status == HoverStatus::Inactive ==> final(self).hover == old(self).hover,
            old(self).hover.status != HoverStatus::Inactive ==> final(self).hover.items@.len() == 0,
            final(self).hover.id == old(self).hover.id,
            final(self).hover.request_id == old(self).hover.request_id,
            final(self).hover.offset == old(self).hover.offset,
            final(self).hover.buffer_id == old(self).hover.buffer_id,
            final(self).hover.editor_view_id == old(self).hover.editor_view_id,
    {
        self.hover.cancel();
    }

    /// Notes in the document where the cursor of the view stands and how
    /// far the view is scrolled.
    pub fn sync_buffer_position(&mut self, scroll_offset: ScrollOffset)
        ensures
            Self::only_touched(*old(self), *final(self), Touched::none().doc()),
            final(self).doc.cursor_offset == old(self).editor.cursor.mode@.offset(),
            final(self).doc.scroll_offset == scroll_offset,
            final(self).doc.id == old(self).doc.id,
            final(self).doc.content == old(self).doc.content,
            final(self).doc.buffer == old(self).doc.buffer,
            final(self).doc.loaded == old(self).doc.loaded,
            final(self).doc.code_actions == old(self).doc.code_actions,
            final(self).doc.diagnostics == old(self).doc.diagnostics,
            final(self).doc.histories == old(self).doc.histories,
    {
        let cursor_offset = self.editor.cursor.offset();
        if self.doc.cursor_offset != cursor_offset || self.doc.scroll_offset.x != scroll_offset.x
            || self.doc.scroll_offset.y != scroll_offset.y {
            self.doc.cursor_offset = cursor_offset;
            self.doc.scroll_offset = scroll_offset;
        }
    }

    /// The code actions that are known for the word at the cursor.
    pub fn current_code_actions(&self) -> (r: Option<&Vec<CodeActionOrCommand>>)
        ensures
            match code_actions_index(
                self.doc.code_actions@,
                word_start(self.doc.buffer@, self.editor.cursor.mode@.offset() as int) as usize,
                0,
            ) {
                Some(i) => r == Some(&self.doc.code_actions@[i].1),
                None => r.is_none(),
            },
    {
        let offset = self.editor.cursor.offset();
        let prev_offset = self.doc.buffer.prev_code_boundary(offset);
        match self.doc.code_actions_at(prev_offset) {
            Some(i) => Some(&self.doc.code_actions[i].1),
            None => None,
        }
    }

    pub fn diagnostics(&self) -> (r: Option<&Vec<EditorDiagnostic>>)
        ensures
            match self.doc.diagnostics {
                Some(d) => r == Some(&d),
                None => r.is_none(),
            },
    {
        self.doc.diagnostics.as_ref()
    }

    pub fn get_mode(&self) -> (r: Mode)
        ensures
            r == self.editor.cursor.mode@.mode(),
    {
        self.editor.cursor.get_mode()
    }

    /// Whether the view takes commands of the focus only.
    pub fn focus_only(&self) -> (r: bool)
        ensures
            r == self.editor.content@.is_settings(),
    {
        self.editor.content.is_settings()
    }

    /// Whether the view waits for the character of an inline search.
    pub fn expect_char(&self) -> (r: bool)
        ensures
            r == self.editor.inline_find.is_some(),
    {
        self.editor.inline_find.is_some()
    }

    pub fn check_condition(&self, condition: &str) -> (r: bool)
        ensures
            r == self.condition_holds(condition@),
    {
        if str_eq(condition, "search_focus") {
            self.editor.content.is_search() && self.editor.parent_view_id.is_some()
        } else if str_eq(condition, "global_search_focus") {
            self.editor.content.is_search() && self.editor.parent_view_id.is_none()
        } else if str_eq(condition, "input_focus") {
            self.editor.content.is_input()
        } else if str_eq(condition, "editor_focus") {
            match &self.editor.content {
                BufferContent::File(_) => true,
                BufferContent::Scratch(..) => true,
                BufferContent::Local(_) => false,
                BufferContent::SettingsValue(..) => false,
            }
        } else if str_eq(condition, "diff_focus") {
            self.editor.compare.is_some()
        } else if str_eq(condition, "source_control_focus") {
            self.editor.content.is_source_control()
        } else if str_eq(condition, "in_snippet") {
            self.editor.snippet.is_some()
        } else if str_eq(condition, "completion_focus") {
            self.has_completions()
        } else if str_eq(condition, "hover_focus") {
            self.has_hover()
        } else if str_eq(condition, "list_focus") {
            self.has_completions() || self.is_palette()
        } else if str_eq(condition, "modal_focus") {
            (self.has_completions() && !self.config.modal) || self.has_hover() || self.is_palette()
        } else {
            false
        }
    }

    /// Carries the tab stops of the snippet that is being filled in over a
    /// change of the text.
    pub fn update_snippet_offset(&mut self, delta: &Delta)
        requires
            delta.wf(),
        ensures
            Self::only_touched(*old(self), *final(self), Touched::none().editor()),
            match old(self).editor.snippet {
                Some(tabs) => final(self).editor.snippet matches Some(t) && t@ == moved_tabs(
                    tabs@,
                    delta@,
                ),
                None => final(self).editor.snippet.is_none(),
            },
            final(self).editor.cursor == old(self).editor.cursor,
            final(self).editor.jumps == old(self).editor.jumps,
            final(self).editor.last_movement_new == old(self).editor.last_movement_new,
            final(self).editor.same_frame(old(self).editor),
    {
        let moved = match &self.editor.snippet {
            Some(snippet) => {
                let mut out: Vec<Tab> = Vec::new();
                let mut i: usize = 0;
                while i < snippet.len()
                    invariant
                        i <= snippet@.len(),
                        delta.wf(),
                        out@ == moved_tabs(snippet@, delta@).subrange(0, i as int),
                    decreases snippet@.len() - i,
                {
                    let (tab, (start, end)) = snippet[i];
                    out.push(
                        (tab, (delta.transform_offset(start, false), delta.transform_offset(end, true))),
                    );
                    assert(out@ =~= moved_tabs(snippet@, delta@).subrange(0, i + 1));
                    i += 1;
                }
                assert(moved_tabs(snippet@, delta@).subrange(0, i as int) =~= moved_tabs(
                    snippet@,
                    delta@,
                ));
                Some(out)
            },
            None => None,
        };
        self.editor.snippet = moved;
    }

    /// Carries the cursors of the other views of the document, and the tab
    /// stops of this view, over the changes of the text, one after the other.
    pub fn apply_deltas(&mut self, deltas: &Vec<(Delta, InvalLines)>)
        requires
            deltas_wf(deltas@),
            old(self).wf(),
        ensures
            Self::only_touched(*old(self), *final(self), Touched::none().editor().main_split()),
            final(self).wf(),
            match old(self).editor.snippet {
                Some(tabs) => final(self).editor.snippet matches Some(t) && t@ == tabs_after(
                    tabs@,
                    deltas@,
                    deltas@.len() as int,
                ),
                None => final(self).editor.snippet.is_none(),
            },
            final(self).editor.cursor == old(self).editor.cursor,
            final(self).editor.jumps == old(self).editor.jumps,
            final(self).editor.last_movement_new == old(self).editor.last_movement_new,
            final(self).editor.same_frame(old(self).editor),
            final(self).main_split.editors@.len() == old(self).main_split.editors@.len(),
            forall|i: int|
                0 <= i < old(self).main_split.editors@.len() ==> if old(self).shows_same_doc(i) {
                    (#[trigger] final(self).main_split.editors@[i]).cursor.mode@ == cursor_after(
                        old(self).main_split.editors@[i].cursor.mode@,
                        deltas@,
                        deltas@.len() as int,
                    ) && LapceEditorData::cursor_moved_only(old(self).main_split.editors@[i], final(self).main_split.editors@[i])
                    && (deltas@.len() > 0 ==> final(self).main_split.editors@[i].cursor.horiz is None)
                } else {
                    deltas@.len() > 0 ==> final(self).main_split.editors@[i] == old(self).main_split.editors@[i]
                },
            final(self).main_split.open_docs == old(self).main_split.open_docs,
            final(self).main_split.pending_edits == old(self).main_split.pending_edits,
            final(self).main_split.tab_id == old(self).main_split.tab_id,
            final(self).main_split.active == old(self).main_split.active,
            final(self).main_split.register == old(self).main_split.register,
            final(self).main_split.current_save_as == old(self).main_split.current_save_as,
            deltas@.len() == 0 ==> *final(self) == *old(self),
    {
        let mut k: usize = 0;
        while k < deltas.len()
            invariant
                k <= deltas@.len(),
                deltas_wf(deltas@),
                self.wf(),
                Self::only_touched(*old(self), *self, Touched::none().editor().main_split()),
                match old(self).editor.snippet {
                    Some(tabs) => self.editor.snippet matches Some(t) && t@ == tabs_after(
                        tabs@,
                        deltas@,
                        k as int,
                    ),
                    None => self.editor.snippet.is_none(),
                },
                self.editor.cursor == old(self).editor.cursor,
                self.editor.jumps == old(self).editor.jumps,
                self.editor.last_movement_new == old(self).editor.last_movement_new,
                self.editor.same_frame(old(self).editor),
                self.main_split.editors@.len() == old(self).main_split.editors@.len(),
                forall|i: int|
                    0 <= i < old(self).main_split.editors@.len() ==> (
                    #[trigger] self.main_split.editors@[i]).view_id == old(self).main_split.editors@[i].view_id && self.main_split.editors@[i].content@ == old(self).main_split.editors@[i].content@,
                forall|i: int|
                    0 <= i < old(self).main_split.editors@.len() ==> if old(self).shows_same_doc(
                        i,
                    ) {
                        (#[trigger] self.main_split.editors@[i]).cursor.mode@ == cursor_after(
                            old(self).main_split.editors@[i].cursor.mode@,
                            deltas@,
                            k as int,
                        ) && LapceEditorData::cursor_moved_only(old(self).main_split.editors@[i], self.main_split.editors@[i])
                        && (k > 0 ==> self.main_split.editors@[i].cursor.horiz is None)
                    } else {
                        k > 0 ==> self.main_split.editors@[i] == old(self).main_split.editors@[i]
                    },
                k == 0 ==> *self == *old(self),
                self.main_split.open_docs == old(self).main_split.open_docs,
                self.main_split.pending_edits == old(self).main_split.pending_edits,
                self.main_split.tab_id == old(self).main_split.tab_id,
                self.main_split.active == old(self).main_split.active,
                self.main_split.register == old(self).main_split.register,
                self.main_split.current_save_as == old(self).main_split.current_save_as,
            decreases deltas@.len() - k,
        {
            let ghost before = *self;
            self.inactive_apply_delta(&deltas[k].0);
            self.update_snippet_offset(&deltas[k].0);
            proof {
                assert forall|i: int| 0 <= i < old(self).main_split.editors@.len() implies (
                #[trigger] self.main_split.editors@[i]).view_id == old(self).main_split.editors@[i].view_id && self.main_split.editors@[i].content@ == old(self).main_split.editors@[i].content@ by {
                    assert(before.main_split.editors@[i].view_id == old(self).main_split.editors@[i].view_id);
                    assert(before.shows_same_doc(i) == old(self).shows_same_doc(i));
                }
                assert forall|i: int| 0 <= i < old(self).main_split.editors@.len() implies if old(self).shows_same_doc(i) {
                    (#[trigger] self.main_split.editors@[i]).cursor.mode@ == cursor_after(
                        old(self).main_split.editors@[i].cursor.mode@,
                        deltas@,
                        k + 1,
                    ) && LapceEditorData::cursor_moved_only(old(self).main_split.editors@[i], self.main_split.editors@[i])
                    && self.main_split.editors@[i].cursor.horiz is None
                } else {
                    self.main_split.editors@[i] == old(self).main_split.editors@[i]
                } by {
                    assert(before.main_split.editors@[i].view_id == old(self).main_split.editors@[i].view_id);
                    assert(before.shows_same_doc(i) == old(self).shows_same_doc(i));
                }
            }
            k += 1;
        }
    }
}


impl LapceEditorBufferData {
    /// What a movement of the cursor leaves behind. A jump that is not the
    /// movement made last puts the place of the cursor on the list of jumps
    /// first. The cursor is moved. A snippet whose tab stops the cursor has
    /// left is given up. The completion and the hover are ended.
    pub open spec fn move_post(
        old: Self,
        new: Self,
        movement: Movement,
        count: Option<usize>,
        mods: Modifiers,
    ) -> bool {
        let steps = match count {
            Some(n) => n,
            None => 1,
        };
        let cursor = moved_cursor(
            old.editor.cursor.mode@,
            old.editor.cursor.horiz,
            old.doc.buffer@,
            movement,
            steps,
            mods.shift,
        );
        &&& Self::only_touched(old, new, Touched::none().editor().completion().hover())
        &&& new.editor.jumps@ == if movement.is_jump() && movement != old.editor.last_movement_new {
            old.editor.jump_saved()
        } else {
            old.editor.jumps@
        }
        &&& new.editor.last_movement_new == movement
        &&& new.editor.cursor.mode@ == cursor.0
        &&& new.editor.cursor.horiz == cursor.1
        &&& new.editor.cursor.motion_mode == old.editor.cursor.motion_mode
        &&& new.editor.cursor.history_selections == old.editor.cursor.history_selections
        &&& new.editor.snippet == (match old.editor.snippet {
            Some(tabs) if in_some_tab(tabs@, cursor.0.offset()) => old.editor.snippet,
            _ => None,
        })
        &&& new.editor.same_frame(old.editor)
        &&& new.completion.status == CompletionStatus::Inactive
        &&& new.completion.request_id == old.completion.request_id
        &&& new.completion.id == old.completion.id
        &&& old.completion.status == CompletionStatus::Inactive ==> new.completion
            == old.completion
        &&& old.completion.status != CompletionStatus::Inactive
            ==> new.completion.input_items@.len() == 0 && new.completion.input@.len() == 0
        &&& new.hover.status == HoverStatus::Inactive
        &&& new.hover.request_id == old.hover.request_id
        &&& new.hover.id == old.hover.id
        &&& old.hover.status == HoverStatus::Inactive ==> new.hover == old.hover
        &&& old.hover.status != HoverStatus::Inactive ==> new.hover.items@.len() == 0
        &&& new.wf()
    }

    /// Moves the cursor.
    pub fn run_move_command(&mut self, movement: &Movement, count: Option<usize>, mods: Modifiers) -> (r:
        CommandExecuted)
        requires
            old(self).wf(),
        ensures
            r == CommandExecuted::Yes,
            Self::move_post(*old(self), *final(self), *movement, count, mods),
    {
        if movement.is_jump() && !movement.same(&self.editor.last_movement_new) {
            self.editor.save_jump_location();
        }
        self.editor.last_movement_new = *movement;
        let steps = match count {
            Some(n) => n,
            None => 1,
        };
        self.editor.cursor.move_by(&self.doc.buffer, movement, steps, mods.shift);
        let offset = self.editor.cursor.offset();
        let keep = match &self.editor.snippet {
            Some(snippet) => find_tab(snippet, offset).is_some(),
            None => false,
        };
        if !keep {
            self.editor.snippet = None;
        }
        self.cancel_completion();
        self.cancel_hover();
        CommandExecuted::Yes
    }

    /// The offset that an inline search for `c` from the cursor finds on
    /// the line of the cursor: to the left the last place in front of the
    /// cursor at which `c` stands, to the right the first place behind the
    /// character of the cursor.
    pub open spec fn inline_target(&self, direction: InlineFindDirection, c: Seq<u8>) -> Option<int> {
        let text = self.doc.buffer@;
        let n = text.len() as int;
        let offset = vstd::math::min(self.editor.cursor.mode@.offset() as int, n);
        let line = newlines(text, offset);
        let start = line_start(text, line as nat);
        let line_break = next_newline(text, start);
        let end = if line_break < n {
            line_break + 1
        } else {
            n
        };
        match direction {
            _ if c.len() == 0 => None,
            InlineFindDirection::Left => last_found(text, c, false, start, offset - c.len() + 1),
            InlineFindDirection::Right => if offset + 1 >= end {
                None
            } else {
                first_found(
                    text,
                    c,
                    false,
                    forward_chars(text, offset, 1, line_end(text, line as nat, false)),
                    end - c.len() + 1,
                )
            },
        }
    }

    /// Moves the cursor to where the inline search for `c` finds it.
    pub fn inline_find(&mut self, direction: InlineFindDirection, c: &Vec<u8>)
        requires
            old(self).wf(),
        ensures
            match old(self).inline_target(direction, c@) {
                Some(target) => Self::move_post(
                    *old(self),
                    *final(self),
                    Movement::Offset(target as usize),
                    None,
                    Modifiers { shift: false, alt: false, ctrl: false, meta: false },
                ),
                None => *final(self) == *old(self),
            },
    {
        let n = self.doc.buffer.len();
        let cursor_offset = self.editor.cursor.offset();
        let offset = if cursor_offset < n {
            cursor_offset
        } else {
            n
        };
        let line = self.doc.buffer.line_of_offset(offset);
        let start = self.doc.buffer.offset_of_line(line);
        let line_break = self.doc.buffer.next_line_break(start);
        let end = if line_break < n {
            line_break + 1
        } else {
            n
        };
        let m = c.len();
        let mut search = Find::new();
        search.set_find(c, true, false);
        let found = if m == 0 {
            None
        } else {
            match direction {
                InlineFindDirection::Left => {
                    if offset >= m {
                        search.find_backward(&self.doc.buffer.text, start, offset - m + 1)
                    } else {
                        None
                    }
                },
                InlineFindDirection::Right => {
                    if offset >= end || offset + 1 >= end {
                        None
                    } else {
                        let from = self.doc.buffer.next_grapheme_offset(
                            offset,
                            1,
                            self.doc.buffer.line_end_offset(line, false),
                        );
                        if end >= m {
                            search.find_forward(&self.doc.buffer.text, from, end - m + 1)
                        } else {
                            None
                        }
                    }
                },
            }
        };
        if let Some(target) = found {
            self.run_move_command(&Movement::Offset(target), None, Modifiers::empty());
        }
    }
}

} // verus!
