//! The state that the editor works on: documents, the views that show them,
//! and what is shared between the views of a window.

use vstd::prelude::*;
use vstd::string::StringSliceAdditionalSpecFns;
use crate::buffer::Buffer;
use crate::cursor::{Cursor, CursorModeView};
use crate::delta::{Delta, DeltaView};
use crate::edit::{EditType, InvalLines, can_edit};
use crate::history::JumpHistory;
use crate::lsp::{CodeActionOrCommand, Diagnostic, DiagnosticSeverity, TextEdit};
use crate::movement::Movement;
use crate::nav::Position;
use crate::position::{EditorLocation, ScrollOffset};
use crate::selection::Selection;
use crate::snippet::Tab;
use crate::text::str_eq;

verus! {

/// The buffers that belong to the editor itself and show no file.
#[derive(Clone, Copy, Debug, PartialEq, Eq, Structural)]
pub enum LocalBufferKind {
    Empty,
    Palette,
    Search,
    SourceControl,
    FilePicker,
    Keymap,
    Settings,
    PathName,
}

/// What a buffer shows.
#[derive(Debug)]
pub enum BufferContent {
    /// The file at a path.
    File(String),
    Local(LocalBufferKind),
    /// The value of a setting, by the setting's name.
    SettingsValue(String),
    /// A text that has no file yet, by its number and name.
    Scratch(u64, String),
}

/// The content of a buffer as a value of specifications.
pub enum BufferContentView {
    File(Seq<char>),
    Local(LocalBufferKind),
    SettingsValue(Seq<char>),
    Scratch(u64, Seq<char>),
}

impl View for BufferContent {
    type V = BufferContentView;

    open spec fn view(&self) -> BufferContentView {
        match *self {
            BufferContent::File(path) => BufferContentView::File(path@),
            BufferContent::Local(kind) => BufferContentView::Local(kind),
            BufferContent::SettingsValue(name) => BufferContentView::SettingsValue(name@),
            BufferContent::Scratch(id, name) => BufferContentView::Scratch(id, name@),
        }
    }
}

impl Clone for BufferContent {
    fn clone(&self) -> (r: BufferContent)
        ensures
            r == *self,
    {
        match self {
            BufferContent::File(path) => BufferContent::File(path.clone()),
            BufferContent::Local(kind) => BufferContent::Local(*kind),
            BufferContent::SettingsValue(name) => BufferContent::SettingsValue(name.clone()),
            BufferContent::Scratch(id, name) => BufferContent::Scratch(*id, name.clone()),
        }
    }
}

impl BufferContentView {
    pub open spec fn is_file(self) -> bool {
        self is File
    }

    /// A one-line input field rather than a text to edit.
    pub open spec fn is_input(self) -> bool {
        match self {
            BufferContentView::Local(kind) => kind == LocalBufferKind::Search || kind
                == LocalBufferKind::Palette || kind == LocalBufferKind::FilePicker || kind
                == LocalBufferKind::Settings || kind == LocalBufferKind::Keymap || kind
                == LocalBufferKind::PathName,
            BufferContentView::SettingsValue(_) => true,
            _ => false,
        }
    }

    pub open spec fn is_palette(self) -> bool {
        self == BufferContentView::Local(LocalBufferKind::Palette)
    }

    pub open spec fn is_search(self) -> bool {
        self == BufferContentView::Local(LocalBufferKind::Search)
    }

    pub open spec fn is_source_control(self) -> bool {
        self == BufferContentView::Local(LocalBufferKind::SourceControl)
    }

    pub open spec fn is_settings(self) -> bool {
        self == BufferContentView::Local(LocalBufferKind::Settings) || self == BufferContentView::Local(
            LocalBufferKind::Keymap,
        ) || self is SettingsValue
    }
}

impl BufferContent {
    /// Whether two contents are alike.
    pub fn same(&self, other: &BufferContent) -> (r: bool)
        ensures
            r == (self@ == other@),
    {
        match (self, other) {
            (BufferContent::File(a), BufferContent::File(b)) => str_eq(a.as_str(), b.as_str()),
            (BufferContent::Local(a), BufferContent::Local(b)) => local_kind_eq(*a, *b),
            (BufferContent::SettingsValue(a), BufferContent::SettingsValue(b)) => str_eq(
                a.as_str(),
                b.as_str(),
            ),
            (BufferContent::Scratch(i, a), BufferContent::Scratch(j, b)) => *i == *j && str_eq(
                a.as_str(),
                b.as_str(),
            ),
            _ => false,
        }
    }

    pub fn is_file(&self) -> (r: bool)
        ensures
            r == self@.is_file(),
    {
        match self {
            BufferContent::File(_) => true,
            _ => false,
        }
    }

    pub fn is_input(&self) -> (r: bool)
        ensures
            r == self@.is_input(),
    {
        match self {
            BufferContent::Local(kind) => match kind {
                LocalBufferKind::Search | LocalBufferKind::Palette | LocalBufferKind::FilePicker | LocalBufferKind::Settings | LocalBufferKind::Keymap | LocalBufferKind::PathName => true,
                LocalBufferKind::Empty | LocalBufferKind::SourceControl => false,
            },
            BufferContent::SettingsValue(_) => true,
            _ => false,
        }
    }

    pub fn is_palette(&self) -> (r: bool)
        ensures
            r == self@.is_palette(),
    {
        match self {
            BufferContent::Local(LocalBufferKind::Palette) => true,
            _ => false,
        }
    }

    pub fn is_search(&self) -> (r: bool)
        ensures
            r == self@.is_search(),
    {
        match self {
            BufferContent::Local(LocalBufferKind::Search) => true,
            _ => false,
        }
    }

    pub fn is_source_control(&self) -> (r: bool)
        ensures
            r == self@.is_source_control(),
    {
        match self {
            BufferContent::Local(LocalBufferKind::SourceControl) => true,
            _ => false,
        }
    }

    pub fn is_settings(&self) -> (r: bool)
        ensures
            r == self@.is_settings(),
    {
        match self {
            BufferContent::Local(LocalBufferKind::Settings) => true,
            BufferContent::Local(LocalBufferKind::Keymap) => true,
            BufferContent::SettingsValue(_) => true,
            _ => false,
        }
    }
}

pub fn local_kind_eq(a: LocalBufferKind, b: LocalBufferKind) -> (r: bool)
    ensures
        r == (a == b),
{
    match (a, b) {
        (LocalBufferKind::Empty, LocalBufferKind::Empty) => true,
        (LocalBufferKind::Palette, LocalBufferKind::Palette) => true,
        (LocalBufferKind::Search, LocalBufferKind::Search) => true,
        (LocalBufferKind::SourceControl, LocalBufferKind::SourceControl) => true,
        (LocalBufferKind::FilePicker, LocalBufferKind::FilePicker) => true,
        (LocalBufferKind::Keymap, LocalBufferKind::Keymap) => true,
        (LocalBufferKind::Settings, LocalBufferKind::Settings) => true,
        (LocalBufferKind::PathName, LocalBufferKind::PathName) => true,
        _ => false,
    }
}

/// How a view shows its text.
#[derive(Debug)]
pub enum EditorView {
    Normal,
    /// Only the lines that head a section are shown in full size.
    Lens,
    /// Beside an earlier state of the file, by the name of that state.
    Diff(String),
}

#[derive(Clone, Copy, Debug, PartialEq, Eq, Structural)]
pub enum InlineFindDirection {
    Left,
    Right,
}

/// The size of a view in whole pixels.
#[derive(Clone, Copy, Debug, PartialEq, Eq, Structural)]
pub struct Size {
    pub width: u32,
    pub height: u32,
}

/// Lines from `start` up to `end`.
#[derive(Clone, Copy, Debug, PartialEq, Eq, Structural)]
pub struct LineRange {
    pub start: usize,
    pub end: usize,
}

/// One stretch of the comparison of a file with an earlier state of it.
#[derive(Clone, Copy, Debug, PartialEq, Eq, Structural)]
pub enum DiffLines {
    /// Lines that only the earlier state has.
    Left(LineRange),
    /// Lines that both have.
    Both(LineRange, LineRange),
    /// Lines that both have and that are not shown.
    Skip(LineRange, LineRange),
    /// Lines that only the file has.
    Right(LineRange),
}

/// The comparison of a document with an earlier state of it.
#[derive(Debug)]
pub struct DocumentHistory {
    pub version: String,
    pub changes: Vec<DiffLines>,
}

/// A diagnostic with the offsets of its range, where they are known.
#[derive(Debug)]
pub struct EditorDiagnostic {
    pub range: Option<(usize, usize)>,
    pub diagnostic: Diagnostic,
}

/// A text with what the editor knows of it.
#[derive(Debug)]
pub struct Document {
    pub id: u64,
    pub content: BufferContent,
    pub buffer: Buffer,
    pub loaded: bool,
    pub cursor_offset: usize,
    pub scroll_offset: ScrollOffset,
    /// The code actions that the server offered, by the offset they are for.
    pub code_actions: Vec<(usize, Vec<CodeActionOrCommand>)>,
    pub diagnostics: Option<Vec<EditorDiagnostic>>,
    pub histories: Vec<DocumentHistory>,
}

/// The index of the first entry for `offset` at or behind `from`.
pub open spec fn code_actions_index(
    entries: Seq<(usize, Vec<CodeActionOrCommand>)>,
    offset: usize,
    from: int,
) -> Option<int>
    decreases entries.len() - from,
{
    if from < 0 || from >= entries.len() {
        None
    } else if entries[from].0 == offset {
        Some(from)
    } else {
        code_actions_index(entries, offset, from + 1)
    }
}

/// The index of the first history named `version` at or behind `from`.
pub open spec fn history_index(histories: Seq<DocumentHistory>, version: Seq<char>, from: int) -> Option<
    int,
>
    decreases histories.len() - from,
{
    if from < 0 || from >= histories.len() {
        None
    } else if histories[from].version@ == version {
        Some(from)
    } else {
        history_index(histories, version, from + 1)
    }
}

impl Document {
    /// A document for `content` that holds `text`.
    pub fn new(id: u64, content: BufferContent, text: &str) -> (d: Document)
        ensures
            d.id == id,
            d.content == content,
            d.buffer@ == text.spec_bytes(),
            d.buffer.rev == 0,
            d.loaded,
            d.cursor_offset == 0,
            d.code_actions@.len() == 0,
            d.diagnostics.is_none(),
            d.histories@.len() == 0,
    {
        Document {
            id,
            content,
            buffer: Buffer::new(text),
            loaded: true,
            cursor_offset: 0,
            scroll_offset: ScrollOffset { x: 0, y: 0 },
            code_actions: Vec::new(),
            diagnostics: None,
            histories: Vec::new(),
        }
    }

    pub fn id(&self) -> (r: u64)
        ensures
            r == self.id,
    {
        self.id
    }

    pub fn rev(&self) -> (r: u64)
        ensures
            r == self.buffer.rev,
    {
        self.buffer.rev
    }

    pub fn loaded(&self) -> (r: bool)
        ensures
            r == self.loaded,
    {
        self.loaded
    }

    pub fn content(&self) -> (r: &BufferContent)
        ensures
            *r == self.content,
    {
        &self.content
    }

    pub fn buffer(&self) -> (r: &Buffer)
        ensures
            *r == self.buffer,
    {
        &self.buffer
    }

    /// The code actions that are known for `offset`.
    pub fn code_actions_at(&self, offset: usize) -> (r: Option<usize>)
        ensures
            match r {
                Some(i) => code_actions_index(self.code_actions@, offset, 0) == Some(i as int) && i
                    < self.code_actions@.len(),
                None => code_actions_index(self.code_actions@, offset, 0) is None,
            },
    {
        let mut i: usize = 0;
        while i < self.code_actions.len()
            invariant
                i <= self.code_actions@.len(),
                code_actions_index(self.code_actions@, offset, 0) == code_actions_index(
                    self.code_actions@,
                    offset,
                    i as int,
                ),
            decreases self.code_actions@.len() - i,
        {
            if self.code_actions[i].0 == offset {
                return Some(i);
            }
            i += 1;
        }
        None
    }

    /// The comparison with the earlier state named `version`.
    pub fn get_history(&self, version: &str) -> (r: Option<usize>)
        ensures
            match r {
                Some(i) => history_index(self.histories@, version@, 0) == Some(i as int) && i
                    < self.histories@.len(),
                None => history_index(self.histories@, version@, 0) is None,
            },
    {
        let mut i: usize = 0;
        while i < self.histories.len()
            invariant
                i <= self.histories@.len(),
                history_index(self.histories@, version@, 0) == history_index(
                    self.histories@,
                    version@,
                    i as int,
                ),
            decreases self.histories@.len() - i,
        {
            if str_eq(self.histories[i].version.as_str(), version) {
                return Some(i);
            }
            i += 1;
        }
        None
    }

    /// What an edit of the kind `edit_type` that makes the change `delta`
    /// leaves of a document: the changed text, one revision further, and
    /// the kind of the edit kept as the last one made. Nothing else of the
    /// document is touched, the saved revision included.
    pub open spec fn edited(old: Document, new: Document, delta: DeltaView, edit_type: EditType) -> bool {
        &&& delta.base_len == old.buffer@.len()
        &&& new.buffer@ == crate::edit::apply_els(old.buffer@, delta.els)
        &&& new.buffer@.len() == delta.new_len()
        &&& new.buffer.rev == old.buffer.rev + 1
        &&& new.buffer.saved_rev == old.buffer.saved_rev
        &&& new.buffer.last_edit_type == edit_type
        &&& new.id == old.id
        &&& new.content == old.content
        &&& new.loaded == old.loaded
        &&& new.cursor_offset == old.cursor_offset
        &&& new.scroll_offset == old.scroll_offset
        &&& new.code_actions == old.code_actions
        &&& new.diagnostics == old.diagnostics
        &&& new.histories == old.histories
    }

    /// Makes `edits` to the text, all or none of them.
    pub fn do_raw_edit(&mut self, edits: &Vec<(Selection, String)>, edit_type: EditType) -> (r: Option<
        (Delta, InvalLines),
    >)
        ensures
            r is Some <==> can_edit(
                old(self).buffer@.len() as usize,
                old(self).buffer.rev,
                crate::edit::edits_view(edits@),
            ),
            r matches Some((delta, _)) ==> delta.wf() && delta@.els == crate::edit::build_els(
                crate::edit::sorted_replacements(crate::edit::edits_view(edits@)),
                crate::edit::edits_view(edits@),
                old(self).buffer@.len() as usize,
            ) && Self::edited(*old(self), *final(self), delta@, edit_type),
            r is None ==> *final(self) == *old(self),
    {
        self.buffer.edit(edits, edit_type)
    }
}

/// The state of one view.
#[derive(Debug)]
pub struct LapceEditorData {
    pub view_id: u64,
    pub editor_id: u64,
    /// The tab that holds the view.
    pub tab_id: Option<u64>,
    /// The view that this view serves, where it is an input field.
    pub parent_view_id: Option<u64>,
    /// The view and the widget of this view's search field.
    pub find_view_id: Option<(u64, u64)>,
    pub content: BufferContent,
    pub view: EditorView,
    /// The earlier state that the file is compared with.
    pub compare: Option<String>,
    pub cursor: Cursor,
    pub last_movement_new: Movement,
    /// The tab stops of the snippet that is being filled in.
    pub snippet: Option<Vec<Tab>>,
    pub jumps: JumpHistory,
    pub scroll_offset: ScrollOffset,
    pub size: Size,
    pub inline_find: Option<InlineFindDirection>,
    pub last_inline_find: Option<(InlineFindDirection, Vec<u8>)>,
}

impl LapceEditorData {
    /// The view `new` is the view `old` but for where its cursor stands:
    /// the cursor keeps its motion mode and the selections it has kept,
    /// and nothing else of the view is touched.
    pub open spec fn cursor_moved_only(old: Self, new: Self) -> bool {
        &&& new.cursor.motion_mode == old.cursor.motion_mode
        &&& new.cursor.history_selections == old.cursor.history_selections
        &&& new == (LapceEditorData { cursor: new.cursor, ..old })
    }

    /// The view `new` is the view `old` with its cursor carried over the
    /// change `delta` of the text; the cursor gives up the column that it
    /// kept, and nothing else of the view is touched.
    pub open spec fn carried(old: Self, new: Self, delta: DeltaView) -> bool {
        &&& new.cursor.mode@ == old.cursor.mode@.delta_applied(delta)
        &&& new.cursor.horiz is None
        &&& Self::cursor_moved_only(old, new)
    }

    /// The cursor is well formed, and the list of jumps is and can grow.
    pub open spec fn wf(&self) -> bool {
        &&& self.cursor.wf()
        &&& self.jumps@.wf()
        &&& self.jumps@.locations.len() < usize::MAX
    }

    /// A view of `content` with the cursor at the start.
    pub fn new(view_id: u64, editor_id: u64, content: BufferContent) -> (e: LapceEditorData)
        ensures
            e.view_id == view_id,
            e.editor_id == editor_id,
            e.content == content,
            e.cursor.mode@ == CursorModeView::Normal(0),
            e.snippet.is_none(),
            e.jumps@.locations.len() == 0,
            e.jumps@.current == 0,
            e.tab_id.is_none(),
            e.parent_view_id.is_none(),
            e.find_view_id.is_none(),
            e.view is Normal,
            e.compare.is_none(),
            e.inline_find.is_none(),
            e.last_inline_find.is_none(),
            e.wf(),
    {
        LapceEditorData {
            view_id,
            editor_id,
            tab_id: None,
            parent_view_id: None,
            find_view_id: None,
            content,
            view: EditorView::Normal,
            compare: None,
            cursor: Cursor::origin(),
            last_movement_new: Movement::Left,
            snippet: None,
            jumps: JumpHistory::new(),
            scroll_offset: ScrollOffset { x: 0, y: 0 },
            size: Size { width: 0, height: 0 },
            inline_find: None,
            last_inline_find: None,
        }
    }

    /// Everything of the view but its cursor, its list of jumps, its
    /// snippet and what it moved by last is as in `other`.
    pub open spec fn same_frame(&self, other: LapceEditorData) -> bool {
        &&& self.view_id == other.view_id
        &&& self.editor_id == other.editor_id
        &&& self.tab_id == other.tab_id
        &&& self.parent_view_id == other.parent_view_id
        &&& self.find_view_id == other.find_view_id
        &&& self.content == other.content
        &&& self.view == other.view
        &&& self.compare == other.compare
        &&& self.scroll_offset == other.scroll_offset
        &&& self.size == other.size
        &&& self.inline_find == other.inline_find
        &&& self.last_inline_find == other.last_inline_find
    }

    /// Whether the state of the view is well formed.
    pub fn check(&self) -> (r: bool)
        ensures
            r == self.wf(),
    {
        self.cursor.check() && self.jumps.current_location <= self.jumps.locations.len()
            && self.jumps.locations.len() < usize::MAX
    }

    pub fn is_code_lens(&self) -> (r: bool)
        ensures
            r == (self.view is Lens),
    {
        match &self.view {
            EditorView::Lens => true,
            _ => false,
        }
    }

    /// The place at which the view stands, where it shows a file.
    pub fn current_place(&self) -> (r: Option<EditorLocation<usize>>)
        ensures
            match r {
                Some(l) => self.content matches BufferContent::File(path) && l == (EditorLocation {
                    path,
                    position: Some(self.cursor.mode@.offset()),
                    scroll_offset: Some(self.scroll_offset),
                    history: None,
                }),
                None => !self.content@.is_file(),
            },
    {
        match &self.content {
            BufferContent::File(path) => Some(
                EditorLocation {
                    path: path.clone(),
                    position: Some(self.cursor.offset()),
                    scroll_offset: Some(self.scroll_offset),
                    history: None,
                },
            ),
            _ => None,
        }
    }

    /// The list of jumps after the place at which the view stands was put
    /// on it: a view that shows no file has no place to put there, and a
    /// list that is full takes none.
    pub open spec fn jump_saved(&self) -> crate::history::JumpState {
        match self.content {
            BufferContent::File(path) if self.jumps@.locations.len() + 1 < usize::MAX => self.jumps@.saved(
                EditorLocation {
                    path,
                    position: Some(self.cursor.mode@.offset()),
                    scroll_offset: Some(self.scroll_offset),
                    history: None,
                },
            ),
            _ => self.jumps@,
        }
    }

    /// Puts the place at which the view stands on its list of jumps.
    pub fn save_jump_location(&mut self)
        requires
            old(self).wf(),
        ensures
            final(self).jumps@ == old(self).jump_saved(),
            final(self).wf(),
            final(self).cursor == old(self).cursor,
            final(self).content == old(self).content,
            final(self).view_id == old(self).view_id,
            final(self).editor_id == old(self).editor_id,
            final(self).tab_id == old(self).tab_id,
            final(self).parent_view_id == old(self).parent_view_id,
            final(self).find_view_id == old(self).find_view_id,
            final(self).view == old(self).view,
            final(self).compare == old(self).compare,
            final(self).snippet == old(self).snippet,
            final(self).scroll_offset == old(self).scroll_offset,
            final(self).size == old(self).size,
            final(self).last_movement_new == old(self).last_movement_new,
            final(self).inline_find == old(self).inline_find,
            final(self).last_inline_find == old(self).last_inline_find,
    {
        if self.jumps.locations.len() >= usize::MAX - 1 {
            return ;
        }
        match self.current_place() {
            Some(here) => {
                self.jumps.save_jump_location(here);
            },
            None => {},
        }
    }
}

/// What was last cut or copied.
#[derive(Debug)]
pub struct Register {
    pub unnamed: Vec<u8>,
}

/// Edits that wait for a file to be opened.
#[derive(Debug)]
pub struct PendingEdit {
    pub path: String,
    pub edits: Vec<TextEdit>,
}

/// What the views of a window share.
#[derive(Debug)]
pub struct LapceMainSplitData {
    pub tab_id: u64,
    /// The view that has the focus.
    pub active: Option<u64>,
    pub editors: Vec<LapceEditorData>,
    pub open_docs: Vec<Document>,
    pub register: Register,
    /// The text that is being saved under a new name: its content, the view
    /// that asked, and whether the view closes afterwards.
    pub current_save_as: Option<(BufferContent, u64, bool)>,
    /// The edits of files that are not open yet, oldest first.
    pub pending_edits: Vec<PendingEdit>,
}

/// The files that differ from the last commit.
#[derive(Debug)]
pub struct SourceControlData {
    pub file_diffs: Vec<String>,
}

#[derive(Clone, Copy, Debug)]
pub struct PaletteData {
    pub widget_id: u64,
}

/// The settings that the editor reads.
#[derive(Clone, Copy, Debug)]
pub struct Config {
    /// Whether the editor has a normal and a visual mode.
    pub modal: bool,
    /// The height of a line in whole pixels.
    pub line_height: u32,
    pub format_on_save: bool,
}

#[derive(Clone, Copy, Debug, PartialEq, Eq, Structural)]
pub enum HoverStatus {
    Inactive,
    Started,
    Done,
}

/// A request for what the server knows of the word at a position.
#[derive(Clone, Copy, Debug, PartialEq, Eq, Structural)]
pub struct HoverRequest {
    pub request_id: usize,
    pub buffer_id: u64,
    pub position: Position,
    pub hover_id: u64,
}

/// The session of a hover.
#[derive(Debug)]
pub struct HoverData {
    pub id: u64,
    pub request_id: usize,
    pub status: HoverStatus,
    pub offset: usize,
    pub buffer_id: u64,
    pub editor_view_id: u64,
    /// What the server answered, text by text.
    pub items: Vec<String>,
}

impl HoverData {
    pub fn new(id: u64) -> (h: HoverData)
        ensures
            h.id == id,
            h.status == HoverStatus::Inactive,
            h.request_id == 0,
            h.items@.len() == 0,
    {
        HoverData {
            id,
            request_id: 0,
            status: HoverStatus::Inactive,
            offset: 0,
            buffer_id: 0,
            editor_view_id: 0,
            items: Vec::new(),
        }
    }

    /// The number that the next session gets.
    pub open spec fn next_request_id(&self) -> usize {
        if self.request_id < usize::MAX {
            (self.request_id + 1) as usize
        } else {
            0
        }
    }

    pub fn is_empty(&self) -> (r: bool)
        ensures
            r == (self.items@.len() == 0),
    {
        self.items.len() == 0
    }

    /// Ends the session and forgets its answer.
    pub fn cancel(&mut self)
        ensures
            old(self).status == HoverStatus::Inactive ==> *final(self) == *old(self),
            old(self).status != HoverStatus::Inactive ==> final(self).items@.len() == 0,
            final(self).status == HoverStatus::Inactive,
            final(self).id == old(self).id,
            final(self).request_id == old(self).request_id,
            final(self).offset == old(self).offset,
            final(self).buffer_id == old(self).buffer_id,
            final(self).editor_view_id == old(self).editor_view_id,
    {
        if self.status == HoverStatus::Inactive {
            return ;
        }
        self.status = HoverStatus::Inactive;
        self.items = Vec::new();
    }

    /// Takes the answer of the server; the answer to a request of another
    /// session, or for a session that has ended, is thrown away.
    pub fn receive(&mut self, request_id: usize, items: Vec<String>) -> (taken: bool)
        ensures
            taken == (old(self).status != HoverStatus::Inactive && old(self).request_id
                == request_id),
            !taken ==> *final(self) == *old(self),
            taken ==> *final(self) == (HoverData { status: HoverStatus::Done, items, ..*old(self) }),
    {
        if self.status == HoverStatus::Inactive || self.request_id != request_id {
            return false;
        }
        self.status = HoverStatus::Done;
        self.items = items;
        true
    }
}

} // verus!
