//! Going from place to place: to the next change or error, back and forth
//! along the jumps of a view, by the page, by scrolling, and to where the
//! pointer is.

use vstd::prelude::*;
use vstd::string::StringExecFns;
use crate::assist::offset_position;
use crate::buffer::{line_begin, line_col_offset, line_end, line_start, newlines, next_newline, word_end, word_start};
use crate::command::{
    ActionView, CommandExecuted, EditorAction, FocusCommand, LocationView, LogLevel, LogMessage,
    Modifiers, Rect, Target, UiCommand, actions_view, location_view, no_actions, push_action,
};
use crate::cursor::Mode;
use crate::data::{
    BufferContent, BufferContentView, DiffLines, Document, EditorDiagnostic, LapceMainSplitData,
    history_index,
};
use crate::editor::{LapceEditorBufferData, Touched};
use crate::lsp::DiagnosticSeverity;
use crate::movement::Movement;
use crate::nav::{
    Position, listed_in_order, marked_offsets, marked_positions, names_of,
    next_in_file_diff_offset, next_in_file_errors_offset, next_target, offset_files_view,
    position_files_view, sort_by_name, sort_order, lemma_sort_order,
};
use crate::position::EditorLocation;
use crate::text::str_eq;

verus! {

/// The line at which the change with index `i` of a comparison is shown in
/// the file: lines that only the file has start a change; lines that only
/// the earlier state has are shown in front of what follows them.
pub open spec fn change_line(changes: Seq<DiffLines>, i: int) -> Option<usize> {
    match changes[i] {
        DiffLines::Left(_) => if i + 1 < changes.len() {
            match changes[i + 1] {
                DiffLines::Both(_, r) => Some(r.start),
                DiffLines::Skip(_, r) => Some(r.start),
                _ => None,
            }
        } else {
            None
        },
        DiffLines::Right(r) => Some(r.start),
        _ => None,
    }
}

/// The offsets in `text` at which the first `n` changes start.
pub open spec fn diff_positions(text: Seq<u8>, changes: Seq<DiffLines>, n: int) -> Seq<usize>
    decreases n,
{
    if n <= 0 || n > changes.len() {
        Seq::empty()
    } else {
        match change_line(changes, n - 1) {
            Some(line) => diff_positions(text, changes, n - 1).push(
                line_start(text, line as nat) as usize,
            ),
            None => diff_positions(text, changes, n - 1),
        }
    }
}

/// The index of the first open document at or behind `from` that shows the
/// file `path`.
pub open spec fn open_doc_index(docs: Seq<Document>, path: Seq<char>, from: int) -> Option<int>
    decreases docs.len() - from,
{
    if from < 0 || from >= docs.len() {
        None
    } else if docs[from].content@ == BufferContentView::File(path) {
        Some(from)
    } else {
        open_doc_index(docs, path, from + 1)
    }
}

/// The positions at which the first `n` diagnostics that are errors start.
pub open spec fn error_positions(diagnostics: Seq<EditorDiagnostic>, n: int) -> Seq<Position>
    decreases n,
{
    if n <= 0 || n > diagnostics.len() {
        Seq::empty()
    } else if diagnostics[n - 1].diagnostic.severity == Some(DiagnosticSeverity::Error) {
        error_positions(diagnostics, n - 1).push(diagnostics[n - 1].diagnostic.range.start)
    } else {
        error_positions(diagnostics, n - 1)
    }
}

/// The errors of a document.
pub open spec fn doc_errors(doc: Document) -> Seq<Position> {
    match doc.diagnostics {
        Some(d) => error_positions(d@, d@.len() as int),
        None => Seq::empty(),
    }
}

/// The files among the first `n` open documents that have errors, each
/// with the positions of its errors.
pub open spec fn error_files_upto(docs: Seq<Document>, n: int) -> Seq<(Seq<char>, Seq<Position>)>
    decreases n,
{
    if n <= 0 || n > docs.len() {
        Seq::empty()
    } else {
        match docs[n - 1].content@ {
            BufferContentView::File(path) if doc_errors(docs[n - 1]).len() > 0 => error_files_upto(
                docs,
                n - 1,
            ).push((path, doc_errors(docs[n - 1]))),
            _ => error_files_upto(docs, n - 1),
        }
    }
}

/// The names of a list of files.
pub open spec fn file_names<T>(files: Seq<(Seq<char>, T)>) -> Seq<Seq<char>> {
    Seq::new(files.len(), |i: int| files[i].0)
}

/// A list of files in the order of their names.
pub open spec fn files_in_order<T>(files: Seq<(Seq<char>, T)>) -> Seq<(Seq<char>, T)> {
    let order = sort_order(file_names(files), files.len() as int);
    Seq::new(files.len(), |j: int| files[order[j]])
}

/// The line of the file that is shown at the line `visual` of a view
/// that compares the file with an earlier state, from the change with
/// index `i` on; `shown` lines are shown in front of that change, and the
/// file has reached the line `actual`.
pub open spec fn actual_line(changes: Seq<DiffLines>, visual: int, i: int, shown: int, actual: int) -> int
    decreases changes.len() - i,
{
    if i < 0 || i >= changes.len() {
        actual
    } else {
        match changes[i] {
            DiffLines::Left(l) => {
                let n = if l.end > l.start {
                    l.end - l.start
                } else {
                    0
                };
                if visual < shown + n {
                    actual
                } else {
                    actual_line(changes, visual, i + 1, shown + n, actual)
                }
            },
            DiffLines::Skip(_, r) => if visual < shown + 1 {
                r.start as int
            } else {
                actual_line(changes, visual, i + 1, shown + 1, r.end as int)
            },
            DiffLines::Both(_, r) => {
                let n = if r.end > r.start {
                    r.end - r.start
                } else {
                    0
                };
                if visual < shown + n {
                    r.start + (visual - shown)
                } else {
                    actual_line(changes, visual, i + 1, shown + n, r.end as int)
                }
            },
            DiffLines::Right(r) => {
                let n = if r.end > r.start {
                    r.end - r.start
                } else {
                    0
                };
                if visual < shown + n {
                    r.start + (visual - shown)
                } else {
                    actual_line(changes, visual, i + 1, shown + n, r.end as int)
                }
            },
        }
    }
}

/// The line to which the cursor goes when the view is scrolled so that
/// it shows the pixels from `top` up to `bottom`, with lines `height`
/// pixels high: a cursor that would leave the view is kept two lines from
/// its lower and one line from its upper edge.
pub open spec fn scroll_line(line: int, height: int, top: int, bottom: int) -> int {
    if (line + 1) * height + height > bottom {
        let l = if bottom > 0 {
            bottom / height
        } else {
            0
        };
        if l > 2 {
            l - 2
        } else {
            0
        }
    } else if line * height - height < top {
        (if top > 0 {
            (top + height - 1) / height
        } else {
            0
        }) + 1
    } else {
        line
    }
}

/// `v`, or the nearest number that a signed word of 64 bits holds.
pub open spec fn clamp_i64(v: int) -> i64 {
    if v > i64::MAX {
        i64::MAX
    } else if v < i64::MIN {
        i64::MIN
    } else {
        v as i64
    }
}

/// `v`, or the nearest number that an unsigned word of the machine holds.
pub open spec fn clamp_usize(v: int) -> usize {
    if v > usize::MAX {
        usize::MAX
    } else if v < 0 {
        0
    } else {
        v as usize
    }
}

pub fn to_i64(v: i128) -> (r: i64)
    ensures
        r == clamp_i64(v as int),
{
    if v > i64::MAX as i128 {
        i64::MAX
    } else if v < i64::MIN as i128 {
        i64::MIN
    } else {
        v as i64
    }
}

pub fn to_usize(v: i128) -> (r: usize)
    ensures
        r == clamp_usize(v as int),
{
    if v > usize::MAX as i128 {
        usize::MAX
    } else if v < 0 {
        0
    } else {
        v as usize
    }
}

/// The line of the file that is shown at the line `visual` of a view that
/// compares the file with an earlier state.
pub fn actual_line_of(changes: &Vec<DiffLines>, visual: usize) -> (r: usize)
    ensures
        r == clamp_usize(actual_line(changes@, visual as int, 0, 0, 0)),
{
    let mut shown: usize = 0;
    let mut actual: usize = 0;
    let mut i: usize = 0;
    while i < changes.len()
        invariant
            i <= changes@.len(),
            shown <= visual,
            actual_line(changes@, visual as int, 0, 0, 0) == actual_line(
                changes@,
                visual as int,
                i as int,
                shown as int,
                actual as int,
            ),
        decreases changes@.len() - i,
    {
        match changes[i] {
            DiffLines::Left(l) => {
                let n = if l.end > l.start {
                    l.end - l.start
                } else {
                    0
                };
                if n > visual - shown {
                    return actual;
                }
                shown = shown + n;
            },
            DiffLines::Skip(_, r) => {
                if 1 > visual - shown {
                    return r.start;
                }
                shown = shown + 1;
                actual = r.end;
            },
            DiffLines::Both(_, r) => {
                let n = if r.end > r.start {
                    r.end - r.start
                } else {
                    0
                };
                if n > visual - shown {
                    return to_usize(r.start as i128 + (visual - shown) as i128);
                }
                shown = shown + n;
                actual = r.end;
            },
            DiffLines::Right(r) => {
                let n = if r.end > r.start {
                    r.end - r.start
                } else {
                    0
                };
                if n > visual - shown {
                    return to_usize(r.start as i128 + (visual - shown) as i128);
                }
                shown = shown + n;
                actual = r.end;
            },
        }
        i += 1;
    }
    actual
}

impl Document {
    /// The line of the file that is shown at the line `visual` of a view
    /// that compares the file with the earlier state named `version`.
    pub fn history_actual_line_from_visual(&self, version: &str, visual: usize) -> (r: usize)
        ensures
            r == (match history_index(self.histories@, version@, 0) {
                Some(h) => clamp_usize(
                    actual_line(self.histories@[h].changes@, visual as int, 0, 0, 0),
                ),
                None => visual,
            }),
    {
        match self.get_history(version) {
            Some(h) => actual_line_of(&self.histories[h].changes, visual),
            None => visual,
        }
    }
}

impl LapceEditorBufferData {
    /// The offsets in the text of this view at which the changes of the
    /// file `path` start, or the start of the file where no change is known.
    pub open spec fn file_diff_positions(&self, path: Seq<char>) -> Seq<usize> {
        let docs = self.main_split.open_docs@;
        let known = match open_doc_index(docs, path, 0) {
            Some(d) => match history_index(docs[d].histories@, "head"@, 0) {
                Some(h) => diff_positions(
                    self.doc.buffer@,
                    docs[d].histories@[h].changes@,
                    docs[d].histories@[h].changes@.len() as int,
                ),
                None => Seq::empty(),
            },
            None => Seq::empty(),
        };
        if known.len() == 0 {
            seq![0usize]
        } else {
            known
        }
    }

    /// The files that differ from the last commit, each with the offsets
    /// of its changes.
    pub open spec fn diff_file_list(&self) -> Seq<(Seq<char>, Seq<usize>)> {
        Seq::new(
            self.source_control.file_diffs@.len(),
            |i: int|
                (
                    self.source_control.file_diffs@[i]@,
                    self.file_diff_positions(self.source_control.file_diffs@[i]@),
                ),
        )
    }

    /// Where the next change lies, seen from the cursor: nowhere in a view
    /// that shows no file or where no file differs.
    pub open spec fn next_diff_step(&self) -> Seq<ActionView> {
        match self.doc.content@ {
            BufferContentView::File(path) if self.source_control.file_diffs@.len() > 0 => {
                let files = files_in_order(self.diff_file_list());
                let t = next_target(
                    marked_offsets(files, self.editor.cursor.mode@.offset()),
                    path,
                );
                seq![
                    ActionView::JumpToLocation {
                        location: LocationView {
                            path: files[t.0].0,
                            position: Some(files[t.0].1[t.1]),
                            scroll_offset: None,
                            history: Some("head"@),
                        },
                        target: Target::Widget(self.main_split.tab_id),
                    },
                ]
            },
            _ => Seq::empty(),
        }
    }

    /// The index of the open document that shows the file `path`.
    pub fn find_open_doc(&self, path: &str) -> (r: Option<usize>)
        ensures
            match r {
                Some(i) => open_doc_index(self.main_split.open_docs@, path@, 0) == Some(i as int) && i
                    < self.main_split.open_docs@.len(),
                None => open_doc_index(self.main_split.open_docs@, path@, 0) is None,
            },
    {
        let mut i: usize = 0;
        while i < self.main_split.open_docs.len()
            invariant
                i <= self.main_split.open_docs@.len(),
                open_doc_index(self.main_split.open_docs@, path@, 0) == open_doc_index(
                    self.main_split.open_docs@,
                    path@,
                    i as int,
                ),
            decreases self.main_split.open_docs@.len() - i,
        {
            let hit = match &self.main_split.open_docs[i].content {
                BufferContent::File(p) => str_eq(p.as_str(), path),
                _ => false,
            };
            if hit {
                return Some(i);
            }
            i += 1;
        }
        None
    }

    /// The offsets at which the changes of the file `path` start.
    pub fn diff_positions_of(&self, path: &str) -> (r: Vec<usize>)
        ensures
            r@ == self.file_diff_positions(path@),
            r@.len() > 0,
    {
        let mut positions: Vec<usize> = Vec::new();
        if let Some(d) = self.find_open_doc(path) {
            let doc = &self.main_split.open_docs[d];
            if let Some(h) = doc.get_history("head") {
                let changes = &doc.histories[h].changes;
                let mut i: usize = 0;
                while i < changes.len()
                    invariant
                        i <= changes@.len(),
                        positions@ == diff_positions(self.doc.buffer@, changes@, i as int),
                    decreases changes@.len() - i,
                {
                    let line = match changes[i] {
                        DiffLines::Left(_) => {
                            if i + 1 < changes.len() {
                                match changes[i + 1] {
                                    DiffLines::Both(_, r) => Some(r.start),
                                    DiffLines::Skip(_, r) => Some(r.start),
                                    _ => None,
                                }
                            } else {
                                None
                            }
                        },
                        DiffLines::Right(r) => Some(r.start),
                        _ => None,
                    };
                    if let Some(line) = line {
                        positions.push(self.doc.buffer.offset_of_line(line));
                    }
                    i += 1;
                }
            }
        }
        if positions.len() == 0 {
            positions.push(0);
        }
        positions
    }

    /// Goes to the next change.
    pub fn next_diff(&self) -> (r: Vec<EditorAction>)
        ensures
            actions_view(r@) == self.next_diff_step(),
    {
        let mut actions = no_actions();
        if let BufferContent::File(buffer_path) = &self.doc.content {
            let n = self.source_control.file_diffs.len();
            if n == 0 {
                return actions;
            }
            let mut diff_files: Vec<(String, Vec<usize>)> = Vec::new();
            let mut i: usize = 0;
            while i < n
                invariant
                    i <= n,
                    n == self.source_control.file_diffs@.len(),
                    diff_files@.len() == i,
                    forall|k: int|
                        0 <= k < i ==> (#[trigger] diff_files@[k]).0@
                            == self.source_control.file_diffs@[k]@ && diff_files@[k].1@
                            == self.file_diff_positions(self.source_control.file_diffs@[k]@),
                decreases n - i,
            {
                let path = &self.source_control.file_diffs[i];
                diff_files.push((path.clone(), self.diff_positions_of(path.as_str())));
                i += 1;
            }
            let ghost built = diff_files@;
            let ghost list = self.diff_file_list();
            assert(offset_files_view(built) =~= list);
            assert(names_of(built) =~= file_names(list));
            let sorted = sort_by_name(diff_files);
            let ghost order = sort_order(file_names(list), list.len() as int);
            proof {
                lemma_sort_order(file_names(list), list.len() as int);
                assert(offset_files_view(sorted@) =~= files_in_order(list)) by {
                    assert forall|j: int| 0 <= j < sorted@.len() implies offset_files_view(
                        sorted@,
                    )[j] == files_in_order(list)[j] by {
                        assert(0 <= order[j] < built.len());
                        assert(sorted@[j] == built[order[j]]);
                        assert(list[order[j]] == offset_files_view(built)[order[j]]);
                    }
                }
            }
            let offset = self.editor.cursor.offset();
            proof {
                let files = files_in_order(list);
                let marks = marked_offsets(files, offset);
                assert forall|j: int| 0 <= j < marks.len() implies (#[trigger] marks[j]).1.len()
                    > 0 by {
                    assert(0 <= order[j] < built.len());
                    assert(files[j] == list[order[j]]);
                }
            }
            let (path, target) = next_in_file_diff_offset(offset, buffer_path.as_str(), sorted.as_slice());
            let location = EditorLocation {
                path,
                position: Some(target),
                scroll_offset: None,
                history: Some(String::from_str("head")),
            };
            push_action(
                &mut actions,
                EditorAction::JumpToLocation {
                    location,
                    target: Target::Widget(self.main_split.tab_id),
                },
            );
            assert(actions_view(actions@) =~= self.next_diff_step());
        }
        actions
    }
}


/// The positions at which the errors of a list of diagnostics start.
pub fn errors_of(diagnostics: &Vec<EditorDiagnostic>) -> (r: Vec<Position>)
    ensures
        r@ == error_positions(diagnostics@, diagnostics@.len() as int),
{
    let mut out: Vec<Position> = Vec::new();
    let mut i: usize = 0;
    while i < diagnostics.len()
        invariant
            i <= diagnostics@.len(),
            out@ == error_positions(diagnostics@, i as int),
        decreases diagnostics@.len() - i,
    {
        let is_error = match diagnostics[i].diagnostic.severity {
            Some(DiagnosticSeverity::Error) => true,
            _ => false,
        };
        if is_error {
            out.push(diagnostics[i].diagnostic.range.start);
        }
        i += 1;
    }
    out
}

impl LapceMainSplitData {
    /// The open files that have errors, each with the positions of its errors.
    pub fn diagnostics_items(&self) -> (r: Vec<(String, Vec<Position>)>)
        ensures
            position_files_view(r@) == error_files_upto(self.open_docs@, self.open_docs@.len() as int),
    {
        let mut out: Vec<(String, Vec<Position>)> = Vec::new();
        assert(position_files_view(out@) =~= Seq::empty());
        let mut i: usize = 0;
        while i < self.open_docs.len()
            invariant
                i <= self.open_docs@.len(),
                position_files_view(out@) == error_files_upto(self.open_docs@, i as int),
            decreases self.open_docs@.len() - i,
        {
            let doc = &self.open_docs[i];
            let errors = match &doc.diagnostics {
                Some(d) => errors_of(d),
                None => Vec::new(),
            };
            if let BufferContent::File(path) = &doc.content {
                if errors.len() > 0 {
                    let ghost before = position_files_view(out@);
                    out.push((path.clone(), errors));
                    assert(position_files_view(out@) =~= before.push((path@, errors@)));
                }
            }
            i += 1;
        }
        out
    }
}

impl LapceEditorBufferData {
    /// Where the next error lies, seen from the cursor: nowhere in a view
    /// that shows no file or where no open file has an error; a cursor
    /// without a position goes to the log.
    pub open spec fn next_error_step(&self) -> Seq<ActionView> {
        let list = error_files_upto(
            self.main_split.open_docs@,
            self.main_split.open_docs@.len() as int,
        );
        match self.doc.content@ {
            BufferContentView::File(path) if list.len() > 0 => {
                let offset = self.editor.cursor.mode@.offset();
                match offset_position(self.doc.buffer@, offset) {
                    Some(position) => {
                        let files = files_in_order(list);
                        let t = next_target(marked_positions(files, position), path);
                        seq![
                            ActionView::JumpToLspLocation {
                                location: LocationView {
                                    path: files[t.0].0,
                                    position: Some(files[t.0].1[t.1]),
                                    scroll_offset: None,
                                    history: None,
                                },
                            },
                        ]
                    },
                    None => seq![
                        ActionView::Log {
                            level: LogLevel::Error,
                            message: LogMessage::OffsetWithoutPosition { offset },
                        },
                    ],
                }
            },
            _ => Seq::empty(),
        }
    }

    /// Goes to the next error.
    pub fn next_error(&self) -> (r: Vec<EditorAction>)
        ensures
            actions_view(r@) == self.next_error_step(),
    {
        let mut actions = no_actions();
        if let BufferContent::File(buffer_path) = &self.doc.content {
            let file_diagnostics = self.main_split.diagnostics_items();
            if file_diagnostics.len() == 0 {
                return actions;
            }
            let ghost built = file_diagnostics@;
            let ghost list = error_files_upto(
                self.main_split.open_docs@,
                self.main_split.open_docs@.len() as int,
            );
            assert(names_of(built) =~= file_names(list)) by {
                assert forall|k: int| 0 <= k < built.len() implies names_of(built)[k] == file_names(
                    list,
                )[k] by {
                    assert(position_files_view(built)[k] == list[k]);
                }
            }
            let sorted = sort_by_name(file_diagnostics);
            let ghost order = sort_order(file_names(list), list.len() as int);
            let offset = self.editor.cursor.offset();
            match self.doc.buffer.offset_to_position(offset) {
                Some(position) => {
                    proof {
                        lemma_sort_order(file_names(list), list.len() as int);
                        lemma_error_files_nonempty(
                            self.main_split.open_docs@,
                            self.main_split.open_docs@.len() as int,
                        );
                        assert(position_files_view(sorted@) =~= files_in_order(list)) by {
                            assert forall|j: int| 0 <= j < sorted@.len() implies position_files_view(
                                sorted@,
                            )[j] == files_in_order(list)[j] by {
                                assert(0 <= order[j] < built.len());
                                assert(sorted@[j] == built[order[j]]);
                                assert(list[order[j]] == position_files_view(built)[order[j]]);
                            }
                        }
                        let files = files_in_order(list);
                        let marks = marked_positions(files, position);
                        assert forall|j: int| 0 <= j < marks.len() implies (
                        #[trigger] marks[j]).1.len() > 0 by {
                            assert(0 <= order[j] < built.len());
                            assert(files[j] == list[order[j]]);
                        }
                    }
                    let (path, target) = next_in_file_errors_offset(
                        position,
                        buffer_path.as_str(),
                        sorted.as_slice(),
                    );
                    push_action(
                        &mut actions,
                        EditorAction::JumpToLspLocation {
                            location: EditorLocation {
                                path,
                                position: Some(target),
                                scroll_offset: None,
                                history: None,
                            },
                        },
                    );
                },
                None => {
                    push_action(
                        &mut actions,
                        EditorAction::Log {
                            level: LogLevel::Error,
                            message: LogMessage::OffsetWithoutPosition { offset },
                        },
                    );
                },
            }
            assert(actions_view(actions@) =~= self.next_error_step());
        }
        actions
    }

    /// A step forward along the jumps of the view.
    pub fn jump_location_forward(&mut self) -> (r: Vec<EditorAction>)
        ensures
            Self::only_touched(*old(self), *final(self), Touched::none().editor()),
            old(self).wf() ==> final(self).wf(),
            final(self).editor.jumps@ == old(self).editor.jumps@.forward(),
            final(self).editor.cursor == old(self).editor.cursor,
            final(self).editor.snippet == old(self).editor.snippet,
            final(self).editor.last_movement_new == old(self).editor.last_movement_new,
            final(self).editor.same_frame(old(self).editor),
            actions_view(r@) == if old(self).editor.jumps@.can_go_forward() {
                seq![
                    ActionView::GoToLocationNew {
                        view_id: old(self).editor.view_id,
                        location: location_view(final(self).editor.jumps@.place()->0),
                    },
                ]
            } else {
                Seq::empty()
            },
    {
        let mut actions = no_actions();
        if let Some(location) = self.editor.jumps.jump_location_forward() {
            push_action(
                &mut actions,
                EditorAction::GoToLocationNew { view_id: self.editor.view_id, location },
            );
            assert(actions_view(actions@) =~= seq![actions@[0]@]);
        }
        actions
    }

    /// The place of the view as a step back puts it on the list of jumps:
    /// none for a view that shows no file, and none where the list is full.
    pub open spec fn place_to_save(&self) -> Option<EditorLocation<usize>> {
        match self.editor.content {
            BufferContent::File(path) if self.editor.jumps@.locations.len() + 1 < usize::MAX => Some(
                EditorLocation {
                    path,
                    position: Some(self.editor.cursor.mode@.offset()),
                    scroll_offset: Some(self.editor.scroll_offset),
                    history: None,
                },
            ),
            _ => None,
        }
    }

    /// A step back along the jumps of the view. A view that has moved on
    /// from its last jump puts its place on the list first.
    pub fn jump_location_backward(&mut self) -> (r: Vec<EditorAction>)
        requires
            old(self).wf(),
        ensures
            Self::only_touched(*old(self), *final(self), Touched::none().editor()),
            final(self).wf(),
            final(self).editor.cursor == old(self).editor.cursor,
            final(self).editor.snippet == old(self).editor.snippet,
            final(self).editor.last_movement_new == old(self).editor.last_movement_new,
            final(self).editor.same_frame(old(self).editor),
            final(self).editor.jumps@ == old(self).editor.jumps@.backward(old(self).place_to_save()),
            actions_view(r@) == if old(self).editor.jumps@.can_go_back(
                old(self).place_to_save() is Some,
            ) {
                seq![
                    ActionView::GoToLocationNew {
                        view_id: old(self).editor.view_id,
                        location: location_view(final(self).editor.jumps@.place()->0),
                    },
                ]
            } else {
                Seq::empty()
            },
    {
        let mut actions = no_actions();
        let here = if self.editor.jumps.locations.len() < usize::MAX - 1 {
            self.editor.current_place()
        } else {
            None
        };
        if let Some(location) = self.editor.jumps.jump_location_backward(here) {
            push_action(
                &mut actions,
                EditorAction::GoToLocationNew { view_id: self.editor.view_id, location },
            );
            assert(actions_view(actions@) =~= seq![actions@[0]@]);
        }
        actions
    }
}

/// Every file of the list of files with errors has an error.
pub proof fn lemma_error_files_nonempty(docs: Seq<Document>, n: int)
    ensures
        forall|i: int|
            0 <= i < error_files_upto(docs, n).len() ==> (#[trigger] error_files_upto(
                docs,
                n,
            )[i]).1.len() > 0,
    decreases n,
{
    if 0 < n <= docs.len() {
        lemma_error_files_nonempty(docs, n - 1);
        let prev = error_files_upto(docs, n - 1);
        let all = error_files_upto(docs, n);
        assert forall|i: int| 0 <= i < all.len() implies (#[trigger] all[i]).1.len() > 0 by {
            if i < prev.len() {
                assert(all[i] == prev[i]);
            }
        }
    }
}

} // verus!
