//! Code actions: the edits of several files that a fix asks for are made
//! to the files that are open, and wait for the files that are not.

use vstd::prelude::*;
use crate::apply::{resolve_text_edits, resolved_edits};
use crate::command::{
    ActionView, EditorAction, LogLevel, LogMessage, actions_view, no_actions, push_action,
};
use crate::data::{BufferContent, BufferContentView, Document, LapceEditorData, LapceMainSplitData, PendingEdit};
use crate::delta::{Delta, DeltaView};
use crate::edit::{
    EditType, EditsView, apply_els, build_els, can_edit, edits_view, sorted_replacements,
};
use crate::editor::{LapceEditorBufferData, Touched, element_mut};
use crate::lsp::{CodeActionOrCommand, TextEdit, duplicate_edits};
use crate::nav::Position;
use crate::navigate::open_doc_index;
use crate::selection::Selection;
use crate::text::str_eq;
use crate::workspace_edit::{file_path_of_uri, url_matches_path, workspace_edits_counted};

verus! {

/// Whether one of the edits replaces the whole of a text of `len` bytes.
pub open spec fn replaces_all(edits: EditsView, len: int, from: int) -> bool
    decreases edits.len() - from,
{
    if from < 0 || from >= edits.len() {
        false
    } else if edits[from].0.len() > 0 && edits[from].0[0].min() == 0 && edits[from].0.last().max()
        >= len {
        true
    } else {
        replaces_all(edits, len, from + 1)
    }
}

/// The edits of the files that wait to be opened, for one file, where the
/// edits for the file `uri` belong to the view's own file, wait for
/// another file to be opened, or cannot be made.
pub struct EditTarget {
    /// Whether the edits are for the file of the view.
    pub own: bool,
    /// The path of the file that the URI names, where it names one.
    pub path: Option<String>,
    pub edits: Vec<TextEdit>,
}

impl LapceMainSplitData {
    /// The index of the open document that shows the file `path`.
    pub fn open_doc(&self, path: &str) -> (r: Option<usize>)
        ensures
            match r {
                Some(i) => open_doc_index(self.open_docs@, path@, 0) == Some(i as int) && i
                    < self.open_docs@.len(),
                None => open_doc_index(self.open_docs@, path@, 0) is None,
            },
    {
        let mut i: usize = 0;
        while i < self.open_docs.len()
            invariant
                i <= self.open_docs@.len(),
                open_doc_index(self.open_docs@, path@, 0) == open_doc_index(
                    self.open_docs@,
                    path@,
                    i as int,
                ),
            decreases self.open_docs@.len() - i,
        {
            let hit = match &self.open_docs[i].content {
                BufferContent::File(p) => str_eq(p.as_str(), path),
                _ => false,
            };
            if hit {
                return Some(i);
            }
            i += 1;
        }
        None
    }

    /// Whether `edits` can be made to the open file `path`.
    pub open spec fn can_edit_file(&self, path: Seq<char>, edits: EditsView) -> bool {
        open_doc_index(self.open_docs@, path, 0) matches Some(d) && can_edit(
            self.open_docs@[d].buffer@.len() as usize,
            self.open_docs@[d].buffer.rev,
            edits,
        )
    }

    /// What an edit of the open file `path` leaves behind: the text of the
    /// document is changed, and the cursor of every view of the file
    /// follows the change, unless an edit replaces the whole text.
    /// Nothing is changed where the file is not open or the edits cannot
    /// be made.
    pub open spec fn edit_post(
        old: Self,
        new: Self,
        path: Seq<char>,
        edits: EditsView,
        edit_type: EditType,
        r: Option<Delta>,
    ) -> bool {
        if !old.can_edit_file(path, edits) {
            r is None && new == old
        } else {
            let d = open_doc_index(old.open_docs@, path, 0)->0;
            let before = old.open_docs@[d];
            let after = new.open_docs@[d];
            let len = before.buffer@.len() as usize;
            let delta = DeltaView {
                els: build_els(sorted_replacements(edits), edits, len),
                base_len: len,
            };
            &&& r matches Some(made) && made@ == delta
            &&& delta.wf()
            &&& new.tab_id == old.tab_id
            &&& new.active == old.active
            &&& new.register == old.register
            &&& new.current_save_as == old.current_save_as
            &&& new.pending_edits == old.pending_edits
            &&& new.open_docs@.len() == old.open_docs@.len()
            &&& forall|i: int|
                0 <= i < old.open_docs@.len() && i != d ==> #[trigger] new.open_docs@[i]
                    == old.open_docs@[i]
            &&& Document::edited(before, after, delta, edit_type)
            &&& new.editors@.len() == old.editors@.len()
            &&& forall|i: int|
                0 <= i < old.editors@.len() ==> if old.editors@[i].content@
                    == BufferContentView::File(path) && !replaces_all(edits, len as int, 0) {
                    LapceEditorData::carried(old.editors@[i], #[trigger] new.editors@[i], delta)
                } else {
                    new.editors@[i] == old.editors@[i]
                }
        }
    }

    /// Carries the cursor of every view of the file `path` over a change
    /// of its text.
    pub fn cursor_apply_delta(&mut self, path: &str, delta: &Delta)
        requires
            old(self).wf(),
            delta.wf(),
        ensures
            final(self).wf(),
            final(self).tab_id == old(self).tab_id,
            final(self).active == old(self).active,
            final(self).register == old(self).register,
            final(self).current_save_as == old(self).current_save_as,
            final(self).pending_edits == old(self).pending_edits,
            final(self).open_docs == old(self).open_docs,
            final(self).editors@.len() == old(self).editors@.len(),
            forall|j: int|
                0 <= j < old(self).editors@.len() ==> if old(self).editors@[j].content@
                    == BufferContentView::File(path@) {
                    LapceEditorData::carried(old(self).editors@[j], #[trigger] final(self).editors@[j], delta@)
                } else {
                    final(self).editors@[j] == old(self).editors@[j]
                },
    {
        let n = self.editors.len();
        let mut i: usize = 0;
        while i < n
            invariant
                i <= n,
                n == self.editors@.len(),
                n == old(self).editors@.len(),
                delta.wf(),
                self.tab_id == old(self).tab_id,
                self.active == old(self).active,
                self.register == old(self).register,
                self.current_save_as == old(self).current_save_as,
                self.pending_edits == old(self).pending_edits,
                self.open_docs == old(self).open_docs,
                forall|j: int| 0 <= j < n ==> (#[trigger] self.editors@[j]).wf(),
                forall|j: int|
                    0 <= j < i ==> if old(self).editors@[j].content@ == BufferContentView::File(
                        path@,
                    ) {
                        LapceEditorData::carried(old(self).editors@[j], #[trigger] self.editors@[j], delta@)
                    } else {
                        self.editors@[j] == old(self).editors@[j]
                    },
                forall|j: int| i <= j < n ==> (#[trigger] self.editors@[j]) == old(self).editors@[j],
            decreases n - i,
        {
            let hit = match &self.editors[i].content {
                BufferContent::File(p) => str_eq(p.as_str(), path),
                _ => false,
            };
            if hit {
                let editor = element_mut(&mut self.editors, i);
                editor.cursor.apply_delta(delta);
            }
            i += 1;
        }
    }

    /// Makes `edits` to the open file `path`.
    pub fn edit(&mut self, path: &str, edits: &Vec<(Selection, String)>, edit_type: EditType) -> (r:
        Option<Delta>)
        requires
            old(self).wf(),
        ensures
            Self::edit_post(*old(self), *final(self), path@, edits_view(edits@), edit_type, r),
            final(self).wf(),
    {
        let d = match self.open_doc(path) {
            Some(d) => d,
            None => {
                return None;
            },
        };
        let buffer_len = self.open_docs[d].buffer.len();
        let move_cursor = !replaces_whole(edits, buffer_len);
        if !self.open_docs[d].buffer.accepts(edits) {
            return None;
        }
        let delta = {
            let doc = element_mut(&mut self.open_docs, d);
            match doc.do_raw_edit(edits, edit_type) {
                Some((delta, _)) => delta,
                None => Delta::identity(0),
            }
        };
        if move_cursor {
            self.cursor_apply_delta(path, &delta);
        }
        Some(delta)
    }

    /// What making the text edits `edits` to the file `path` leaves
    /// behind, and what goes to the log: the edits are made where the file
    /// is open, every position names an offset, and the edits fit the text.
    /// The document keeps them as an edit of the kind `Other`.
    pub open spec fn code_action_post(
        old: Self,
        new: Self,
        path: Seq<char>,
        edits: Seq<TextEdit>,
        log: Seq<ActionView>,
    ) -> bool {
        match open_doc_index(old.open_docs@, path, 0) {
            None => new == old && log == seq![
                ActionView::Log { level: LogLevel::Warn, message: LogMessage::FileNotLoaded },
            ],
            Some(d) => match resolved_edits(old.open_docs@[d].buffer@, edits, edits.len() as int) {
                None => new == old && log == seq![
                    ActionView::Log {
                        level: LogLevel::Error,
                        message: LogMessage::PositionWithoutOffset {
                            position: first_unresolved(old.open_docs@[d].buffer@, edits, 0),
                        },
                    },
                ],
                Some(resolved) => if old.can_edit_file(path, resolved) {
                    log == Seq::<ActionView>::empty() && exists|r: Option<Delta>|
                        #[trigger] Self::edit_post(old, new, path, resolved, EditType::Other, r)
                } else {
                    new == old && log == seq![
                        ActionView::Log { level: LogLevel::Error, message: LogMessage::EditsRejected },
                    ]
                },
            },
        }
    }

    /// Makes the text edits `edits` to the open file `path`, all or none.
    pub fn apply_code_action(&mut self, path: &str, edits: &Vec<TextEdit>) -> (r: Vec<EditorAction>)
        requires
            old(self).wf(),
        ensures
            Self::code_action_post(*old(self), *final(self), path@, edits@, actions_view(r@)),
            final(self).wf(),
    {
        let mut actions = no_actions();
        let d = match self.open_doc(path) {
            Some(d) => d,
            None => {
                push_action(
                    &mut actions,
                    EditorAction::Log { level: LogLevel::Warn, message: LogMessage::FileNotLoaded },
                );
                assert(actions_view(actions@) =~= seq![actions@[0]@]);
                return actions;
            },
        };
        let resolved = match resolve_text_edits(&self.open_docs[d].buffer, edits) {
            Some(v) => v,
            None => {
                let position = first_bad_position(&self.open_docs[d].buffer, edits);
                push_action(
                    &mut actions,
                    EditorAction::Log {
                        level: LogLevel::Error,
                        message: LogMessage::PositionWithoutOffset { position },
                    },
                );
                assert(actions_view(actions@) =~= seq![actions@[0]@]);
                return actions;
            },
        };
        let made = self.edit(path, &resolved, EditType::Other);
        if made.is_none() {
            push_action(
                &mut actions,
                EditorAction::Log { level: LogLevel::Error, message: LogMessage::EditsRejected },
            );
            assert(actions_view(actions@) =~= seq![actions@[0]@]);
        }
        actions
    }
}

/// Whether one of `edits` replaces the whole of a text of `len` bytes.
pub fn replaces_whole(edits: &Vec<(Selection, String)>, len: usize) -> (r: bool)
    ensures
        r == replaces_all(edits_view(edits@), len as int, 0),
{
    let mut found = false;
    let mut k: usize = 0;
    while k < edits.len()
        invariant
            k <= edits@.len(),
            found == replaces_all(edits_view(edits@).subrange(0, k as int), len as int, 0),
        decreases edits@.len() - k,
    {
        let selection = &edits[k].0;
        let n = selection.regions.len();
        let whole = n > 0 && selection.regions[0].min() == 0 && selection.regions[n - 1].max() >= len;
        proof {
            let upto = edits_view(edits@).subrange(0, k as int);
            let next = edits_view(edits@).subrange(0, k + 1);
            assert(next =~= upto.push(edits_view(edits@)[k as int]));
            lemma_replaces_all_push(upto, edits_view(edits@)[k as int], len as int, 0);
        }
        if whole {
            found = true;
        }
        k += 1;
    }
    assert(edits_view(edits@).subrange(0, k as int) =~= edits_view(edits@));
    found
}

/// The first position of `edits` from `from` on that names no offset in
/// `text`.
pub open spec fn first_unresolved(text: Seq<u8>, edits: Seq<TextEdit>, from: int) -> Position
    decreases edits.len() - from,
{
    if from < 0 || from >= edits.len() {
        Position { line: 0, character: 0 }
    } else if crate::buffer::position_offset(text, edits[from].range.start) is None {
        edits[from].range.start
    } else if crate::buffer::position_offset(text, edits[from].range.end) is None {
        edits[from].range.end
    } else {
        first_unresolved(text, edits, from + 1)
    }
}

/// The first position of `edits` that names no offset in the text of `buffer`.
pub fn first_bad_position(buffer: &crate::buffer::Buffer, edits: &Vec<TextEdit>) -> (r: Position)
    ensures
        r == first_unresolved(buffer@, edits@, 0),
{
    let mut i: usize = 0;
    while i < edits.len()
        invariant
            i <= edits@.len(),
            first_unresolved(buffer@, edits@, 0) == first_unresolved(buffer@, edits@, i as int),
        decreases edits@.len() - i,
    {
        if buffer.offset_of_position(&edits[i].range.start).is_none() {
            return edits[i].range.start;
        }
        if buffer.offset_of_position(&edits[i].range.end).is_none() {
            return edits[i].range.end;
        }
        i += 1;
    }
    Position { line: 0, character: 0 }
}

/// Whether one of a list of edits and one more replaces the whole text.
pub proof fn lemma_replaces_all_push(
    edits: EditsView,
    x: (Seq<crate::selection::SelRegion>, Seq<char>),
    len: int,
    from: int,
)
    requires
        0 <= from <= edits.len(),
    ensures
        replaces_all(edits.push(x), len, from) == (replaces_all(edits, len, from) || (x.0.len() > 0
            && x.0[0].min() == 0 && x.0.last().max() >= len)),
    decreases edits.len() - from,
{
    let pushed = edits.push(x);
    if from < edits.len() {
        assert(pushed[from] == edits[from]);
        lemma_replaces_all_push(edits, x, len, from + 1);
    } else {
        assert(pushed[from] == x);
        assert(!replaces_all(pushed, len, from + 1));
    }
}


/// The position at which the first of `edits` starts.
pub open spec fn first_edit_start(edits: Seq<TextEdit>) -> Option<Position> {
    if edits.len() > 0 {
        Some(edits[0].range.start)
    } else {
        None
    }
}

impl LapceMainSplitData {
    /// What the edits for one file of an edit of several files leave
    /// behind, and what they ask for. Edits for the file of the view are
    /// made at once. Edits for another file wait until it is opened: the
    /// program is asked to open it at the place of the first edit. Edits
    /// for a URI that names no file go to the log.
    pub open spec fn target_post(
        old: Self,
        new: Self,
        own_path: Seq<char>,
        target: EditTarget,
        log: Seq<ActionView>,
    ) -> bool {
        if target.own {
            Self::code_action_post(old, new, own_path, target.edits@, log)
        } else {
            match target.path {
                Some(path) => {
                    &&& new.tab_id == old.tab_id
                    &&& new.active == old.active
                    &&& new.editors == old.editors
                    &&& new.open_docs == old.open_docs
                    &&& new.register == old.register
                    &&& new.current_save_as == old.current_save_as
                    &&& new.pending_edits@.len() == old.pending_edits@.len() + 1
                    &&& new.pending_edits@.subrange(0, old.pending_edits@.len() as int)
                        == old.pending_edits@
                    &&& new.pending_edits@.last().path@ == path@
                    &&& new.pending_edits@.last().edits@ == target.edits@
                    &&& log == seq![
                        ActionView::OpenFile {
                            path: path@,
                            position: first_edit_start(target.edits@),
                        },
                    ]
                },
                None => new == old && log == seq![
                    ActionView::Log { level: LogLevel::Warn, message: LogMessage::UriWithoutFile },
                ],
            }
        }
    }

    /// Whether `trace` lists the states that the edits for the files of
    /// `targets` lead through, from `old` to `new`, and `logs` what each of
    /// them asks for.
    pub open spec fn trace_ok(
        old: Self,
        new: Self,
        own_path: Seq<char>,
        targets: Seq<EditTarget>,
        trace: Seq<Self>,
        logs: Seq<Seq<ActionView>>,
    ) -> bool {
        &&& trace.len() == targets.len() + 1
        &&& logs.len() == targets.len()
        &&& trace[0] == old
        &&& trace[targets.len() as int] == new
        &&& forall|i: int|
            0 <= i < targets.len() ==> Self::target_post(
                trace[i],
                trace[i + 1],
                own_path,
                targets[i],
                #[trigger] logs[i],
            )
    }

    /// What the edits for all files leave behind, made one after the
    /// other, and what they ask for, in their order.
    pub open spec fn all_targets_post(
        old: Self,
        new: Self,
        own_path: Seq<char>,
        targets: Seq<EditTarget>,
        log: Seq<ActionView>,
    ) -> bool {
        exists|trace: Seq<Self>, logs: Seq<Seq<ActionView>>| #[trigger]
            Self::trace_ok(old, new, own_path, targets, trace, logs) && log == joined(
                logs,
                logs.len() as int,
            )
    }

    /// Deals with the edits for one file of an edit of several files.
    pub fn apply_edit_target(&mut self, own_path: &str, target: EditTarget) -> (r: Vec<EditorAction>)
        requires
            old(self).wf(),
        ensures
            Self::target_post(*old(self), *final(self), own_path@, target, actions_view(r@)),
            final(self).wf(),
    {
        if target.own {
            return self.apply_code_action(own_path, &target.edits);
        }
        let mut actions = no_actions();
        match target.path {
            Some(path) => {
                let position = if target.edits.len() > 0 {
                    Some(target.edits[0].range.start)
                } else {
                    None
                };
                push_action(&mut actions, EditorAction::OpenFile { path: path.clone(), position });
                let ghost before = self.pending_edits@;
                self.pending_edits.push(PendingEdit { path, edits: target.edits });
                assert(self.pending_edits@.subrange(0, before.len() as int) =~= before);
            },
            None => {
                push_action(
                    &mut actions,
                    EditorAction::Log { level: LogLevel::Warn, message: LogMessage::UriWithoutFile },
                );
            },
        }
        assert(actions_view(actions@) =~= seq![actions@[0]@]);
        actions
    }

    /// Deals with the edits for each file of an edit of several files, in
    /// their order.
    pub fn apply_edit_targets(&mut self, own_path: &str, targets: Vec<EditTarget>) -> (r: Vec<
        EditorAction,
    >)
        requires
            old(self).wf(),
        ensures
            Self::all_targets_post(*old(self), *final(self), own_path@, targets@, actions_view(r@)),
            final(self).wf(),
    {
        let n = targets.len();
        let mut rest = targets;
        let mut actions = no_actions();
        let mut k: usize = 0;
        let ghost mut trace: Seq<Self> = seq![*self];
        let ghost mut logs: Seq<Seq<ActionView>> = Seq::empty();
        while rest.len() > 0
            invariant
                k + rest@.len() == n,
                n == targets@.len(),
                rest@ == targets@.skip(k as int),
                self.wf(),
                trace.len() == k + 1,
                logs.len() == k,
                trace[0] == *old(self),
                trace[k as int] == *self,
                forall|i: int|
                    0 <= i < k ==> Self::target_post(
                        trace[i],
                        trace[i + 1],
                        own_path@,
                        targets@[i],
                        #[trigger] logs[i],
                    ),
                actions_view(actions@) == joined(logs, k as int),
            decreases rest@.len(),
        {
            let target = rest.remove(0);
            assert(target == targets@[k as int]);
            assert(rest@ =~= targets@.skip(k + 1));
            let mut step = self.apply_edit_target(own_path, target);
            let ghost stepped = actions_view(step@);
            append_actions(&mut actions, &mut step);
            proof {
                let before = trace;
                let before_logs = logs;
                trace = trace.push(*self);
                logs = logs.push(stepped);
                assert forall|i: int| 0 <= i < k + 1 implies Self::target_post(
                    trace[i],
                    trace[i + 1],
                    own_path@,
                    targets@[i],
                    #[trigger] logs[i],
                ) by {
                    if i < k {
                        assert(trace[i] == before[i]);
                        assert(trace[i + 1] == before[i + 1]);
                        assert(logs[i] == before_logs[i]);
                    }
                }
                lemma_joined_push(before_logs, stepped);
            }
            k += 1;
        }
        proof {
            assert(Self::trace_ok(*old(self), *self, own_path@, targets@, trace, logs));
        }
        actions
    }

    /// The index of the first edits at or behind `from` that wait for the
    /// file `path`.
    pub open spec fn pending_index(pending: Seq<PendingEdit>, path: Seq<char>, from: int) -> Option<int>
        decreases pending.len() - from,
    {
        if from < 0 || from >= pending.len() {
            None
        } else if pending[from].path@ == path {
            Some(from)
        } else {
            Self::pending_index(pending, path, from + 1)
        }
    }

    /// What the news that the file `path` was opened leaves behind: the
    /// oldest edits that wait for the file are taken from the list and
    /// made, as they were asked for. Nothing happens where no edits wait
    /// for the file.
    pub open spec fn file_opened_post(old: Self, new: Self, path: Seq<char>, log: Seq<ActionView>) -> bool {
        let found = Self::pending_index(old.pending_edits@, path, 0);
        if found is None {
            new == old && log == Seq::<ActionView>::empty()
        } else {
            exists|mid: Self|
                #![trigger Self::taken_out(old, mid, found->0)]
                {
                    &&& Self::taken_out(old, mid, found->0)
                    &&& mid.tab_id == old.tab_id
                    &&& mid.active == old.active
                    &&& mid.editors == old.editors
                    &&& mid.open_docs == old.open_docs
                    &&& mid.register == old.register
                    &&& mid.current_save_as == old.current_save_as
                    &&& Self::code_action_post(
                        mid,
                        new,
                        path,
                        old.pending_edits@[found->0].edits@,
                        log,
                    )
                }
        }
    }

    /// What `pending_index` finds lies in the list.
    pub proof fn lemma_pending_index(pending: Seq<PendingEdit>, path: Seq<char>, from: int)
        requires
            0 <= from,
        ensures
            Self::pending_index(pending, path, from) matches Some(i) ==> from <= i < pending.len()
                && pending[i].path@ == path,
        decreases pending.len() - from,
    {
        if from < pending.len() && pending[from].path@ != path {
            Self::lemma_pending_index(pending, path, from + 1);
        }
    }

    /// `new` is `old` without the edits that wait at index `i`.
    pub open spec fn taken_out(old: Self, new: Self, i: int) -> bool {
        new.pending_edits@ == old.pending_edits@.remove(i)
    }

    /// Takes the news that the file `path` was opened, or could not be.
    pub fn file_opened(&mut self, path: &str) -> (r: Vec<EditorAction>)
        requires
            old(self).wf(),
        ensures
            Self::file_opened_post(*old(self), *final(self), path@, actions_view(r@)),
            final(self).wf(),
    {
        let mut i: usize = 0;
        while i < self.pending_edits.len()
            invariant
                i <= self.pending_edits@.len(),
                *self == *old(self),
                self.wf(),
                Self::pending_index(self.pending_edits@, path@, 0) == Self::pending_index(
                    self.pending_edits@,
                    path@,
                    i as int,
                ),
            decreases self.pending_edits@.len() - i,
        {
            if str_eq(self.pending_edits[i].path.as_str(), path) {
                let pending = self.pending_edits.remove(i);
                let ghost mid = *self;
                let actions = self.apply_code_action(path, &pending.edits);
                proof {
                    Self::lemma_pending_index(old(self).pending_edits@, path@, 0);
                    assert(Self::taken_out(*old(self), mid, i as int));
                    assert(Self::code_action_post(
                        mid,
                        *self,
                        path@,
                        old(self).pending_edits@[i as int].edits@,
                        actions_view(actions@),
                    ));
                }
                return actions;
            }
            i += 1;
        }
        no_actions()
    }
}

/// The first `n` lists of `logs`, one behind the other.
pub open spec fn joined(logs: Seq<Seq<ActionView>>, n: int) -> Seq<ActionView>
    decreases n,
{
    if n <= 0 || n > logs.len() {
        Seq::empty()
    } else {
        joined(logs, n - 1) + logs[n - 1]
    }
}

/// One more list goes to the end of the lists joined so far.
pub proof fn lemma_joined_push(logs: Seq<Seq<ActionView>>, more: Seq<ActionView>)
    ensures
        joined(logs.push(more), logs.len() as int + 1) == joined(logs, logs.len() as int) + more,
{
    lemma_joined_prefix(logs, more, logs.len() as int);
}

proof fn lemma_joined_prefix(logs: Seq<Seq<ActionView>>, more: Seq<ActionView>, n: int)
    requires
        0 <= n <= logs.len(),
    ensures
        joined(logs.push(more), n) == joined(logs, n),
    decreases n,
{
    if n > 0 {
        lemma_joined_prefix(logs, more, n - 1);
        assert(logs.push(more)[n - 1] == logs[n - 1]);
    }
}

/// Moves the actions of `more` to the end of `actions`.
pub fn append_actions(actions: &mut Vec<EditorAction>, more: &mut Vec<EditorAction>)
    ensures
        actions_view(final(actions)@) == actions_view(old(actions)@) + actions_view(old(more)@),
        final(more)@.len() == 0,
{
    actions.append(more);
    assert(actions_view(actions@) =~= actions_view(old(actions)@) + actions_view(old(more)@));
}

impl LapceEditorBufferData {
    /// Runs a code action that the user chose: the edits that it asks for
    /// are made to the file of the view, and wait for the other files to
    /// be opened. An action that is a command of the server, or that asks
    /// for no edits, does nothing; so does a view that shows no file.
    /// Changes that are no edits of text are passed over and counted in
    /// the log.
    pub fn run_code_action(&mut self, action: &CodeActionOrCommand) -> (r: Vec<EditorAction>)
        requires
            old(self).wf(),
        ensures
            Self::only_touched(*old(self), *final(self), Touched::none().main_split()),
            final(self).wf(),
            match (old(self).editor.content@, action_edits(*action)) {
                (BufferContentView::File(_), Some(_)) => exists|
                    targets: Seq<EditTarget>,
                    log: Seq<ActionView>,
                |
                    #![trigger LapceMainSplitData::all_targets_post(old(self).main_split, final(self).main_split, old(self).editor.content@->File_0, targets, log)]
                    {
                        &&& targets.len() == action_edits(*action)->0.len()
                        &&& forall|i: int|
                            0 <= i < targets.len() ==> (#[trigger] targets[i]).edits@
                                == action_edits(*action)->0[i].1
                        &&& LapceMainSplitData::all_targets_post(
                            old(self).main_split,
                            final(self).main_split,
                            old(self).editor.content@->File_0,
                            targets,
                            log,
                        )
                        &&& actions_view(r@) == skipped_log(*action) + log
                    },
                _ => final(self).main_split == old(self).main_split && actions_view(r@)
                    == Seq::<ActionView>::empty(),
            },
    {
        let mut actions = no_actions();
        let path = match &self.editor.content {
            BufferContent::File(path) => path.clone(),
            _ => {
                return actions;
            },
        };
        let edit = match action {
            CodeActionOrCommand::Command(_cmd) => {
                return actions;
            },
            CodeActionOrCommand::CodeAction(action) => match &action.edit {
                Some(edit) => edit,
                None => {
                    return actions;
                },
            },
        };
        let (entries, skipped) = workspace_edits_counted(edit);
        let entries = match entries {
            Some(entries) => entries,
            None => {
                return actions;
            },
        };
        if skipped > 0 {
            push_action(
                &mut actions,
                EditorAction::Log {
                    level: LogLevel::Warn,
                    message: LogMessage::UnsupportedChange { count: skipped },
                },
            );
        }
        assert(actions_view(actions@) =~= skipped_log(*action));
        let mut targets: Vec<EditTarget> = Vec::new();
        let mut i: usize = 0;
        while i < entries.len()
            invariant
                i <= entries@.len(),
                targets@.len() == i,
                forall|k: int| 0 <= k < i ==> (#[trigger] targets@[k]).edits@ == entries@[k].1@,
            decreases entries@.len() - i,
        {
            let uri = &entries[i].0;
            let own = url_matches_path(path.as_str(), uri.as_str());
            let file = if own {
                None
            } else {
                file_path_of_uri(uri.as_str())
            };
            targets.push(EditTarget { own, path: file, edits: duplicate_edits(&entries[i].1) });
            i += 1;
        }
        let ghost listed = targets@;
        let ghost before = actions_view(actions@);
        let mut made = self.main_split.apply_edit_targets(path.as_str(), targets);
        let ghost log = actions_view(made@);
        append_actions(&mut actions, &mut made);
        proof {
            let views = crate::workspace_edit::file_edits_view(entries@);
            assert forall|k: int| 0 <= k < listed.len() implies (#[trigger] listed[k]).edits@
                == views[k].1 by {}
            assert(path@ == old(self).editor.content@->File_0);
            assert(action_edits(*action) == Some(views));
            assert(listed.len() == views.len());
            assert(LapceMainSplitData::all_targets_post(
                old(self).main_split,
                self.main_split,
                old(self).editor.content@->File_0,
                listed,
                log,
            ));
            assert(actions_view(actions@) == skipped_log(*action) + log);
        }
        actions
    }
}

/// The edits by file that a code action asks for.
pub open spec fn action_edits(action: CodeActionOrCommand) -> Option<crate::workspace_edit::FileEdits> {
    match action {
        CodeActionOrCommand::CodeAction(a) => match a.edit {
            Some(edit) => crate::workspace_edit::workspace_file_edits(edit),
            None => None,
        },
        CodeActionOrCommand::Command(_) => None,
    }
}

/// What goes to the log for the changes of a code action that are no
/// edits of text.
pub open spec fn skipped_log(action: CodeActionOrCommand) -> Seq<ActionView> {
    match action {
        CodeActionOrCommand::CodeAction(a) => match a.edit {
            Some(edit) => match (edit.changes, edit.document_changes) {
                (None, Some(crate::lsp::DocumentChanges::Operations(ops)))
                    if crate::workspace_edit::skipped_operations(ops@, ops@.len() as int) > 0 => seq![
                    ActionView::Log {
                        level: LogLevel::Warn,
                        message: LogMessage::UnsupportedChange {
                            count: crate::workspace_edit::skipped_operations(ops@, ops@.len() as int) as usize,
                        },
                    },
                ],
                _ => Seq::empty(),
            },
            None => Seq::empty(),
        },
        CodeActionOrCommand::Command(_) => Seq::empty(),
    }
}

} // verus!
