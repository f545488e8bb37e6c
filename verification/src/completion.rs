//! The session of a completion: what was asked of the server for which
//! input, what it answered, and which answers are still wanted.

use vstd::prelude::*;
use crate::lsp::CompletionItem;
use crate::nav::Position;

verus! {

#[derive(Clone, Copy, Debug, PartialEq, Eq, Structural)]
pub enum CompletionStatus {
    /// No completion is going on.
    Inactive,
    /// The server was asked and has not answered.
    Started,
    /// There are answers.
    Active,
}

/// A request for completions, to be sent to the server.
#[derive(Debug)]
pub struct CompletionRequest {
    pub request_id: usize,
    pub buffer_id: u64,
    pub input: Vec<u8>,
    pub position: Position,
    pub completion_id: u64,
}

/// A request as a value of specifications.
pub struct CompletionRequestView {
    pub request_id: usize,
    pub buffer_id: u64,
    pub input: Seq<u8>,
    pub position: Position,
    pub completion_id: u64,
}

impl View for CompletionRequest {
    type V = CompletionRequestView;

    open spec fn view(&self) -> CompletionRequestView {
        CompletionRequestView {
            request_id: self.request_id,
            buffer_id: self.buffer_id,
            input: self.input@,
            position: self.position,
            completion_id: self.completion_id,
        }
    }
}

pub open spec fn requests_view(requests: Seq<CompletionRequest>) -> Seq<CompletionRequestView> {
    Seq::new(requests.len(), |i: int| requests[i]@)
}

/// The session of a completion.
#[derive(Debug)]
pub struct CompletionData {
    /// The widget that shows the completion.
    pub id: u64,
    /// Counts the sessions; an answer to a request of an earlier session is
    /// thrown away.
    pub request_id: usize,
    pub status: CompletionStatus,
    /// The offset at which the completed word starts.
    pub offset: usize,
    pub buffer_id: u64,
    /// What has been typed of the word.
    pub input: Vec<u8>,
    /// The index of the chosen item.
    pub index: usize,
    /// The answers of the server by the input that they were asked for.
    pub input_items: Vec<(Vec<u8>, Vec<CompletionItem>)>,
    /// The number of items that the widget shows at once.
    pub page_size: usize,
}

/// The inputs that have an answer.
pub open spec fn cached_inputs(items: Seq<(Vec<u8>, Vec<CompletionItem>)>) -> Seq<Seq<u8>> {
    Seq::new(items.len(), |i: int| items[i].0@)
}

/// The index of the first answer for `input` at or behind `from`.
pub open spec fn answer_index(inputs: Seq<Seq<u8>>, input: Seq<u8>, from: int) -> Option<int>
    decreases inputs.len() - from,
{
    if from < 0 || from >= inputs.len() {
        None
    } else if inputs[from] == input {
        Some(from)
    } else {
        answer_index(inputs, input, from + 1)
    }
}

/// Whether there is an answer for `input`.
pub open spec fn is_cached(inputs: Seq<Seq<u8>>, input: Seq<u8>) -> bool {
    answer_index(inputs, input, 0) is Some
}

/// What a keystroke does to a session.
pub enum Keystroke {
    /// The session goes on with the new input.
    Reuse,
    /// A new session starts.
    Fresh,
}

impl CompletionData {
    /// Whether a session that is going on goes on with a keystroke at a word
    /// that starts at `start_offset` in the buffer `buffer_id`.
    pub open spec fn reused_by(&self, buffer_id: u64, start_offset: usize) -> bool {
        self.status != CompletionStatus::Inactive && self.offset == start_offset && self.buffer_id
            == buffer_id
    }

    /// The number that the next session gets.
    pub open spec fn next_request_id(&self) -> usize {
        if self.request_id < usize::MAX {
            (self.request_id + 1) as usize
        } else {
            0
        }
    }

    /// The requests that a keystroke sends: one for the empty input and,
    /// where something is typed, one for the input typed; each only where
    /// the session has no answer for it and the position of the request is
    /// known. A new session has no answers. No two requests of a keystroke
    /// ask for the same input.
    pub open spec fn keystroke_requests(
        &self,
        buffer_id: u64,
        start_offset: usize,
        input: Seq<u8>,
        start_pos: Option<Position>,
        pos: Option<Position>,
    ) -> Seq<CompletionRequestView> {
        let reuse = self.reused_by(buffer_id, start_offset);
        let request_id = if reuse {
            self.request_id
        } else {
            self.next_request_id()
        };
        let inputs = cached_inputs(self.input_items@);
        let ask_empty = start_pos is Some && (!reuse || !is_cached(inputs, Seq::empty()));
        let ask_input = pos is Some && input.len() > 0 && (!reuse || !is_cached(inputs, input));
        let first = if ask_empty {
            seq![
                CompletionRequestView {
                    request_id,
                    buffer_id,
                    input: Seq::empty(),
                    position: start_pos->0,
                    completion_id: self.id,
                },
            ]
        } else {
            Seq::empty()
        };
        if ask_input {
            first.push(
                CompletionRequestView {
                    request_id,
                    buffer_id,
                    input,
                    position: pos->0,
                    completion_id: self.id,
                },
            )
        } else {
            first
        }
    }

    /// The index among the answers of the items that are shown: those for
    /// the input typed where there are any, else those for the empty input.
    pub open spec fn shown_index(&self) -> Option<int> {
        let inputs = cached_inputs(self.input_items@);
        match answer_index(inputs, self.input@, 0) {
            Some(i) if self.input_items@[i].1@.len() > 0 => Some(i),
            _ => answer_index(inputs, Seq::empty(), 0),
        }
    }

    /// The number of items that are shown.
    pub open spec fn shown_len(&self) -> nat {
        match self.shown_index() {
            Some(i) => self.input_items@[i].1@.len(),
            None => 0,
        }
    }

    pub fn new(id: u64, page_size: usize) -> (c: CompletionData)
        ensures
            c.id == id,
            c.request_id == 0,
            c.status == CompletionStatus::Inactive,
            c.offset == 0,
            c.buffer_id == 0,
            c.input@.len() == 0,
            c.index == 0,
            c.input_items@.len() == 0,
            c.page_size == page_size,
    {
        CompletionData {
            id,
            request_id: 0,
            status: CompletionStatus::Inactive,
            offset: 0,
            buffer_id: 0,
            input: Vec::new(),
            index: 0,
            input_items: Vec::new(),
            page_size,
        }
    }

    /// The index of the answer for `input`.
    pub fn find_answer(&self, input: &Vec<u8>) -> (r: Option<usize>)
        ensures
            match r {
                Some(i) => answer_index(cached_inputs(self.input_items@), input@, 0) == Some(
                    i as int,
                ) && i < self.input_items@.len(),
                None => answer_index(cached_inputs(self.input_items@), input@, 0) is None,
            },
    {
        let ghost inputs = cached_inputs(self.input_items@);
        let mut i: usize = 0;
        while i < self.input_items.len()
            invariant
                i <= self.input_items@.len(),
                inputs == cached_inputs(self.input_items@),
                answer_index(inputs, input@, 0) == answer_index(inputs, input@, i as int),
            decreases self.input_items@.len() - i,
        {
            if bytes_eq(&self.input_items[i].0, input) {
                return Some(i);
            }
            i += 1;
        }
        None
    }

    /// Whether there is an answer for `input`.
    pub fn contains_key(&self, input: &Vec<u8>) -> (r: bool)
        ensures
            r == is_cached(cached_inputs(self.input_items@), input@),
    {
        self.find_answer(input).is_some()
    }

    /// The index among the answers of the items that are shown.
    pub fn current_items(&self) -> (r: Option<usize>)
        ensures
            match r {
                Some(i) => self.shown_index() == Some(i as int) && i < self.input_items@.len(),
                None => self.shown_index() is None,
            },
    {
        match self.find_answer(&self.input) {
            Some(i) if self.input_items[i].1.len() > 0 => Some(i),
            _ => {
                let empty: Vec<u8> = Vec::new();
                self.find_answer(&empty)
            },
        }
    }

    /// The number of items that are shown.
    pub fn len(&self) -> (r: usize)
        ensures
            r == self.shown_len(),
    {
        match self.current_items() {
            Some(i) => self.input_items[i].1.len(),
            None => 0,
        }
    }

    /// The chosen item.
    pub fn current_item(&self) -> (r: Option<&CompletionItem>)
        ensures
            match r {
                Some(item) => self.shown_index() matches Some(i) && self.index
                    < self.input_items@[i].1@.len() && *item == self.input_items@[i].1@[self.index as int],
                None => self.index >= self.shown_len(),
            },
    {
        match self.current_items() {
            Some(i) => {
                if self.index < self.input_items[i].1.len() {
                    Some(&self.input_items[i].1[self.index])
                } else {
                    None
                }
            },
            None => None,
        }
    }

    /// Ends the session and forgets its answers.
    pub fn cancel(&mut self)
        ensures
            final(self).status == CompletionStatus::Inactive,
            old(self).status == CompletionStatus::Inactive ==> *final(self) == *old(self),
            old(self).status != CompletionStatus::Inactive ==> final(self).input@.len() == 0
                && final(self).input_items@.len() == 0 && final(self).index == 0,
            final(self).id == old(self).id,
            final(self).request_id == old(self).request_id,
            final(self).offset == old(self).offset,
            final(self).buffer_id == old(self).buffer_id,
            final(self).page_size == old(self).page_size,
    {
        if self.status == CompletionStatus::Inactive {
            return ;
        }
        self.status = CompletionStatus::Inactive;
        self.input = Vec::new();
        self.input_items = Vec::new();
        self.index = 0;
    }

    /// Takes over what has been typed.
    pub fn update_input(&mut self, input: Vec<u8>)
        ensures
            old(self).status == CompletionStatus::Inactive ==> *final(self) == *old(self),
            old(self).status != CompletionStatus::Inactive ==> *final(self) == (CompletionData {
                input,
                index: 0,
                ..*old(self)
            }),
    {
        if self.status == CompletionStatus::Inactive {
            return ;
        }
        self.input = input;
        self.index = 0;
    }

    /// Takes an answer of the server. An answer to a request of another
    /// session, or for a session that has ended, is thrown away.
    pub fn receive(&mut self, request_id: usize, input: Vec<u8>, items: Vec<CompletionItem>) -> (taken:
        bool)
        ensures
            taken == (old(self).status != CompletionStatus::Inactive && old(self).request_id
                == request_id),
            !taken ==> *final(self) == *old(self),
            taken ==> {
                &&& final(self).status == CompletionStatus::Active
                &&& is_cached(cached_inputs(final(self).input_items@), input@)
                &&& forall|other: Seq<u8>|
                    other != input@ ==> is_cached(
                        cached_inputs(final(self).input_items@),
                        other,
                    ) == is_cached(cached_inputs(old(self).input_items@), other)
                &&& answer_index(cached_inputs(final(self).input_items@), input@, 0) matches Some(i)
                    && final(self).input_items@[i].1 == items
                &&& final(self).id == old(self).id
                &&& final(self).request_id == old(self).request_id
                &&& final(self).offset == old(self).offset
                &&& final(self).buffer_id == old(self).buffer_id
                &&& final(self).input == old(self).input
                &&& final(self).index == old(self).index
                &&& final(self).page_size == old(self).page_size
            },
    {
        if self.status == CompletionStatus::Inactive || self.request_id != request_id {
            return false;
        }
        let ghost before = cached_inputs(self.input_items@);
        match self.find_answer(&input) {
            Some(i) => {
                proof {
                    lemma_answer_index(before, input@, 0);
                }
                self.input_items[i] = (input, items);
                proof {
                    let after = cached_inputs(self.input_items@);
                    assert(after =~= before);
                }
            },
            None => {
                self.input_items.push((input, items));
                proof {
                    let after = cached_inputs(self.input_items@);
                    let n = before.len() as int;
                    assert(after =~= before.push(input@));
                    assert(after[n] == input@);
                    lemma_answer_index(before, input@, 0);
                    lemma_answer_index(after, input@, 0);
                    assert(answer_index(after, input@, 0) is Some);
                    let k = answer_index(after, input@, 0)->0;
                    if k < n {
                        assert(after[k] == before[k]);
                    }
                    assert(k == n);
                    assert forall|other: Seq<u8>| other != input@ implies is_cached(after, other)
                        == is_cached(before, other) by {
                        lemma_answer_index(before, other, 0);
                        lemma_answer_index(after, other, 0);
                        if is_cached(before, other) {
                            let j = answer_index(before, other, 0)->0;
                            assert(after[j] == other);
                        }
                        if is_cached(after, other) {
                            let j = answer_index(after, other, 0)->0;
                            assert(j < n);
                            assert(before[j] == other);
                        }
                    }
                }
            },
        }
        self.status = CompletionStatus::Active;
        true
    }

    /// A keystroke at a word that starts at `start_offset`: the session goes
    /// on if it is a session for that word, else a new one starts. Returns
    /// the requests to send.
    pub fn keystroke(
        &mut self,
        buffer_id: u64,
        start_offset: usize,
        input: Vec<u8>,
        start_pos: Option<Position>,
        pos: Option<Position>,
    ) -> (r: Vec<CompletionRequest>)
        ensures
            requests_view(r@) == old(self).keystroke_requests(
                buffer_id,
                start_offset,
                input@,
                start_pos,
                pos,
            ),
            final(self).id == old(self).id,
            final(self).page_size == old(self).page_size,
            final(self).input@ == input@,
            final(self).buffer_id == buffer_id,
            final(self).offset == start_offset,
            final(self).index == if old(self).reused_by(buffer_id, start_offset) {
                0
            } else {
                old(self).index
            },
            old(self).reused_by(buffer_id, start_offset) ==> final(self).status == old(self).status
                && final(self).request_id == old(self).request_id && final(self).input_items
                == old(self).input_items,
            !old(self).reused_by(buffer_id, start_offset) ==> final(self).status
                == CompletionStatus::Started && final(self).request_id == old(self).next_request_id()
                && final(self).input_items@.len() == 0,
    {
        let mut out: Vec<CompletionRequest> = Vec::new();
        let empty: Vec<u8> = Vec::new();
        let reuse = self.status != CompletionStatus::Inactive && self.offset == start_offset
            && self.buffer_id == buffer_id;
        if reuse {
            let ask_empty = !self.contains_key(&empty);
            let ask_input = input.len() > 0 && !self.contains_key(&input);
            self.update_input(input.clone());
            if ask_empty {
                if let Some(p) = start_pos {
                    out.push(
                        CompletionRequest {
                            request_id: self.request_id,
                            buffer_id,
                            input: empty,
                            position: p,
                            completion_id: self.id,
                        },
                    );
                }
            }
            if ask_input {
                if let Some(p) = pos {
                    out.push(
                        CompletionRequest {
                            request_id: self.request_id,
                            buffer_id,
                            input,
                            position: p,
                            completion_id: self.id,
                        },
                    );
                }
            }
        } else {
            self.buffer_id = buffer_id;
            self.offset = start_offset;
            self.input = input.clone();
            self.status = CompletionStatus::Started;
            self.input_items = Vec::new();
            self.request_id = if self.request_id < usize::MAX {
                self.request_id + 1
            } else {
                0
            };
            if let Some(p) = start_pos {
                out.push(
                    CompletionRequest {
                        request_id: self.request_id,
                        buffer_id,
                        input: empty,
                        position: p,
                        completion_id: self.id,
                    },
                );
            }
            if input.len() > 0 {
                if let Some(p) = pos {
                    out.push(
                        CompletionRequest {
                            request_id: self.request_id,
                            buffer_id,
                            input,
                            position: p,
                            completion_id: self.id,
                        },
                    );
                }
            }
        }
        assert(requests_view(out@) =~= old(self).keystroke_requests(
            buffer_id,
            start_offset,
            input@,
            start_pos,
            pos,
        ));
        out
    }

    /// Chooses the next item; behind the last comes the first.
    pub fn next(&mut self)
        ensures
            *final(self) == (CompletionData {
                index: step_index(old(self).index, old(self).shown_len(), 1, true, true),
                ..*old(self)
            }),
    {
        let len = self.len();
        self.index = update_index(self.index, len, 1, true, true);
    }

    /// Chooses the item before; in front of the first comes the last.
    pub fn previous(&mut self)
        ensures
            *final(self) == (CompletionData {
                index: step_index(old(self).index, old(self).shown_len(), 1, false, true),
                ..*old(self)
            }),
    {
        let len = self.len();
        self.index = update_index(self.index, len, 1, false, true);
    }

    /// Chooses the item one page further on, or the last.
    pub fn next_page(&mut self)
        ensures
            *final(self) == (CompletionData {
                index: step_index(
                    old(self).index,
                    old(self).shown_len(),
                    page_step(old(self).page_size),
                    true,
                    false,
                ),
                ..*old(self)
            }),
    {
        let len = self.len();
        self.index = update_index(self.index, len, self.page_size.saturating_sub(1), true, false);
    }

    /// Chooses the item one page back, or the first.
    pub fn previous_page(&mut self)
        ensures
            *final(self) == (CompletionData {
                index: step_index(
                    old(self).index,
                    old(self).shown_len(),
                    page_step(old(self).page_size),
                    false,
                    false,
                ),
                ..*old(self)
            }),
    {
        let len = self.len();
        self.index = update_index(self.index, len, self.page_size.saturating_sub(1), false, false);
    }
}

/// The number of items that a step of one page passes.
pub open spec fn page_step(page_size: usize) -> usize {
    if page_size > 0 {
        (page_size - 1) as usize
    } else {
        0
    }
}

/// The index `count` items further on (`down`) or back in a list of `len`
/// items. With `wrapping` the list is a ring, else the step ends at the last
/// or first item. In a list without items the index is 0.
pub open spec fn step_index(index: usize, len: nat, count: usize, down: bool, wrapping: bool) -> usize {
    if len == 0 {
        0
    } else {
        let last = (len - 1) as int;
        let at = if index <= last {
            index as int
        } else {
            last
        };
        if wrapping {
            let by = count as int % (len as int);
            if down {
                ((at + by) % (len as int)) as usize
            } else {
                ((at + len - by) % (len as int)) as usize
            }
        } else if down {
            if at + count < last {
                (at + count) as usize
            } else {
                last as usize
            }
        } else {
            if at > count {
                (at - count) as usize
            } else {
                0
            }
        }
    }
}

/// The index `count` items further on or back in a list of `len` items.
pub fn update_index(index: usize, len: usize, count: usize, down: bool, wrapping: bool) -> (r: usize)
    ensures
        r == step_index(index, len as nat, count, down, wrapping),
        len > 0 ==> r < len,
{
    if len == 0 {
        return 0;
    }
    let last = len - 1;
    let at = if index <= last {
        index
    } else {
        last
    };
    if wrapping {
        let by = count % len;
        if down {
            if at >= len - by {
                assert((at + by) % (len as int) == at + by - len) by (nonlinear_arith)
                    requires
                        len <= at + by < 2 * len,
                        len > 0,
                ;
                at - (len - by)
            } else {
                assert((at + by) % (len as int) == at + by) by (nonlinear_arith)
                    requires
                        0 <= at + by < len,
                ;
                at + by
            }
        } else {
            if at >= by {
                assert((at + len - by) % (len as int) == at - by) by (nonlinear_arith)
                    requires
                        len <= at + len - by < 2 * len,
                        len > 0,
                ;
                at - by
            } else {
                assert((at + len - by) % (len as int) == at + len - by) by (nonlinear_arith)
                    requires
                        0 <= at + len - by < len,
                ;
                at + (len - by)
            }
        }
    } else if down {
        if count < last && at < last - count {
            at + count
        } else {
            last
        }
    } else {
        if at > count {
            at - count
        } else {
            0
        }
    }
}

/// Whether two lists of bytes are alike.
pub fn bytes_eq(a: &Vec<u8>, b: &Vec<u8>) -> (r: bool)
    ensures
        r == (a@ == b@),
{
    if a.len() != b.len() {
        return false;
    }
    let mut i: usize = 0;
    while i < a.len()
        invariant
            i <= a@.len(),
            a@.len() == b@.len(),
            a@.subrange(0, i as int) == b@.subrange(0, i as int),
        decreases a@.len() - i,
    {
        if a[i] != b[i] {
            return false;
        }
        assert(a@.subrange(0, i + 1) =~= a@.subrange(0, i as int).push(a@[i as int]));
        assert(b@.subrange(0, i + 1) =~= b@.subrange(0, i as int).push(b@[i as int]));
        i += 1;
    }
    assert(a@.subrange(0, i as int) =~= a@);
    assert(b@.subrange(0, i as int) =~= b@);
    true
}

/// What `answer_index` finds is the first answer for the input.
pub proof fn lemma_answer_index(inputs: Seq<Seq<u8>>, input: Seq<u8>, from: int)
    requires
        0 <= from,
    ensures
        answer_index(inputs, input, from) matches Some(i) ==> from <= i < inputs.len() && inputs[i]
            == input && forall|k: int| from <= k < i ==> inputs[k] != input,
        answer_index(inputs, input, from) is None ==> forall|k: int|
            from <= k < inputs.len() ==> inputs[k] != input,
    decreases inputs.len() - from,
{
    if from < inputs.len() && inputs[from] != input {
        lemma_answer_index(inputs, input, from + 1);
    }
}

/// A session that goes on asks for no input that it has an answer for.
pub proof fn lemma_requests_not_cached(
    c: CompletionData,
    buffer_id: u64,
    start_offset: usize,
    input: Seq<u8>,
    start_pos: Option<Position>,
    pos: Option<Position>,
    i: int,
)
    requires
        c.reused_by(buffer_id, start_offset),
        0 <= i < c.keystroke_requests(buffer_id, start_offset, input, start_pos, pos).len(),
    ensures
        !is_cached(
            cached_inputs(c.input_items@),
            c.keystroke_requests(buffer_id, start_offset, input, start_pos, pos)[i].input,
        ),
{
}

/// The requests of one keystroke ask for different inputs: no keystroke
/// sends two requests for one buffer, session and input.
pub proof fn lemma_requests_distinct(
    c: CompletionData,
    buffer_id: u64,
    start_offset: usize,
    input: Seq<u8>,
    start_pos: Option<Position>,
    pos: Option<Position>,
)
    ensures
        ({
            let r = c.keystroke_requests(buffer_id, start_offset, input, start_pos, pos);
            forall|i: int, j: int| 0 <= i < j < r.len() ==> r[i].input != r[j].input
        }),
{
    let r = c.keystroke_requests(buffer_id, start_offset, input, start_pos, pos);
    assert forall|i: int, j: int| 0 <= i < j < r.len() implies r[i].input != r[j].input by {
        assert(r[0].input =~= Seq::<u8>::empty());
        assert(r[1].input == input);
    }
}

/// Every request of a keystroke carries the number of the session as it
/// is after the keystroke, so that its answer is taken and no other.
pub proof fn lemma_requests_carry_session(
    c: CompletionData,
    buffer_id: u64,
    start_offset: usize,
    input: Seq<u8>,
    start_pos: Option<Position>,
    pos: Option<Position>,
    i: int,
)
    requires
        0 <= i < c.keystroke_requests(buffer_id, start_offset, input, start_pos, pos).len(),
    ensures
        c.keystroke_requests(buffer_id, start_offset, input, start_pos, pos)[i].request_id == if c.reused_by(
            buffer_id,
            start_offset,
        ) {
            c.request_id
        } else {
            c.next_request_id()
        },
        c.keystroke_requests(buffer_id, start_offset, input, start_pos, pos)[i].buffer_id
            == buffer_id,
{
}

} // verus!
