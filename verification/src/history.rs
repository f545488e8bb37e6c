//! The list of places that a view has jumped from, with the index of the
//! place it is at, and the steps back and forth along it.

use vstd::prelude::*;
use crate::position::{EditorLocation, ScrollOffset};

verus! {

/// The places of a view's jumps, oldest first, and where in the list the
/// view is. An index at or behind the end of the list says that the view has
/// moved on from the last place.
#[derive(Debug)]
pub struct JumpHistory {
    pub locations: Vec<EditorLocation<usize>>,
    pub current_location: usize,
}

/// A jump history as a value of specifications.
pub struct JumpState {
    pub locations: Seq<EditorLocation<usize>>,
    pub current: int,
}

impl View for JumpHistory {
    type V = JumpState;

    open spec fn view(&self) -> JumpState {
        JumpState { locations: self.locations@, current: self.current_location as int }
    }
}

impl JumpState {
    /// The list with `here` as its newest place, the view standing behind it.
    pub open spec fn saved(self, here: EditorLocation<usize>) -> JumpState {
        JumpState { locations: self.locations.push(here), current: self.locations.len() as int + 1 }
    }

    /// The index lies in the list or just behind it.
    pub open spec fn wf(self) -> bool {
        0 <= self.current <= self.locations.len()
    }

    /// Whether a step back is possible from a place that is known (`known`)
    /// or not: there is an earlier place, and a view that has moved on from
    /// the last place can either put its place on the list or skip one.
    pub open spec fn can_go_back(self, known: bool) -> bool {
        self.current >= 1 && (self.current < self.locations.len() || known || self.current >= 2)
    }

    /// The state after a step back from the place `here`. A view that has
    /// moved on from the last place first puts `here`, if it is given, on
    /// the list, so that a step forward can return to it.
    pub open spec fn backward(self, here: Option<EditorLocation<usize>>) -> JumpState {
        if !self.can_go_back(here is Some) {
            self
        } else if self.current >= self.locations.len() {
            match here {
                Some(h) => JumpState {
                    locations: self.locations.push(h),
                    current: self.locations.len() as int - 1,
                },
                None => JumpState { locations: self.locations, current: self.current - 2 },
            }
        } else {
            JumpState { locations: self.locations, current: self.current - 1 }
        }
    }

    /// Whether a step forward is possible.
    pub open spec fn can_go_forward(self) -> bool {
        self.locations.len() > 0 && self.current < self.locations.len() - 1
    }

    /// The state after a step forward.
    pub open spec fn forward(self) -> JumpState {
        if self.can_go_forward() {
            JumpState { locations: self.locations, current: self.current + 1 }
        } else {
            self
        }
    }

    /// The place at which the view stands, where the index names one.
    pub open spec fn place(self) -> Option<EditorLocation<usize>> {
        if 0 <= self.current < self.locations.len() {
            Some(self.locations[self.current])
        } else {
            None
        }
    }

    /// The state after `n` steps back, the first of them from the place `here`.
    pub open spec fn backward_n(self, here: EditorLocation<usize>, n: nat) -> JumpState
        decreases n,
    {
        if n == 0 {
            self
        } else {
            self.backward(Some(here)).backward_n(here, (n - 1) as nat)
        }
    }

    /// The state after `n` steps forward.
    pub open spec fn forward_n(self, n: nat) -> JumpState
        decreases n,
    {
        if n == 0 {
            self
        } else {
            self.forward().forward_n((n - 1) as nat)
        }
    }
}

impl JumpHistory {
    pub fn new() -> (h: JumpHistory)
        ensures
            h@.locations.len() == 0,
            h@.current == 0,
            h@.wf(),
    {
        JumpHistory { locations: Vec::new(), current_location: 0 }
    }

    /// Puts `here` on the list as its newest place; the view then stands
    /// behind it.
    pub fn save_jump_location(&mut self, here: EditorLocation<usize>)
        requires
            old(self)@.locations.len() < usize::MAX,
        ensures
            final(self)@ == old(self)@.saved(here),
            final(self)@.wf(),
    {
        self.locations.push(here);
        self.current_location = self.locations.len();
    }

    /// A step back: the place to go to, if there is one. `here` is the place
    /// at which the view is, where it is in a file.
    pub fn jump_location_backward(&mut self, here: Option<EditorLocation<usize>>) -> (r: Option<
        EditorLocation<usize>,
    >)
        requires
            old(self)@.wf(),
            old(self)@.locations.len() < usize::MAX,
        ensures
            final(self)@ == old(self)@.backward(here),
            final(self)@.wf(),
            final(self)@.locations.len() <= old(self)@.locations.len() + 1,
            here is None ==> final(self)@.locations.len() == old(self)@.locations.len(),
            r == if old(self)@.can_go_back(here is Some) {
                final(self)@.place()
            } else {
                None
            },
            r is Some <==> old(self)@.can_go_back(here is Some),
    {
        if self.current_location < 1 {
            return None;
        }
        if self.current_location >= self.locations.len() {
            match here {
                Some(h) => {
                    self.locations.push(h);
                    self.current_location = self.locations.len();
                },
                None => {
                    if self.current_location < 2 {
                        return None;
                    }
                },
            }
            self.current_location -= 1;
        }
        self.current_location -= 1;
        Some(self.locations[self.current_location].duplicate())
    }

    /// A step forward: the place to go to, if there is one.
    pub fn jump_location_forward(&mut self) -> (r: Option<EditorLocation<usize>>)
        ensures
            final(self)@ == old(self)@.forward(),
            old(self)@.wf() ==> final(self)@.wf(),
            r == if old(self)@.can_go_forward() {
                final(self)@.place()
            } else {
                None
            },
            r is Some <==> old(self)@.can_go_forward(),
    {
        if self.locations.len() == 0 {
            return None;
        }
        if self.current_location >= self.locations.len() - 1 {
            return None;
        }
        self.current_location += 1;
        Some(self.locations[self.current_location].duplicate())
    }
}

/// After `k` steps back from behind the end of a list of `len` places the
/// view stands `k` places before the place it came from, which is now the
/// last of the list.
pub proof fn lemma_backward_n(s: JumpState, here: EditorLocation<usize>, k: nat)
    requires
        s.current == s.locations.len(),
        1 <= k <= s.locations.len(),
    ensures
        s.backward_n(here, k) == (JumpState {
            locations: s.locations.push(here),
            current: s.locations.len() - k,
        }),
{
    let first = s.backward(Some(here));
    lemma_backward_inside(first, here, (k - 1) as nat);
}

proof fn lemma_backward_inside(s: JumpState, here: EditorLocation<usize>, k: nat)
    requires
        0 <= s.current < s.locations.len(),
        k <= s.current,
    ensures
        s.backward_n(here, k) == (JumpState { locations: s.locations, current: s.current - k }),
    decreases k,
{
    if k > 0 {
        lemma_backward_inside(s.backward(Some(here)), here, (k - 1) as nat);
    }
}

/// `k` steps forward inside the list move the view `k` places on.
pub proof fn lemma_forward_n(s: JumpState, k: nat)
    requires
        0 <= s.current,
        s.current + k < s.locations.len(),
    ensures
        s.forward_n(k) == (JumpState { locations: s.locations, current: s.current + k }),
    decreases k,
{
    if k > 0 {
        lemma_forward_n(s.forward(), (k - 1) as nat);
    }
}

/// A view that has moved on from the last place of its list, and then takes
/// `n` steps back and `n` steps forward, is at the place it started from.
pub proof fn lemma_back_and_forth(s: JumpState, here: EditorLocation<usize>, n: nat)
    requires
        s.current == s.locations.len(),
        1 <= n <= s.locations.len(),
    ensures
        s.backward_n(here, n).forward_n(n).place() == Some(here),
        s.backward_n(here, n).forward_n(n).locations == s.locations.push(here),
{
    lemma_backward_n(s, here, n);
    lemma_forward_n(s.backward_n(here, n), n);
}

/// A view that stands at a place of its list, and then takes `n` steps back
/// and `n` steps forward, is at that place again.
pub proof fn lemma_back_and_forth_inside(s: JumpState, here: EditorLocation<usize>, n: nat)
    requires
        0 <= s.current < s.locations.len(),
        n <= s.current,
    ensures
        s.backward_n(here, n).forward_n(n) == s,
{
    lemma_backward_inside(s, here, n);
    lemma_forward_n(s.backward_n(here, n), n);
}

} // verus!
