//! The change from one revision of a text to the next, and how an offset into
//! the old text is carried over into the new one.

use vstd::prelude::*;
use crate::text::utf8_len;

verus! {

/// One piece of the new text: a range copied from the old text, or text that
/// was not there before.
#[derive(Debug)]
pub enum DeltaElement {
    /// The bytes of the old text from the first offset up to the second.
    Copy(usize, usize),
    /// Inserted text.
    Insert(String),
}

/// A piece of the new text as a value of specifications.
pub enum ElView {
    Copy(usize, usize),
    Insert(Seq<char>),
}

impl View for DeltaElement {
    type V = ElView;

    open spec fn view(&self) -> ElView {
        match *self {
            DeltaElement::Copy(beg, end) => ElView::Copy(beg, end),
            DeltaElement::Insert(text) => ElView::Insert(text@),
        }
    }
}

impl Clone for DeltaElement {
    fn clone(&self) -> (r: DeltaElement)
        ensures
            r == *self,
    {
        match self {
            DeltaElement::Copy(beg, end) => DeltaElement::Copy(*beg, *end),
            DeltaElement::Insert(text) => DeltaElement::Insert(text.clone()),
        }
    }
}

/// The new text as a list of pieces. What no piece copies was deleted.
#[derive(Debug)]
pub struct Delta {
    pub els: Vec<DeltaElement>,
    /// The length in bytes of the old text.
    pub base_len: usize,
}

/// A delta as a value of specifications.
pub struct DeltaView {
    pub els: Seq<ElView>,
    pub base_len: usize,
}

/// The views of a list of pieces.
pub open spec fn els_view(els: Seq<DeltaElement>) -> Seq<ElView> {
    Seq::new(els.len(), |i: int| els[i]@)
}

impl View for Delta {
    type V = DeltaView;

    open spec fn view(&self) -> DeltaView {
        DeltaView { els: els_view(self.els@), base_len: self.base_len }
    }
}

impl Clone for Delta {
    fn clone(&self) -> (r: Delta)
        ensures
            r@ == self@,
            r.els@ == self.els@,
    {
        let mut els: Vec<DeltaElement> = Vec::new();
        let mut i: usize = 0;
        while i < self.els.len()
            invariant
                i <= self.els@.len(),
                els@ == self.els@.subrange(0, i as int),
            decreases self.els@.len() - i,
        {
            els.push(self.els[i].clone());
            assert(els@ =~= self.els@.subrange(0, i + 1));
            i += 1;
        }
        assert(self.els@.subrange(0, i as int) =~= self.els@);
        Delta { els, base_len: self.base_len }
    }
}

/// Which side of text inserted at an end of a region the end is carried to.
#[derive(Clone, Copy, Debug, PartialEq, Eq, Structural)]
pub enum InsertDrift {
    /// Text inserted at an end of a region goes into the region.
    Inside,
    /// Text inserted at an end of a region stays out of it.
    Outside,
    /// Both ends go to the side that the caller names.
    Default,
}

impl ElView {
    /// The number of bytes that the piece adds to the new text.
    pub open spec fn len(self) -> int {
        match self {
            ElView::Copy(beg, end) => end - beg,
            ElView::Insert(text) => utf8_len(text) as int,
        }
    }
}

/// The length in bytes of the text that the pieces make up.
pub open spec fn total_len(els: Seq<ElView>) -> int
    decreases els.len(),
{
    if els.len() == 0 {
        0
    } else {
        els[0].len() + total_len(els.skip(1))
    }
}

/// Each copied range lies in the old text, no range runs backwards, and the
/// ranges follow each other from `from` on without overlap.
pub open spec fn ordered_from(els: Seq<ElView>, from: int, base_len: int) -> bool
    decreases els.len(),
{
    if els.len() == 0 {
        true
    } else {
        match els[0] {
            ElView::Copy(beg, end) => from <= beg <= end <= base_len && ordered_from(
                els.skip(1),
                end as int,
                base_len,
            ),
            ElView::Insert(_) => ordered_from(els.skip(1), from, base_len),
        }
    }
}

/// Where the offset `ix` of the old text lies in the text that `els` make up,
/// counted from the start of the first piece. An offset inside a copied range
/// keeps its distance to the start of the range. An offset in deleted text
/// goes to the place of the deletion. At a place where text was inserted,
/// `after` says whether the offset goes behind the inserted text.
pub open spec fn transform_els(els: Seq<ElView>, ix: int, after: bool) -> int
    decreases els.len(),
{
    if els.len() == 0 {
        0
    } else {
        match els[0] {
            ElView::Copy(beg, end) => if ix <= beg {
                0
            } else if ix < end || (ix == end && !after) {
                ix - beg
            } else {
                (end - beg) + transform_els(els.skip(1), ix, after)
            },
            ElView::Insert(_) => els[0].len() + transform_els(els.skip(1), ix, after),
        }
    }
}

impl DeltaView {
    /// The copied ranges are in order and in the old text, and the lengths of
    /// both texts together fit the machine's word.
    pub open spec fn wf(self) -> bool {
        &&& ordered_from(self.els, 0, self.base_len as int)
        &&& total_len(self.els) + self.base_len <= usize::MAX
    }

    /// The length in bytes of the new text.
    pub open spec fn new_len(self) -> int {
        total_len(self.els)
    }

    /// Where the offset `ix` of the old text lies in the new text.
    pub open spec fn transform(self, ix: int, after: bool) -> int {
        if ix == 0 && !after {
            0
        } else {
            transform_els(self.els, ix, after)
        }
    }
}

impl Delta {
    /// The delta is well formed.
    pub open spec fn wf(&self) -> bool {
        self@.wf()
    }

    /// The length in bytes of the new text.
    pub open spec fn new_len(&self) -> int {
        self@.new_len()
    }

    /// Where the offset `ix` of the old text lies in the new text.
    pub open spec fn transform(&self, ix: int, after: bool) -> int {
        self@.transform(ix, after)
    }

    /// The delta that changes nothing in a text of `base_len` bytes.
    pub fn identity(base_len: usize) -> (d: Delta)
        ensures
            d@.els == seq![ElView::Copy(0, base_len)],
            d@.base_len == base_len,
            d.wf() <==> 2 * base_len <= usize::MAX,
    {
        let mut els: Vec<DeltaElement> = Vec::new();
        els.push(DeltaElement::Copy(0, base_len));
        let d = Delta { els, base_len };
        proof {
            assert(d@.els =~= seq![ElView::Copy(0, base_len)]);
            assert(d@.els.skip(1) =~= Seq::<ElView>::empty());
            assert(total_len(d@.els) == (base_len - 0) + total_len(d@.els.skip(1)));
            assert(ordered_from(d@.els.skip(1), base_len as int, base_len as int));
        }
        d
    }

    /// Whether the delta is well formed.
    pub fn is_valid(&self) -> (r: bool)
        ensures
            r == self.wf(),
    {
        let ghost els = self@.els;
        let n = self.els.len();
        let mut from: usize = 0;
        let mut total: usize = 0;
        let mut i: usize = 0;
        assert(els.skip(0) =~= els);
        while i < n
            invariant
                i <= n,
                n == self.els@.len(),
                els == self@.els,
                from <= self.base_len,
                ordered_from(els, 0, self.base_len as int) == ordered_from(
                    els.skip(i as int),
                    from as int,
                    self.base_len as int,
                ),
                total_len(els) == total + total_len(els.skip(i as int)),
                total + self.base_len <= usize::MAX,
            decreases n - i,
        {
            let ghost rest = els.skip(i as int);
            assert(rest.skip(1) =~= els.skip(i + 1));
            assert(rest[0] == self.els@[i as int]@);
            assert(total_len(rest) == rest[0].len() + total_len(rest.skip(1)));
            let len: usize = match &self.els[i] {
                DeltaElement::Copy(beg, end) => {
                    if !(from <= *beg && *beg <= *end && *end <= self.base_len) {
                        return false;
                    }
                    from = *end;
                    *end - *beg
                },
                DeltaElement::Insert(text) => text.as_str().len(),
            };
            assert(len == rest[0].len());
            if len > usize::MAX - self.base_len - total {
                proof {
                    if ordered_from(els, 0, self.base_len as int) {
                        lemma_total_len_nonnegative(
                            els.skip(i + 1),
                            from as int,
                            self.base_len as int,
                        );
                    }
                }
                return false;
            }
            total = total + len;
            i += 1;
        }
        true
    }

    /// The length in bytes of the new text.
    pub fn new_document_len(&self) -> (r: usize)
        requires
            self.wf(),
        ensures
            r == self.new_len(),
    {
        let ghost els = self@.els;
        let n = self.els.len();
        let mut total: usize = 0;
        let mut from: usize = 0;
        let mut i: usize = 0;
        assert(els.skip(0) =~= els);
        while i < n
            invariant
                i <= n,
                n == self.els@.len(),
                els == self@.els,
                ordered_from(els.skip(i as int), from as int, self.base_len as int),
                total_len(els) == total + total_len(els.skip(i as int)),
                total_len(els) <= usize::MAX,
            decreases n - i,
        {
            let ghost rest = els.skip(i as int);
            assert(rest.skip(1) =~= els.skip(i + 1));
            assert(rest[0] == self.els@[i as int]@);
            assert(total_len(rest) == rest[0].len() + total_len(rest.skip(1)));
            let len: usize = match &self.els[i] {
                DeltaElement::Copy(beg, end) => {
                    from = *end;
                    *end - *beg
                },
                DeltaElement::Insert(text) => text.as_str().len(),
            };
            proof {
                lemma_total_len_nonnegative(els.skip(i + 1), from as int, self.base_len as int);
            }
            total = total + len;
            i += 1;
        }
        total
    }

    /// Carries the offset `ix` of the old text over into the new text.
    pub fn transform_offset(&self, ix: usize, after: bool) -> (r: usize)
        requires
            self.wf(),
        ensures
            r == self@.transform(ix as int, after),
            r <= self@.new_len(),
    {
        proof {
            lemma_transform_bounds(self@.els, 0, self.base_len as int, ix as int, after);
        }
        transformer_transform(self, ix, after)
    }
}

/// `xi_rope::Transformer::transform` on the delta that `delta` describes, each
/// piece turned into the rope library's piece of the same kind. It scans the
/// pieces from the front and adds up their lengths: it returns the sum when it
/// meets a copied range that starts at or behind `ix`, the sum and the distance
/// of `ix` from the start of the range when `ix` lies in the range, and the
/// whole sum when no range holds `ix`. For `ix` 0 and `after` false it returns 0.
#[verifier::external_body]
fn transformer_transform(delta: &Delta, ix: usize, after: bool) -> (r: usize)
    requires
        delta.wf(),
    ensures
        r == delta@.transform(ix as int, after),
{
    let els = delta.els.iter().map(|el| match el {
        DeltaElement::Copy(beg, end) => xi_rope::DeltaElement::Copy(*beg, *end),
        DeltaElement::Insert(text) => xi_rope::DeltaElement::Insert(xi_rope::Rope::from(text)),
    }).collect();
    let rope_delta: xi_rope::RopeDelta = xi_rope::Delta { els, base_len: delta.base_len };
    xi_rope::Transformer::new(&rope_delta).transform(ix, after)
}

/// No piece of an ordered list has a negative length.
pub proof fn lemma_total_len_nonnegative(els: Seq<ElView>, from: int, base_len: int)
    requires
        ordered_from(els, from, base_len),
    ensures
        0 <= total_len(els),
    decreases els.len(),
{
    if els.len() > 0 {
        match els[0] {
            ElView::Copy(beg, end) => lemma_total_len_nonnegative(els.skip(1), end as int, base_len),
            ElView::Insert(_) => lemma_total_len_nonnegative(els.skip(1), from, base_len),
        }
    }
}

/// A carried offset lies in the new text.
pub proof fn lemma_transform_bounds(els: Seq<ElView>, from: int, base_len: int, ix: int, after: bool)
    requires
        ordered_from(els, from, base_len),
    ensures
        0 <= transform_els(els, ix, after) <= total_len(els),
    decreases els.len(),
{
    if els.len() > 0 {
        match els[0] {
            ElView::Copy(beg, end) => {
                lemma_transform_bounds(els.skip(1), end as int, base_len, ix, after);
            },
            ElView::Insert(_) => {
                lemma_transform_bounds(els.skip(1), from, base_len, ix, after);
            },
        }
    }
}

/// Carrying offsets over keeps their order: of two offsets the later one is
/// carried at least as far, and of the two ways to carry one offset the one
/// that goes behind inserted text goes at least as far as the other.
pub proof fn lemma_transform_monotonic(
    els: Seq<ElView>,
    from: int,
    base_len: int,
    ix: int,
    a: bool,
    iy: int,
    b: bool,
)
    requires
        ordered_from(els, from, base_len),
        ix < iy || (ix == iy && (a ==> b)),
    ensures
        transform_els(els, ix, a) <= transform_els(els, iy, b),
    decreases els.len(),
{
    if els.len() > 0 {
        match els[0] {
            ElView::Copy(beg, end) => {
                lemma_transform_bounds(els.skip(1), end as int, base_len, iy, b);
                lemma_transform_monotonic(els.skip(1), end as int, base_len, ix, a, iy, b);
            },
            ElView::Insert(_) => {
                lemma_transform_monotonic(els.skip(1), from, base_len, ix, a, iy, b);
            },
        }
    }
}

/// The same two facts of a whole delta: carried offsets keep their order and
/// lie in the new text.
pub proof fn lemma_delta_transform_ordered(d: DeltaView, ix: int, a: bool, iy: int, b: bool)
    requires
        d.wf(),
        0 <= ix,
        ix < iy || (ix == iy && (a ==> b)),
    ensures
        0 <= d.transform(ix, a) <= d.transform(iy, b) <= d.new_len(),
{
    lemma_transform_bounds(d.els, 0, d.base_len as int, ix, a);
    lemma_transform_bounds(d.els, 0, d.base_len as int, iy, b);
    lemma_transform_monotonic(d.els, 0, d.base_len as int, ix, a, iy, b);
}

/// The delta that copies the whole text leaves every offset of it in place.
pub proof fn lemma_identity_transform(d: DeltaView, ix: int, after: bool)
    requires
        d.els == seq![ElView::Copy(0, d.base_len)],
        0 <= ix <= d.base_len,
    ensures
        d.transform(ix, after) == ix,
        d.new_len() == d.base_len,
{
    assert(d.els.skip(1) =~= Seq::<ElView>::empty());
    assert(transform_els(d.els.skip(1), ix, after) == 0);
    assert(total_len(d.els.skip(1)) == 0);
}

/// Text inserted at `at` moves every offset behind it on by its length,
/// and the offset `at` itself where it is to go behind inserted text.
pub proof fn lemma_insert_transform(d: DeltaView, at: usize, text: Seq<char>, ix: int, after: bool)
    requires
        0 < at < d.base_len,
        d.els == seq![ElView::Copy(0, at), ElView::Insert(text), ElView::Copy(at, d.base_len)],
        0 <= ix <= d.base_len,
    ensures
        d.transform(ix, after) == if ix < at || (ix == at && !after) {
            ix
        } else {
            ix + utf8_len(text)
        },
{
    let rest = d.els.skip(1);
    let last = rest.skip(1);
    assert(d.els[0] == ElView::Copy(0, at));
    assert(rest =~= seq![ElView::Insert(text), ElView::Copy(at, d.base_len)]);
    assert(last =~= seq![ElView::Copy(at, d.base_len)]);
    assert(last.skip(1) =~= Seq::<ElView>::empty());
    assert(transform_els(last.skip(1), ix, after) == 0);
    assert(transform_els(last, ix, after) == if ix <= at {
        0
    } else if ix < d.base_len || !after {
        ix - at
    } else {
        d.base_len - at
    });
    assert(transform_els(rest, ix, after) == utf8_len(text) + transform_els(last, ix, after));
}

/// The deletion of the text from `from` up to `to` moves every offset
/// behind it back by its length, and every offset in it to `from`.
pub proof fn lemma_delete_transform(d: DeltaView, from: usize, to: usize, ix: int, after: bool)
    requires
        0 < from < to < d.base_len,
        d.els == seq![ElView::Copy(0, from), ElView::Copy(to, d.base_len)],
        0 <= ix <= d.base_len,
    ensures
        d.transform(ix, after) == if ix <= from {
            ix
        } else if ix <= to {
            from as int
        } else {
            ix - (to - from)
        },
{
    let rest = d.els.skip(1);
    assert(d.els[0] == ElView::Copy(0, from));
    assert(rest =~= seq![ElView::Copy(to, d.base_len)]);
    assert(rest.skip(1) =~= Seq::<ElView>::empty());
    assert(transform_els(rest.skip(1), ix, after) == 0);
    assert(transform_els(rest, ix, after) == if ix <= to {
        0
    } else if ix < d.base_len || !after {
        ix - to
    } else {
        d.base_len - to
    });
}

} // verus!
