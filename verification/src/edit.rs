//! Edits of a buffer: several stretches of text replaced at once, the delta
//! that describes the change, and the lines that it touches.

use vstd::prelude::*;
use vstd::string::StringSliceAdditionalSpecFns;
use vstd::utf8::encode_utf8;
use crate::buffer::{Buffer, newlines};
use crate::delta::{Delta, DeltaElement, DeltaView, ElView, els_view, ordered_from, total_len};
use crate::selection::{SelRegion, Selection};
use crate::text::utf8_len;

verus! {

/// What kind of edit a change is; edits of one kind that follow each other
/// are undone together.
#[derive(Clone, Copy, Debug, PartialEq, Eq, Structural)]
pub enum EditType {
    Other,
    InsertChars,
    InsertNewline,
    Delete,
    Undo,
    Redo,
    Completion,
}

/// The lines that an edit touched: `inval_count` lines from `start_line` on
/// were replaced by `new_count` lines.
#[derive(Clone, Copy, Debug, PartialEq, Eq, Structural)]
pub struct InvalLines {
    pub start_line: usize,
    pub inval_count: usize,
    pub new_count: usize,
}

/// One stretch of the old text and the index of the edit whose text replaces it.
#[derive(Clone, Copy, Debug)]
pub struct Replacement {
    pub start: usize,
    pub end: usize,
    pub edit: usize,
}

/// Edits as values of specifications: for each edit the regions that it
/// replaces and the text that it puts in their place.
pub type EditsView = Seq<(Seq<SelRegion>, Seq<char>)>;

/// The views of a list of edits.
pub open spec fn edits_view(edits: Seq<(Selection, String)>) -> EditsView {
    Seq::new(edits.len(), |i: int| (edits[i].0@, edits[i].1@))
}

/// The stretches that the regions of one edit name.
pub open spec fn region_replacements(regions: Seq<SelRegion>, edit: int) -> Seq<Replacement> {
    Seq::new(
        regions.len(),
        |k: int| Replacement { start: regions[k].min(), end: regions[k].max(), edit: edit as usize },
    )
}

/// The stretches of the first `n` edits, in the order of the edits and of
/// their regions.
pub open spec fn replacements_upto(edits: EditsView, n: int) -> Seq<Replacement>
    decreases n,
{
    if n <= 0 || n > edits.len() {
        Seq::empty()
    } else {
        replacements_upto(edits, n - 1) + region_replacements(edits[n - 1].0, n - 1)
    }
}

/// `a` need not come behind `b`: it starts earlier, or at the same offset and
/// ends no later.
pub open spec fn not_behind(a: Replacement, b: Replacement) -> bool {
    a.start < b.start || (a.start == b.start && a.end <= b.end)
}

/// The index at which `x` goes into `sorted`: behind every stretch from
/// `from` on that need not come behind it.
pub open spec fn insert_place(sorted: Seq<Replacement>, x: Replacement, from: int) -> int
    decreases sorted.len() - from,
{
    if from < 0 || from >= sorted.len() {
        sorted.len() as int
    } else if !not_behind(sorted[from], x) {
        from
    } else {
        insert_place(sorted, x, from + 1)
    }
}

/// The first `n` of `items` sorted by start and end; stretches that are
/// alike keep their order.
pub open spec fn sorted_upto(items: Seq<Replacement>, n: int) -> Seq<Replacement>
    decreases n,
{
    if n <= 0 || n > items.len() {
        Seq::empty()
    } else {
        let sorted = sorted_upto(items, n - 1);
        sorted.insert(insert_place(sorted, items[n - 1], 0), items[n - 1])
    }
}

/// The stretches lie in a text of `len` bytes, follow each other without
/// overlap, and each names one of `edits` edits.
pub open spec fn replacements_ordered(items: Seq<Replacement>, len: int, edits: int) -> bool {
    forall|i: int|
        0 <= i < items.len() ==> {
            &&& (#[trigger] items[i]).start <= items[i].end <= len
            &&& items[i].edit < edits
            &&& i > 0 ==> items[i - 1].end <= items[i].start
        }
}

/// The offset up to which the first `n` stretches have dealt with the old text.
pub open spec fn done_upto(items: Seq<Replacement>, n: int) -> int {
    if n <= 0 || n > items.len() {
        0
    } else {
        items[n - 1].end as int
    }
}

/// The pieces of the new text that the first `n` stretches give: in front of
/// each stretch what the old text holds since the stretch before, then the
/// text that replaces the stretch, where it is not empty.
pub open spec fn els_upto(items: Seq<Replacement>, edits: EditsView, n: int) -> Seq<ElView>
    decreases n,
{
    if n <= 0 || n > items.len() {
        Seq::empty()
    } else {
        let prev = els_upto(items, edits, n - 1);
        let last = done_upto(items, n - 1);
        let item = items[n - 1];
        let copied = if item.start > last {
            prev.push(ElView::Copy(last as usize, item.start))
        } else {
            prev
        };
        if edits[item.edit as int].1.len() > 0 {
            copied.push(ElView::Insert(edits[item.edit as int].1))
        } else {
            copied
        }
    }
}

/// The pieces of the whole new text: those of all stretches, then what the
/// old text holds behind the last stretch.
pub open spec fn build_els(
    items: Seq<Replacement>,
    edits: EditsView,
    base_len: usize,
) -> Seq<ElView> {
    let els = els_upto(items, edits, items.len() as int);
    let last = done_upto(items, items.len() as int);
    if last < base_len {
        els.push(ElView::Copy(last as usize, base_len))
    } else {
        els
    }
}

/// The bytes that one piece adds to the new text.
pub open spec fn piece_bytes(text: Seq<u8>, el: ElView) -> Seq<u8> {
    match el {
        ElView::Copy(beg, end) => if 0 <= beg <= end <= text.len() {
            text.subrange(beg as int, end as int)
        } else {
            Seq::empty()
        },
        ElView::Insert(s) => encode_utf8(s),
    }
}

/// The text that the pieces make of the old text `text`.
pub open spec fn apply_els(text: Seq<u8>, els: Seq<ElView>) -> Seq<u8>
    decreases els.len(),
{
    if els.len() == 0 {
        Seq::empty()
    } else {
        apply_els(text, els.drop_last()) + piece_bytes(text, els.last())
    }
}

/// The end of the last copied range of `els`, or `from` when nothing is copied.
pub open spec fn last_end(els: Seq<ElView>, from: int) -> int
    decreases els.len(),
{
    if els.len() == 0 {
        from
    } else {
        match els[0] {
            ElView::Copy(_, end) => last_end(els.skip(1), end as int),
            ElView::Insert(_) => last_end(els.skip(1), from),
        }
    }
}

/// The stretches of all `edits`, sorted.
pub open spec fn sorted_replacements(edits: EditsView) -> Seq<Replacement> {
    let items = replacements_upto(edits, edits.len() as int);
    sorted_upto(items, items.len() as int)
}

/// Whether `edits` can be made to a text of `len` bytes at revision `rev`:
/// their stretches lie in the text and do not overlap, the old and the new
/// text together stay below the machine's greatest number, and the revision
/// can be counted up.
pub open spec fn can_edit(len: usize, rev: u64, edits: EditsView) -> bool {
    let items = sorted_replacements(edits);
    &&& replacements_ordered(items, len as int, edits.len() as int)
    &&& total_len(build_els(items, edits, len)) + len < usize::MAX
    &&& rev < u64::MAX
}

/// The lines that a change touches which replaces the old text from `first`
/// up to `last` and whose last new byte stands in front of `new_last`.
pub open spec fn inval_lines(
    old_text: Seq<u8>,
    new_text: Seq<u8>,
    first: int,
    last: int,
    new_last: int,
) -> InvalLines {
    let start_line = newlines(old_text, first);
    let old_end = newlines(old_text, last);
    let new_end = newlines(new_text, new_last);
    InvalLines {
        start_line: start_line as usize,
        inval_count: (old_end - start_line + 1) as usize,
        new_count: if new_end >= start_line {
            (new_end - start_line + 1) as usize
        } else {
            1
        },
    }
}

/// One more piece adds its length to the length of the text.
pub proof fn lemma_total_len_push(els: Seq<ElView>, x: ElView)
    ensures
        total_len(els.push(x)) == total_len(els) + x.len(),
    decreases els.len(),
{
    if els.len() == 0 {
        assert(els.push(x).skip(1) =~= Seq::<ElView>::empty());
        assert(total_len(els.push(x).skip(1)) == 0);
    } else {
        assert(els.push(x).skip(1) =~= els.skip(1).push(x));
        lemma_total_len_push(els.skip(1), x);
    }
}

/// Pieces in order stay in order when a piece is put behind them that
/// copies nothing in front of what they have copied.
pub proof fn lemma_ordered_push(els: Seq<ElView>, from: int, base_len: int, x: ElView)
    requires
        ordered_from(els, from, base_len),
        x matches ElView::Copy(beg, end) ==> last_end(els, from) <= beg <= end <= base_len,
    ensures
        ordered_from(els.push(x), from, base_len),
        last_end(els.push(x), from) == (match x {
            ElView::Copy(_, end) => end as int,
            ElView::Insert(_) => last_end(els, from),
        }),
    decreases els.len(),
{
    let pushed = els.push(x);
    if els.len() == 0 {
        assert(pushed.skip(1) =~= Seq::<ElView>::empty());
        assert(pushed[0] == x);
        assert(ordered_from(pushed.skip(1), from, base_len));
        assert(last_end(pushed.skip(1), from) == from);
        match x {
            ElView::Copy(beg, end) => {
                assert(ordered_from(pushed.skip(1), end as int, base_len));
                assert(last_end(pushed.skip(1), end as int) == end);
            },
            ElView::Insert(_) => {},
        }
    } else {
        assert(pushed.skip(1) =~= els.skip(1).push(x));
        assert(pushed[0] == els[0]);
        match els[0] {
            ElView::Copy(_, end) => lemma_ordered_push(els.skip(1), end as int, base_len, x),
            ElView::Insert(_) => lemma_ordered_push(els.skip(1), from, base_len, x),
        }
    }
}

/// Appends the bytes of `src` from `from` up to `to` to `out`.
pub fn push_range(out: &mut Vec<u8>, src: &Vec<u8>, from: usize, to: usize)
    requires
        from <= to <= src@.len(),
    ensures
        final(out)@ == old(out)@ + src@.subrange(from as int, to as int),
{
    let mut i: usize = from;
    while i < to
        invariant
            from <= i <= to <= src@.len(),
            out@ == old(out)@ + src@.subrange(from as int, i as int),
        decreases to - i,
    {
        out.push(src[i]);
        assert(src@.subrange(from as int, i + 1) =~= src@.subrange(from as int, i as int).push(
            src@[i as int],
        ));
        assert(out@ =~= old(out)@ + src@.subrange(from as int, i + 1));
        i += 1;
    }
    assert(out@ =~= old(out)@ + src@.subrange(from as int, to as int));
}

/// Appends the bytes of `s` to `out`.
pub fn push_str(out: &mut Vec<u8>, s: &str)
    ensures
        final(out)@ == old(out)@ + s.spec_bytes(),
        s.spec_bytes().len() <= usize::MAX,
{
    let bytes = s.as_bytes();
    let mut i: usize = 0;
    while i < bytes.len()
        invariant
            i <= bytes@.len(),
            bytes@ == s.spec_bytes(),
            out@ == old(out)@ + bytes@.subrange(0, i as int),
        decreases bytes@.len() - i,
    {
        out.push(bytes[i]);
        assert(bytes@.subrange(0, i + 1) =~= bytes@.subrange(0, i as int).push(bytes@[i as int]));
        assert(out@ =~= old(out)@ + bytes@.subrange(0, i + 1));
        i += 1;
    }
    assert(bytes@.subrange(0, i as int) =~= bytes@);
}

/// The stretches that `edits` name, in the order of the edits.
pub fn collect_replacements(edits: &Vec<(Selection, String)>) -> (r: Vec<Replacement>)
    ensures
        r@ == replacements_upto(edits_view(edits@), edits@.len() as int),
{
    let mut out: Vec<Replacement> = Vec::new();
    let mut i: usize = 0;
    while i < edits.len()
        invariant
            i <= edits@.len(),
            out@ == replacements_upto(edits_view(edits@), i as int),
        decreases edits@.len() - i,
    {
        let regions = &edits[i].0.regions;
        let ghost before = out@;
        let mut k: usize = 0;
        while k < regions.len()
            invariant
                k <= regions@.len(),
                i < edits@.len(),
                regions@ == edits@[i as int].0@,
                out@ == before + region_replacements(regions@, i as int).subrange(0, k as int),
            decreases regions@.len() - k,
        {
            let region = regions[k];
            out.push(Replacement { start: region.min(), end: region.max(), edit: i });
            assert(out@ =~= before + region_replacements(regions@, i as int).subrange(0, k + 1));
            k += 1;
        }
        assert(region_replacements(regions@, i as int).subrange(0, k as int)
            =~= region_replacements(regions@, i as int));
        i += 1;
    }
    out
}

/// `items` sorted by start and end.
pub fn sort_replacements(items: &Vec<Replacement>) -> (r: Vec<Replacement>)
    ensures
        r@ == sorted_upto(items@, items@.len() as int),
        r@.len() == items@.len(),
{
    let mut out: Vec<Replacement> = Vec::new();
    let mut i: usize = 0;
    while i < items.len()
        invariant
            i <= items@.len(),
            out@ == sorted_upto(items@, i as int),
            out@.len() == i,
        decreases items@.len() - i,
    {
        let x = items[i];
        let mut k: usize = 0;
        while k < out.len() && (out[k].start < x.start || (out[k].start == x.start && out[k].end
            <= x.end))
            invariant
                k <= out@.len(),
                insert_place(out@, x, 0) == insert_place(out@, x, k as int),
            decreases out@.len() - k,
        {
            k += 1;
        }
        out.insert(k, x);
        i += 1;
    }
    out
}

/// Whether the stretches lie in a text of `len` bytes, in order and apart,
/// each naming one of `edits` edits.
pub fn check_replacements(items: &Vec<Replacement>, len: usize, edits: usize) -> (r: bool)
    ensures
        r == replacements_ordered(items@, len as int, edits as int),
{
    let mut last: usize = 0;
    let mut i: usize = 0;
    while i < items.len()
        invariant
            i <= items@.len(),
            last == done_upto(items@, i as int),
            replacements_ordered(items@.subrange(0, i as int), len as int, edits as int),
        decreases items@.len() - i,
    {
        let item = items[i];
        if !(item.start <= item.end && item.end <= len && item.edit < edits && (i == 0 || last
            <= item.start)) {
            assert(!replacements_ordered(items@, len as int, edits as int)) by {
                if replacements_ordered(items@, len as int, edits as int) {
                    assert(items@[i as int].start <= items@[i as int].end);
                }
            }
            return false;
        }
        assert(replacements_ordered(items@.subrange(0, i + 1), len as int, edits as int)) by {
            let a = items@.subrange(0, i as int);
            let b = items@.subrange(0, i + 1);
            assert forall|j: int| 0 <= j < b.len() implies {
                &&& (#[trigger] b[j]).start <= b[j].end <= len
                &&& b[j].edit < edits
                &&& j > 0 ==> b[j - 1].end <= b[j].start
            } by {
                if j < i {
                    assert(b[j] == a[j]);
                    if j > 0 {
                        assert(b[j - 1] == a[j - 1]);
                    }
                }
            }
        }
        last = item.end;
        i += 1;
    }
    assert(items@.subrange(0, i as int) =~= items@);
    true
}

/// Adding stretches never takes pieces away, and no piece has a negative length.
pub proof fn lemma_els_upto(items: Seq<Replacement>, edits: EditsView, len: int, n: int)
    requires
        replacements_ordered(items, len, edits.len() as int),
        0 <= n <= items.len(),
        0 <= len,
    ensures
        ordered_from(els_upto(items, edits, n), 0, len),
        last_end(els_upto(items, edits, n), 0) <= done_upto(items, n) <= len,
        0 <= total_len(els_upto(items, edits, n)),
        n < items.len() ==> total_len(els_upto(items, edits, n)) <= total_len(
            els_upto(items, edits, n + 1),
        ),
    decreases n,
{
    if n > 0 {
        lemma_els_upto(items, edits, len, n - 1);
        lemma_els_step(items, edits, len, n);
    }
    if n < items.len() {
        if n > 0 {
            assert(items[n - 1].end <= items[n].start);
        }
        lemma_els_step(items, edits, len, n + 1);
    }
}

proof fn lemma_els_step(items: Seq<Replacement>, edits: EditsView, len: int, n: int)
    requires
        replacements_ordered(items, len, edits.len() as int),
        0 < n <= items.len(),
        ordered_from(els_upto(items, edits, n - 1), 0, len),
        last_end(els_upto(items, edits, n - 1), 0) <= done_upto(items, n - 1) <= len,
    ensures
        ordered_from(els_upto(items, edits, n), 0, len),
        last_end(els_upto(items, edits, n), 0) <= done_upto(items, n) <= len,
        total_len(els_upto(items, edits, n - 1)) <= total_len(els_upto(items, edits, n)),
{
    let prev = els_upto(items, edits, n - 1);
    let last = done_upto(items, n - 1);
    let item = items[n - 1];
    if n > 1 {
        assert(items[n - 2].end <= items[n - 1].start);
    }
    let copied = if item.start > last {
        prev.push(ElView::Copy(last as usize, item.start))
    } else {
        prev
    };
    if item.start > last {
        lemma_ordered_push(prev, 0, len, ElView::Copy(last as usize, item.start));
        lemma_total_len_push(prev, ElView::Copy(last as usize, item.start));
    }
    if edits[item.edit as int].1.len() > 0 {
        lemma_ordered_push(copied, 0, len, ElView::Insert(edits[item.edit as int].1));
        lemma_total_len_push(copied, ElView::Insert(edits[item.edit as int].1));
    }
}

/// The pieces of all stretches weigh no more than the pieces of the whole text.
pub proof fn lemma_els_monotonic(
    items: Seq<Replacement>,
    edits: EditsView,
    len: usize,
    n: int,
)
    requires
        replacements_ordered(items, len as int, edits.len() as int),
        0 <= n <= items.len(),
    ensures
        total_len(els_upto(items, edits, n)) <= total_len(build_els(items, edits, len)),
        ordered_from(build_els(items, edits, len), 0, len as int),
    decreases items.len() - n,
{
    lemma_els_upto(items, edits, len as int, n);
    if n < items.len() {
        lemma_els_monotonic(items, edits, len, n + 1);
    } else {
        let els = els_upto(items, edits, n);
        let last = done_upto(items, n);
        if last < len {
            lemma_ordered_push(els, 0, len as int, ElView::Copy(last as usize, len));
            lemma_total_len_push(els, ElView::Copy(last as usize, len));
        }
    }
}

/// Adds `piece` to the pieces `els` and its bytes to `text`, unless the new
/// text would then be too long.
fn push_piece(
    els: &mut Vec<DeltaElement>,
    text: &mut Vec<u8>,
    src: &Vec<u8>,
    piece: DeltaElement,
) -> (r: bool)
    requires
        old(text)@ == apply_els(src@, els_view(old(els)@)),
        old(text)@.len() == total_len(els_view(old(els)@)),
        old(text)@.len() + src@.len() < usize::MAX,
        piece matches DeltaElement::Copy(beg, end) ==> beg <= end <= src@.len(),
    ensures
        r == (total_len(els_view(old(els)@).push(piece@)) + src@.len() < usize::MAX),
        r ==> els_view(final(els)@) == els_view(old(els)@).push(piece@),
        !r ==> final(els)@ == old(els)@ && final(text)@ == old(text)@,
        final(text)@ == apply_els(src@, els_view(final(els)@)),
        final(text)@.len() == total_len(els_view(final(els)@)),
{
    proof {
        lemma_total_len_push(els_view(els@), piece@);
        assert(els_view(els@).push(piece@).drop_last() =~= els_view(els@));
        assert(els_view(els@.push(piece)) =~= els_view(els@).push(piece@));
    }
    match &piece {
        DeltaElement::Copy(beg, end) => {
            let (b, e) = (*beg, *end);
            if e - b >= usize::MAX - src.len() - text.len() {
                return false;
            }
            els.push(piece);
            push_range(text, src, b, e);
        },
        DeltaElement::Insert(s) => {
            if s.as_str().len() >= usize::MAX - src.len() - text.len() {
                return false;
            }
            push_str(text, s.as_str());
            els.push(piece);
        },
    }
    true
}

impl Buffer {
    /// Replaces each region of each edit's selection by the edit's text, all
    /// at once. Returns the delta of the change and the lines it touched, and
    /// counts the revision up. Where the regions overlap or reach behind the
    /// text, nothing is changed and nothing returned.
    pub fn edit(&mut self, edits: &Vec<(Selection, String)>, edit_type: EditType) -> (r: Option<
        (Delta, InvalLines),
    >)
        ensures
            r is Some <==> can_edit(old(self)@.len() as usize, old(self).rev, edits_view(edits@)),
            match r {
                Some((delta, lines)) => {
                    let items = sorted_replacements(edits_view(edits@));
                    &&& delta@.els == build_els(items, edits_view(edits@), old(self)@.len() as usize)
                    &&& delta.base_len == old(self)@.len()
                    &&& delta.wf()
                    &&& final(self)@ == apply_els(old(self)@, delta@.els)
                    &&& final(self)@.len() == delta.new_len()
                    &&& final(self).rev == old(self).rev + 1
                    &&& final(self).saved_rev == old(self).saved_rev
                    &&& final(self).last_edit_type == edit_type
                    &&& lines == if items.len() == 0 {
                        InvalLines { start_line: 0, inval_count: 0, new_count: 0 }
                    } else {
                        inval_lines(
                            old(self)@,
                            final(self)@,
                            items[0].start as int,
                            items.last().end as int,
                            delta.transform(items.last().end as int, true),
                        )
                    }
                },
                None => *final(self) == *old(self),
            },
    {
        let ghost views = edits_view(edits@);
        let base_len = self.text.len();
        let collected = collect_replacements(edits);
        let items = sort_replacements(&collected);
        if !check_replacements(&items, base_len, edits.len()) || self.rev == u64::MAX || base_len
            == usize::MAX {
            proof {
                if replacements_ordered(items@, base_len as int, views.len() as int) {
                    lemma_els_monotonic(items@, views, base_len, 0);
                }
            }
            return None;
        }
        let mut els: Vec<DeltaElement> = Vec::new();
        let mut text: Vec<u8> = Vec::new();
        let mut last: usize = 0;
        let mut i: usize = 0;
        let n = items.len();
        assert(els_view(els@) =~= Seq::<ElView>::empty());
        while i < n
            invariant
                i <= n,
                n == items@.len(),
                base_len == self.text@.len(),
                views == edits_view(edits@),
                replacements_ordered(items@, base_len as int, views.len() as int),
                els_view(els@) == els_upto(items@, views, i as int),
                last == done_upto(items@, i as int),
                last <= base_len,
                text@ == apply_els(self.text@, els_view(els@)),
                text@.len() == total_len(els_view(els@)),
                text@.len() + base_len < usize::MAX,
                items@ == sorted_replacements(views),
                self.text@ == old(self).text@,
                self.rev == old(self).rev,
                self.saved_rev == old(self).saved_rev,
            decreases n - i,
        {
            let item = items[i];
            proof {
                lemma_els_monotonic(items@, views, base_len, i + 1);
                if i > 0 {
                    assert(items@[i - 1].end <= items@[i as int].start);
                }
            }
            if item.start > last {
                if !push_piece(&mut els, &mut text, &self.text, DeltaElement::Copy(last, item.start)) {
                    proof {
                        lemma_skipped_insert(items@, views, base_len, i + 1);
                    }
                    return None;
                }
            }
            let s = &edits[item.edit].1;
            assert(views[item.edit as int].1 == s@);
            if !s.as_str().is_empty() {
                let piece = DeltaElement::Insert(s.clone());
                assert(els_view(els@).push(piece@) == els_upto(items@, views, i + 1));
                if !push_piece(&mut els, &mut text, &self.text, piece) {
                    return None;
                }
            }
            assert(els_view(els@) == els_upto(items@, views, i + 1));
            last = item.end;
            i += 1;
        }
        proof {
            lemma_els_monotonic(items@, views, base_len, n as int);
        }
        if last < base_len {
            if !push_piece(&mut els, &mut text, &self.text, DeltaElement::Copy(last, base_len)) {
                return None;
            }
        }
        let delta = Delta { els, base_len };
        let lines = if n == 0 {
            InvalLines { start_line: 0, inval_count: 0, new_count: 0 }
        } else {
            let first = items[0].start;
            let last_end = items[n - 1].end;
            proof {
                lemma_replacements_sorted(items@, base_len as int, views.len() as int, 0, n - 1);
                lemma_newlines_monotonic(self.text@, first as int, last_end as int);
            }
            let new_last = delta.transform_offset(last_end, true);
            let start_line = self.line_of_offset(first);
            let old_end = self.line_of_offset(last_end);
            let new_end = line_of(&text, new_last);
            InvalLines {
                start_line,
                inval_count: old_end - start_line + 1,
                new_count: if new_end >= start_line {
                    new_end - start_line + 1
                } else {
                    1
                },
            }
        };
        self.text = text;
        self.rev = self.rev + 1;
        self.last_edit_type = edit_type;
        Some((delta, lines))
    }
}

impl Buffer {
    /// Whether `edits` can be made to the text.
    pub fn accepts(&self, edits: &Vec<(Selection, String)>) -> (r: bool)
        ensures
            r == can_edit(self@.len() as usize, self.rev, edits_view(edits@)),
    {
        let mut trial = self.clone();
        trial.edit(edits, EditType::Other).is_some()
    }
}

/// The pieces of `n` stretches weigh at least as much as those of the
/// stretches before together with what is copied in front of the last.
proof fn lemma_skipped_insert(
    items: Seq<Replacement>,
    edits: EditsView,
    len: usize,
    n: int,
)
    requires
        replacements_ordered(items, len as int, edits.len() as int),
        0 < n <= items.len(),
        items[n - 1].start > done_upto(items, n - 1),
    ensures
        total_len(
            els_upto(items, edits, n - 1).push(
                ElView::Copy(done_upto(items, n - 1) as usize, items[n - 1].start),
            ),
        ) <= total_len(els_upto(items, edits, n)),
{
    let prev = els_upto(items, edits, n - 1);
    let item = items[n - 1];
    let copied = prev.push(ElView::Copy(done_upto(items, n - 1) as usize, item.start));
    if edits[item.edit as int].1.len() > 0 {
        lemma_total_len_push(copied, ElView::Insert(edits[item.edit as int].1));
    }
}

/// The number of line breaks in the first `offset` bytes of `text`.
pub fn line_of(text: &Vec<u8>, offset: usize) -> (r: usize)
    requires
        offset <= text@.len(),
    ensures
        r == newlines(text@, offset as int),
        r <= offset,
{
    let mut count: usize = 0;
    let mut i: usize = 0;
    while i < offset
        invariant
            i <= offset <= text@.len(),
            count == newlines(text@, i as int),
            count <= i,
        decreases offset - i,
    {
        if text[i] == crate::buffer::NEWLINE {
            count += 1;
        }
        i += 1;
    }
    count
}

/// A longer stretch of text has at least as many line breaks.
pub proof fn lemma_newlines_monotonic(text: Seq<u8>, a: int, b: int)
    requires
        0 <= a <= b <= text.len(),
    ensures
        0 <= newlines(text, a) <= newlines(text, b) <= b,
    decreases b,
{
    if a < b {
        lemma_newlines_monotonic(text, a, b - 1);
    } else if a > 0 {
        lemma_newlines_monotonic(text, a - 1, a - 1);
    }
}

/// Of stretches in order a later one starts no earlier than an earlier one ends.
pub proof fn lemma_replacements_sorted(items: Seq<Replacement>, len: int, edits: int, i: int, j: int)
    requires
        replacements_ordered(items, len, edits),
        0 <= i <= j < items.len(),
    ensures
        items[i].start <= items[j].end,
        i < j ==> items[i].end <= items[j].start,
    decreases j - i,
{
    if i < j {
        lemma_replacements_sorted(items, len, edits, i, j - 1);
        assert(items[j - 1].end <= items[j].start);
        assert(items[j - 1].start <= items[j - 1].end);
    }
}


/// What `insert_place` finds: every stretch in front of the place need not
/// come behind `x`, and the stretch at the place must.
pub proof fn lemma_insert_place(sorted: Seq<Replacement>, x: Replacement, from: int)
    requires
        0 <= from <= sorted.len(),
    ensures
        from <= insert_place(sorted, x, from) <= sorted.len(),
        forall|i: int| from <= i < insert_place(sorted, x, from) ==> not_behind(#[trigger] sorted[i], x),
        insert_place(sorted, x, from) < sorted.len() ==> !not_behind(
            sorted[insert_place(sorted, x, from)],
            x,
        ),
    decreases sorted.len() - from,
{
    if from < sorted.len() && not_behind(sorted[from], x) {
        lemma_insert_place(sorted, x, from + 1);
    }
}

/// Sorting keeps every stretch, each as often as it was given, and puts
/// them in order: of two stretches of the result the earlier need not come
/// behind the later.
pub proof fn lemma_sorted_upto(items: Seq<Replacement>, n: int)
    requires
        0 <= n <= items.len(),
    ensures
        sorted_upto(items, n).len() == n,
        sorted_upto(items, n).to_multiset() == items.take(n).to_multiset(),
        forall|i: int, j: int|
            0 <= i < j < n ==> not_behind(
                #[trigger] sorted_upto(items, n)[i],
                #[trigger] sorted_upto(items, n)[j],
            ),
    decreases n,
{
    if n == 0 {
        assert(items.take(0) =~= Seq::<Replacement>::empty());
    } else {
        lemma_sorted_upto(items, n - 1);
        let prev = sorted_upto(items, n - 1);
        let x = items[n - 1];
        lemma_insert_place(prev, x, 0);
        let p = insert_place(prev, x, 0);
        let next = prev.insert(p, x);
        vstd::seq_lib::to_multiset_insert(prev, p, x);
        vstd::seq_lib::to_multiset_build(items.take(n - 1), x);
        assert(items.take(n) =~= items.take(n - 1).push(x));
        assert forall|i: int, j: int| 0 <= i < j < n implies not_behind(
            #[trigger] next[i],
            #[trigger] next[j],
        ) by {
            if j < p {
                assert(next[i] == prev[i] && next[j] == prev[j]);
            } else if j == p {
                assert(next[i] == prev[i]);
            } else if i < p {
                assert(next[i] == prev[i] && next[j] == prev[j - 1]);
            } else if i == p {
                assert(next[j] == prev[j - 1]);
                assert(!not_behind(prev[p], x));
                if j - 1 > p {
                    assert(not_behind(prev[p], prev[j - 1]));
                }
            } else {
                assert(next[i] == prev[i - 1] && next[j] == prev[j - 1]);
            }
        }
    }
}

/// The change that replaces one stretch of a text: what stands in front
/// of the stretch is copied, the new text is put in, and what stands
/// behind the stretch is copied; each piece only where it is not empty.
pub proof fn lemma_single_replacement(len: usize, start: usize, end: usize, text: Seq<char>)
    requires
        start <= end,
    ensures
        ({
            let edits = seq![(seq![SelRegion { start, end, horiz: None }], text)];
            let front = if start > 0 {
                seq![ElView::Copy(0, start)]
            } else {
                Seq::empty()
            };
            let put_in = if text.len() > 0 {
                seq![ElView::Insert(text)]
            } else {
                Seq::empty()
            };
            let back = if end < len {
                seq![ElView::Copy(end, len)]
            } else {
                Seq::empty()
            };
            &&& sorted_replacements(edits) == seq![Replacement { start, end, edit: 0 }]
            &&& build_els(sorted_replacements(edits), edits, len) == front + put_in + back
        }),
{
    let region = SelRegion { start, end, horiz: None };
    let edits = seq![(seq![region], text)];
    let item = Replacement { start, end, edit: 0 };
    assert(replacements_upto(edits, 0) =~= Seq::<Replacement>::empty());
    assert(region_replacements(seq![region], 0) =~= seq![item]);
    assert(replacements_upto(edits, 1) =~= seq![item]);
    let items = replacements_upto(edits, 1);
    assert(sorted_upto(items, 0) =~= Seq::<Replacement>::empty());
    assert(insert_place(Seq::<Replacement>::empty(), item, 0) == 0);
    assert(sorted_upto(items, 1) =~= seq![item]);
    let sorted = sorted_replacements(edits);
    assert(sorted =~= seq![item]);
    assert(els_upto(sorted, edits, 0) =~= Seq::<ElView>::empty());
    assert(done_upto(sorted, 0) == 0);
    let front = if start > 0 {
        seq![ElView::Copy(0, start)]
    } else {
        Seq::empty()
    };
    let put_in = if text.len() > 0 {
        seq![ElView::Insert(text)]
    } else {
        Seq::empty()
    };
    assert(els_upto(sorted, edits, 1) =~= front + put_in);
    assert(done_upto(sorted, 1) == end);
    let back = if end < len {
        seq![ElView::Copy(end, len)]
    } else {
        Seq::empty()
    };
    assert(build_els(sorted, edits, len) =~= front + put_in + back);
}

/// The pieces of two lists, one behind the other, add up their lengths.
pub proof fn lemma_total_len_concat(a: Seq<ElView>, b: Seq<ElView>)
    ensures
        total_len(a + b) == total_len(a) + total_len(b),
    decreases b.len(),
{
    if b.len() == 0 {
        assert(a + b =~= a);
    } else {
        lemma_total_len_concat(a, b.drop_last());
        assert(a + b =~= (a + b.drop_last()).push(b.last()));
        assert(b =~= b.drop_last().push(b.last()));
        lemma_total_len_push(a + b.drop_last(), b.last());
        lemma_total_len_push(b.drop_last(), b.last());
    }
}

/// The change that replaces one stretch of a text leaves the start of the
/// stretch where it was, and the new text is as long as what stands in
/// front of the stretch, the text put in, and what stands behind it.
pub proof fn lemma_single_replacement_places(len: usize, start: usize, end: usize, text: Seq<char>)
    requires
        start <= end <= len,
    ensures
        ({
            let edits = seq![(seq![SelRegion { start, end, horiz: None }], text)];
            let delta = DeltaView {
                els: build_els(sorted_replacements(edits), edits, len),
                base_len: len,
            };
            &&& delta.transform(start as int, false) == start
            &&& delta.new_len() == start + utf8_len(text) + (len - end)
        }),
{
    lemma_single_replacement(len, start, end, text);
    let edits = seq![(seq![SelRegion { start, end, horiz: None }], text)];
    let els = build_els(sorted_replacements(edits), edits, len);
    let front = if start > 0 {
        seq![ElView::Copy(0, start)]
    } else {
        Seq::empty()
    };
    let put_in = if text.len() > 0 {
        seq![ElView::Insert(text)]
    } else {
        Seq::empty()
    };
    let back = if end < len {
        seq![ElView::Copy(end, len)]
    } else {
        Seq::empty()
    };
    lemma_total_len_concat(front, put_in);
    lemma_total_len_concat(front + put_in, back);
    let none = Seq::<ElView>::empty();
    assert(total_len(none) == 0);
    assert(total_len(front) == start) by {
        if start > 0 {
            lemma_total_len_push(none, ElView::Copy(0, start));
            assert(front =~= none.push(ElView::Copy(0, start)));
        }
    }
    assert(total_len(put_in) == utf8_len(text)) by {
        if text.len() > 0 {
            lemma_total_len_push(none, ElView::Insert(text));
            assert(put_in =~= none.push(ElView::Insert(text)));
        } else {
            assert(encode_utf8(text) =~= Seq::<u8>::empty());
        }
    }
    assert(total_len(back) == len - end) by {
        if end < len {
            lemma_total_len_push(none, ElView::Copy(end, len));
            assert(back =~= none.push(ElView::Copy(end, len)));
        }
    }
    if start > 0 {
        assert(els[0] == ElView::Copy(0, start));
    }
}

} // verus!
