//! Regions of selected text, kept in order and apart from each other, and
//! how they are carried over a change of the text.

use vstd::prelude::*;
use crate::delta::{Delta, DeltaView, InsertDrift, lemma_delta_transform_ordered};

verus! {

/// One selected stretch of text, from the offset where the selection began
/// to the offset where the caret stands. A region whose ends meet is a caret.
#[derive(Clone, Copy, Debug, PartialEq, Eq)]
pub struct SelRegion {
    pub start: usize,
    pub end: usize,
    /// The column that vertical movement tries to keep.
    pub horiz: Option<usize>,
}

impl SelRegion {
    pub open spec fn spec_min(self) -> usize {
        if self.start < self.end {
            self.start
        } else {
            self.end
        }
    }

    pub open spec fn spec_max(self) -> usize {
        if self.start < self.end {
            self.end
        } else {
            self.start
        }
    }

    pub open spec fn spec_is_caret(self) -> bool {
        self.start == self.end
    }

    /// Whether `other`, which does not start before `self`, runs into `self`:
    /// it starts inside `self`, or it starts where `self` ends and one of the
    /// two is a caret.
    pub open spec fn spec_should_merge(self, other: SelRegion) -> bool {
        other.spec_min() < self.spec_max() || ((self.spec_is_caret() || other.spec_is_caret())
            && other.spec_min() == self.spec_max())
    }

    /// The region that covers `self` and `other` and runs the way `self` runs.
    pub open spec fn spec_merge_with(self, other: SelRegion) -> SelRegion {
        let lo = if self.spec_min() < other.spec_min() {
            self.spec_min()
        } else {
            other.spec_min()
        };
        let hi = if self.spec_max() > other.spec_max() {
            self.spec_max()
        } else {
            other.spec_max()
        };
        if self.end >= self.start {
            SelRegion { start: lo, end: hi, horiz: None }
        } else {
            SelRegion { start: hi, end: lo, horiz: None }
        }
    }

    pub fn new(start: usize, end: usize, horiz: Option<usize>) -> (r: SelRegion)
        ensures
            r == (SelRegion { start, end, horiz }),
    {
        SelRegion { start, end, horiz }
    }

    pub fn caret(offset: usize) -> (r: SelRegion)
        ensures
            r == (SelRegion { start: offset, end: offset, horiz: None }),
    {
        SelRegion { start: offset, end: offset, horiz: None }
    }

    #[verifier::when_used_as_spec(spec_min)]
    pub fn min(self) -> (r: usize)
        ensures
            r == self.spec_min(),
    {
        if self.start < self.end {
            self.start
        } else {
            self.end
        }
    }

    #[verifier::when_used_as_spec(spec_max)]
    pub fn max(self) -> (r: usize)
        ensures
            r == self.spec_max(),
    {
        if self.start < self.end {
            self.end
        } else {
            self.start
        }
    }

    #[verifier::when_used_as_spec(spec_is_caret)]
    pub fn is_caret(self) -> (r: bool)
        ensures
            r == self.spec_is_caret(),
    {
        self.start == self.end
    }

    #[verifier::when_used_as_spec(spec_should_merge)]
    pub fn should_merge(self, other: SelRegion) -> (r: bool)
        ensures
            r == self.spec_should_merge(other),
    {
        other.min() < self.max() || ((self.is_caret() || other.is_caret()) && other.min()
            == self.max())
    }

    #[verifier::when_used_as_spec(spec_merge_with)]
    pub fn merge_with(self, other: SelRegion) -> (r: SelRegion)
        ensures
            r == self.spec_merge_with(other),
    {
        let lo = if self.min() < other.min() {
            self.min()
        } else {
            other.min()
        };
        let hi = if self.max() > other.max() {
            self.max()
        } else {
            other.max()
        };
        if self.end >= self.start {
            SelRegion { start: lo, end: hi, horiz: None }
        } else {
            SelRegion { start: hi, end: lo, horiz: None }
        }
    }
}

/// The regions are in order and none reaches into a later one.
pub open spec fn regions_sorted(regions: Seq<SelRegion>) -> bool {
    forall|i: int, j: int|
        0 <= i < j < regions.len() ==> (#[trigger] regions[i]).max() <= (#[trigger] regions[j]).min()
}

/// No region reaches behind `bound`.
pub open spec fn regions_within(regions: Seq<SelRegion>, bound: int) -> bool {
    forall|i: int| 0 <= i < regions.len() ==> (#[trigger] regions[i]).max() <= bound
}

/// The index of the first region from `from` on that ends at or behind
/// `offset`, or the number of regions.
pub open spec fn search_from(regions: Seq<SelRegion>, offset: usize, from: int) -> int
    decreases regions.len() - from,
{
    if from < 0 || from >= regions.len() {
        regions.len() as int
    } else if regions[from].max() >= offset {
        from
    } else {
        search_from(regions, offset, from + 1)
    }
}

/// `region` merged with every region from `end_ix` on that it runs into, and
/// the index of the first region that it leaves alone.
pub open spec fn merge_run(regions: Seq<SelRegion>, region: SelRegion, end_ix: int) -> (
    SelRegion,
    int,
)
    decreases regions.len() - end_ix,
{
    if 0 <= end_ix < regions.len() && region.should_merge(regions[end_ix]) {
        merge_run(regions, regions[end_ix].merge_with(region), end_ix + 1)
    } else {
        (region, end_ix)
    }
}

/// The regions after `region` was added, and the index at which it stands.
/// It is put in its place by its lower end and merged with the regions that
/// it overlaps, and with those that it touches where one of the two is a caret.
pub open spec fn add_region_result(regions: Seq<SelRegion>, region: SelRegion) -> (
    Seq<SelRegion>,
    int,
) {
    let ix = search_from(regions, region.min(), 0);
    if ix == regions.len() {
        (regions.push(region), ix)
    } else {
        let (first, at, next) = if regions[ix].min() <= region.min() {
            if regions[ix].should_merge(region) {
                (regions[ix].merge_with(region), ix, ix + 1)
            } else {
                (region, ix + 1, ix + 1)
            }
        } else {
            (region, ix, ix)
        };
        let (merged, end_ix) = merge_run(regions, first, next);
        (
            regions.subrange(0, at) + seq![merged] + regions.subrange(
                end_ix,
                regions.len() as int,
            ),
            at,
        )
    }
}

/// The region to which `delta` carries `region`. With `InsertDrift::Inside`
/// text inserted at an end of a region that is no caret goes into the region,
/// with `InsertDrift::Outside` it stays out of it; else `after` says for both
/// ends whether they go behind text inserted there.
pub open spec fn transform_region(
    delta: DeltaView,
    region: SelRegion,
    after: bool,
    drift: InsertDrift,
) -> SelRegion {
    let forward = region.start < region.end;
    let (start_after, end_after) = if region.is_caret() {
        (after, after)
    } else {
        match drift {
            InsertDrift::Inside => (!forward, forward),
            InsertDrift::Outside => (forward, !forward),
            InsertDrift::Default => (after, after),
        }
    };
    SelRegion {
        start: delta.transform(region.start as int, start_after) as usize,
        end: delta.transform(region.end as int, end_after) as usize,
        horiz: None,
    }
}

/// The first `n` of `regions`, each carried over by `delta` and added to the
/// result in turn: the regions, and the index of the one added last.
pub open spec fn apply_delta_upto(
    regions: Seq<SelRegion>,
    delta: DeltaView,
    after: bool,
    drift: InsertDrift,
    n: int,
) -> (Seq<SelRegion>, int)
    decreases n,
{
    if n <= 0 || n > regions.len() {
        (Seq::empty(), 0)
    } else {
        add_region_result(
            apply_delta_upto(regions, delta, after, drift, n - 1).0,
            transform_region(delta, regions[n - 1], after, drift),
        )
    }
}

/// A list of regions in order, none reaching into the next.
#[derive(Debug)]
pub struct Selection {
    pub regions: Vec<SelRegion>,
    /// The index of the region that was added last.
    pub last_inserted: usize,
}

impl View for Selection {
    type V = Seq<SelRegion>;

    open spec fn view(&self) -> Seq<SelRegion> {
        self.regions@
    }
}

impl Clone for Selection {
    fn clone(&self) -> (r: Selection)
        ensures
            r@ == self@,
            r.last_inserted == self.last_inserted,
    {
        let mut regions: Vec<SelRegion> = Vec::new();
        let mut i: usize = 0;
        while i < self.regions.len()
            invariant
                i <= self.regions@.len(),
                regions@ == self.regions@.subrange(0, i as int),
            decreases self.regions@.len() - i,
        {
            regions.push(self.regions[i]);
            assert(self.regions@.subrange(0, i + 1) =~= self.regions@.subrange(0, i as int).push(
                self.regions@[i as int],
            ));
            i += 1;
        }
        assert(self.regions@.subrange(0, i as int) =~= self.regions@);
        Selection { regions, last_inserted: self.last_inserted }
    }
}

impl Selection {
    /// The regions are in order and apart, and `last_inserted` names one of
    /// them, or is 0 when there is none.
    pub open spec fn wf(&self) -> bool {
        &&& regions_sorted(self@)
        &&& self.last_inserted < self@.len() || (self@.len() == 0 && self.last_inserted == 0)
    }

    /// Every region lies in a text of `len` bytes.
    pub open spec fn within(&self, len: int) -> bool {
        regions_within(self@, len)
    }

    /// The offset of the caret: the end of the region added last, or 0.
    pub open spec fn cursor_offset(&self) -> usize {
        if self@.len() == 0 || self.last_inserted >= self@.len() {
            0
        } else {
            self@[self.last_inserted as int].end
        }
    }

    /// The least offset of all regions, or 0.
    pub open spec fn spec_min_offset(&self) -> usize {
        if self@.len() == 0 {
            0
        } else {
            self@[0].min()
        }
    }

    /// The selection without regions.
    pub fn new() -> (s: Selection)
        ensures
            s@.len() == 0,
            s.last_inserted == 0,
            s.wf(),
    {
        Selection { regions: Vec::new(), last_inserted: 0 }
    }

    /// The selection of one region.
    pub fn region(start: usize, end: usize) -> (s: Selection)
        ensures
            s@ == seq![SelRegion { start, end, horiz: None }],
            s.last_inserted == 0,
            s.wf(),
    {
        Selection::sel_region(SelRegion { start, end, horiz: None })
    }

    /// The selection of the one region `region`.
    pub fn sel_region(region: SelRegion) -> (s: Selection)
        ensures
            s@ == seq![region],
            s.last_inserted == 0,
            s.wf(),
    {
        let mut regions: Vec<SelRegion> = Vec::new();
        regions.push(region);
        Selection { regions, last_inserted: 0 }
    }

    /// The selection of one caret.
    pub fn caret(offset: usize) -> (s: Selection)
        ensures
            s@ == seq![SelRegion { start: offset, end: offset, horiz: None }],
            s.last_inserted == 0,
            s.wf(),
    {
        Selection::sel_region(SelRegion::caret(offset))
    }

    pub fn len(&self) -> (r: usize)
        ensures
            r == self@.len(),
    {
        self.regions.len()
    }

    pub fn is_empty(&self) -> (r: bool)
        ensures
            r == (self@.len() == 0),
    {
        self.regions.len() == 0
    }

    /// The region that was added last.
    pub fn last_inserted(&self) -> (r: Option<SelRegion>)
        ensures
            r == if self.last_inserted < self@.len() {
                Some(self@[self.last_inserted as int])
            } else {
                None
            },
    {
        if self.last_inserted < self.regions.len() {
            Some(self.regions[self.last_inserted])
        } else {
            None
        }
    }

    /// The first region.
    pub fn first(&self) -> (r: Option<SelRegion>)
        ensures
            r == if self@.len() > 0 {
                Some(self@[0])
            } else {
                None
            },
    {
        if self.regions.len() > 0 {
            Some(self.regions[0])
        } else {
            None
        }
    }

    /// The offset of the caret.
    pub fn get_cursor_offset(&self) -> (r: usize)
        ensures
            r == self.cursor_offset(),
    {
        if self.regions.len() == 0 || self.last_inserted >= self.regions.len() {
            0
        } else {
            self.regions[self.last_inserted].end
        }
    }

    /// The least offset of all regions.
    pub fn min_offset(&self) -> (r: usize)
        ensures
            r == self.spec_min_offset(),
    {
        if self.regions.len() == 0 {
            0
        } else {
            self.regions[0].min()
        }
    }

    /// The index of the first region that ends at or behind `offset`.
    pub fn search(&self, offset: usize) -> (r: usize)
        ensures
            r == search_from(self@, offset, 0),
            r <= self@.len(),
    {
        let mut i: usize = 0;
        while i < self.regions.len()
            invariant
                i <= self.regions@.len(),
                search_from(self.regions@, offset, 0) == search_from(self.regions@, offset, i as int),
            decreases self.regions@.len() - i,
        {
            if self.regions[i].max() >= offset {
                return i;
            }
            i += 1;
        }
        i
    }

    /// Adds `region`, merging it with the regions that it runs into.
    pub fn add_region(&mut self, region: SelRegion)
        requires
            old(self).wf(),
        ensures
            final(self)@ == add_region_result(old(self)@, region).0,
            final(self).last_inserted == add_region_result(old(self)@, region).1,
            final(self).wf(),
            forall|bound: int|
                regions_within(old(self)@, bound) && region.max() <= bound ==> regions_within(
                    final(self)@,
                    bound,
                ),
    {
        let ghost before = self.regions@;
        proof {
            lemma_add_region_sorted(before, region);
            assert forall|bound: int|
                regions_within(before, bound) && region.max() <= bound implies regions_within(
                add_region_result(before, region).0,
                bound,
            ) by {
                lemma_add_region_within(before, region, bound);
            }
        }
        let n = self.regions.len();
        let ix = self.search(region.min());
        if ix == n {
            self.regions.push(region);
            self.last_inserted = n;
            return ;
        }
        let mut cur = region;
        let mut at = ix;
        let mut end_ix = ix;
        if self.regions[ix].min() <= region.min() {
            if self.regions[ix].should_merge(region) {
                cur = self.regions[ix].merge_with(region);
            } else {
                at = ix + 1;
            }
            end_ix = ix + 1;
        }
        let ghost first = cur;
        let ghost next = end_ix as int;
        while end_ix < n && cur.should_merge(self.regions[end_ix])
            invariant
                next <= end_ix <= n,
                n == self.regions@.len(),
                self.regions@ == before,
                merge_run(before, first, next) == merge_run(before, cur, end_ix as int),
            decreases n - end_ix,
        {
            cur = self.regions[end_ix].merge_with(cur);
            end_ix += 1;
        }
        let mut out: Vec<SelRegion> = Vec::new();
        let mut i: usize = 0;
        while i < at
            invariant
                i <= at <= n,
                n == self.regions@.len(),
                self.regions@ == before,
                out@ == before.subrange(0, i as int),
            decreases at - i,
        {
            out.push(self.regions[i]);
            assert(before.subrange(0, i + 1) =~= before.subrange(0, i as int).push(before[i as int]));
            i += 1;
        }
        out.push(cur);
        let mut j: usize = end_ix;
        while j < n
            invariant
                end_ix <= j <= n,
                n == self.regions@.len(),
                self.regions@ == before,
                out@ == before.subrange(0, at as int) + seq![cur] + before.subrange(
                    end_ix as int,
                    j as int,
                ),
            decreases n - j,
        {
            out.push(self.regions[j]);
            assert(before.subrange(end_ix as int, j + 1) =~= before.subrange(
                end_ix as int,
                j as int,
            ).push(before[j as int]));
            assert(out@ =~= before.subrange(0, at as int) + seq![cur] + before.subrange(
                end_ix as int,
                j + 1,
            ));
            j += 1;
        }
        self.regions = out;
        self.last_inserted = at;
    }

    /// The selection that `delta` makes of this one: each region carried
    /// over and added in turn, so that regions which the change brought
    /// together are merged.
    pub fn apply_delta(&self, delta: &Delta, after: bool, drift: InsertDrift) -> (r: Selection)
        requires
            delta.wf(),
        ensures
            r@ == apply_delta_upto(self@, delta@, after, drift, self@.len() as int).0,
            r.last_inserted == apply_delta_upto(self@, delta@, after, drift, self@.len() as int).1,
            r.wf(),
            r.within(delta.new_len()),
    {
        let mut result = Selection::new();
        let mut i: usize = 0;
        while i < self.regions.len()
            invariant
                i <= self.regions@.len(),
                delta.wf(),
                result.wf(),
                result.within(delta.new_len()),
                result@ == apply_delta_upto(self@, delta@, after, drift, i as int).0,
                result.last_inserted == apply_delta_upto(self@, delta@, after, drift, i as int).1,
            decreases self.regions@.len() - i,
        {
            let region = self.regions[i];
            let forward = region.start < region.end;
            let (start_after, end_after) = if region.is_caret() {
                (after, after)
            } else {
                match drift {
                    InsertDrift::Inside => (!forward, forward),
                    InsertDrift::Outside => (forward, !forward),
                    InsertDrift::Default => (after, after),
                }
            };
            let new_region = SelRegion::new(
                delta.transform_offset(region.start, start_after),
                delta.transform_offset(region.end, end_after),
                None,
            );
            assert(new_region == transform_region(delta@, region, after, drift));
            result.add_region(new_region);
            i += 1;
        }
        result
    }
}

/// What `search_from` finds: every region in front of it ends before `offset`.
pub proof fn lemma_search(regions: Seq<SelRegion>, offset: usize, from: int)
    requires
        0 <= from <= regions.len(),
    ensures
        from <= search_from(regions, offset, from) <= regions.len(),
        forall|i: int|
            from <= i < search_from(regions, offset, from) ==> (#[trigger] regions[i]).max()
                < offset,
        search_from(regions, offset, from) < regions.len() ==> regions[search_from(
            regions,
            offset,
            from,
        )].max() >= offset,
    decreases regions.len() - from,
{
    if from < regions.len() && regions[from].max() < offset {
        lemma_search(regions, offset, from + 1);
    }
}

/// What `merge_run` returns: a region that starts where `region` starts,
/// ends no earlier, and ends in front of every region that is left.
pub proof fn lemma_merge_run(regions: Seq<SelRegion>, region: SelRegion, end_ix: int, bound: int)
    requires
        regions_sorted(regions),
        0 <= end_ix <= regions.len(),
        forall|k: int| end_ix <= k < regions.len() ==> (#[trigger] regions[k]).min() >= region.min(),
    ensures
        ({
            let (merged, e) = merge_run(regions, region, end_ix);
            &&& end_ix <= e <= regions.len()
            &&& merged.min() == region.min()
            &&& merged.max() >= region.max()
            &&& forall|j: int| e <= j < regions.len() ==> (#[trigger] regions[j]).min() >= merged.max()
            &&& regions_within(regions, bound) && region.max() <= bound ==> merged.max() <= bound
        }),
    decreases regions.len() - end_ix,
{
    if end_ix < regions.len() && region.should_merge(regions[end_ix]) {
        let next = regions[end_ix].merge_with(region);
        assert forall|k: int| end_ix + 1 <= k < regions.len() implies (#[trigger] regions[k]).min()
            >= next.min() by {
            assert(regions[end_ix].max() <= regions[k].min());
        }
        lemma_merge_run(regions, next, end_ix + 1, bound);
    } else if end_ix < regions.len() {
        assert forall|j: int| end_ix <= j < regions.len() implies (#[trigger] regions[j]).min()
            >= region.max() by {
            if j > end_ix {
                assert(regions[end_ix].max() <= regions[j].min());
            }
        }
    }
}

/// Adding a region to regions that are in order leaves them in order.
pub proof fn lemma_add_region_sorted(regions: Seq<SelRegion>, region: SelRegion)
    requires
        regions_sorted(regions),
    ensures
        regions_sorted(add_region_result(regions, region).0),
        0 <= add_region_result(regions, region).1 < add_region_result(regions, region).0.len(),
{
    lemma_add_region_shape(regions, region, usize::MAX as int);
}

/// Adding a region that lies in a text to regions that do gives regions that do.
pub proof fn lemma_add_region_within(regions: Seq<SelRegion>, region: SelRegion, bound: int)
    requires
        regions_sorted(regions),
        regions_within(regions, bound),
        region.max() <= bound,
    ensures
        regions_within(add_region_result(regions, region).0, bound),
{
    lemma_add_region_shape(regions, region, bound);
}

proof fn lemma_add_region_shape(regions: Seq<SelRegion>, region: SelRegion, bound: int)
    requires
        regions_sorted(regions),
    ensures
        regions_sorted(add_region_result(regions, region).0),
        0 <= add_region_result(regions, region).1 < add_region_result(regions, region).0.len(),
        regions_within(regions, bound) && region.max() <= bound ==> regions_within(
            add_region_result(regions, region).0,
            bound,
        ),
{
    let n = regions.len() as int;
    let ix = search_from(regions, region.min(), 0);
    lemma_search(regions, region.min(), 0);
    let result = add_region_result(regions, region).0;
    if ix == n {
        assert forall|i: int, j: int| 0 <= i < j < result.len() implies (#[trigger] result[i]).max()
            <= (#[trigger] result[j]).min() by {
            if j == n {
                assert(regions[i].max() < region.min());
            }
        }
    } else {
        let (first, at, next) = if regions[ix].min() <= region.min() {
            if regions[ix].should_merge(region) {
                (regions[ix].merge_with(region), ix, ix + 1)
            } else {
                (region, ix + 1, ix + 1)
            }
        } else {
            (region, ix, ix)
        };
        assert forall|k: int| next <= k < n implies (#[trigger] regions[k]).min() >= first.min() by {
            if k > ix {
                assert(regions[ix].max() <= regions[k].min());
            }
        }
        lemma_merge_run(regions, first, next, bound);
        let (merged, end_ix) = merge_run(regions, first, next);
        let head = regions.subrange(0, at);
        let tail = regions.subrange(end_ix, n);
        assert(result == head + seq![merged] + tail);
        assert forall|i: int| 0 <= i < at implies (#[trigger] regions[i]).max() <= merged.min() by {
            if i < ix {
                assert(regions[i].max() < region.min());
                if at == ix && next == ix + 1 {
                    assert(regions[i].max() <= regions[ix].min());
                }
            }
        }
        assert forall|i: int, j: int| 0 <= i < j < result.len() implies (#[trigger] result[i]).max()
            <= (#[trigger] result[j]).min() by {
            if i < at {
                assert(result[i] == regions[i]);
                if j == at {
                } else if j > at {
                    assert(result[j] == regions[end_ix + (j - at - 1)]);
                } else {
                    assert(result[j] == regions[j]);
                }
            } else if i == at {
                assert(result[j] == regions[end_ix + (j - at - 1)]);
            } else {
                assert(result[i] == regions[end_ix + (i - at - 1)]);
                assert(result[j] == regions[end_ix + (j - at - 1)]);
            }
        }
        if regions_within(regions, bound) && region.max() <= bound {
            assert forall|i: int| 0 <= i < result.len() implies (#[trigger] result[i]).max()
                <= bound by {
                if i < at {
                    assert(result[i] == regions[i]);
                } else if i > at {
                    assert(result[i] == regions[end_ix + (i - at - 1)]);
                }
            }
        }
    }
}

/// The lengths of the regions and of the gaps in front of, between and
/// behind them, from `from` on, where the text in front of `at` is counted.
pub open spec fn covered_from(regions: Seq<SelRegion>, from: int, at: int, len: int) -> int
    decreases regions.len() - from,
{
    if from < 0 || from >= regions.len() {
        len - at
    } else {
        (regions[from].min() - at) + (regions[from].max() - regions[from].min()) + covered_from(
            regions,
            from + 1,
            regions[from].max() as int,
            len,
        )
    }
}

/// The regions of a selection and the gaps around them make up the text:
/// their lengths add up to the length of the text, and no gap is negative.
pub proof fn lemma_regions_cover(regions: Seq<SelRegion>, len: int, from: int, at: int)
    requires
        regions_sorted(regions),
        regions_within(regions, len),
        0 <= from <= regions.len(),
        0 <= at <= len,
        from < regions.len() ==> at <= regions[from].min(),
    ensures
        covered_from(regions, from, at, len) == len - at,
        forall|i: int|
            from <= i < regions.len() ==> at <= (#[trigger] regions[i]).min() <= regions[i].max()
                <= len,
        forall|i: int|
            from <= i && i + 1 < regions.len() ==> (#[trigger] regions[i]).max() <= regions[i
                + 1].min(),
    decreases regions.len() - from,
{
    if from < regions.len() {
        if from + 1 < regions.len() {
            assert(regions[from].max() <= regions[from + 1].min());
        }
        lemma_regions_cover(regions, len, from + 1, regions[from].max() as int);
    }
}

/// A selection carried over by a change of the text lies in the new text, in
/// order, whatever the selection was before.
pub proof fn lemma_apply_delta_valid(
    regions: Seq<SelRegion>,
    delta: DeltaView,
    after: bool,
    drift: InsertDrift,
    n: int,
)
    requires
        delta.wf(),
    ensures
        regions_sorted(apply_delta_upto(regions, delta, after, drift, n).0),
        regions_within(apply_delta_upto(regions, delta, after, drift, n).0, delta.new_len()),
    decreases n,
{
    if 0 < n <= regions.len() {
        lemma_apply_delta_valid(regions, delta, after, drift, n - 1);
        let region = transform_region(delta, regions[n - 1], after, drift);
        lemma_transform_region_within(delta, regions[n - 1], after, drift);
        let sofar = apply_delta_upto(regions, delta, after, drift, n - 1).0;
        lemma_add_region_sorted(sofar, region);
        lemma_add_region_within(sofar, region, delta.new_len());
    }
}

/// A region carried over by a change of the text lies in the new text.
pub proof fn lemma_transform_region_within(
    delta: DeltaView,
    region: SelRegion,
    after: bool,
    drift: InsertDrift,
)
    requires
        delta.wf(),
    ensures
        transform_region(delta, region, after, drift).max() <= delta.new_len(),
        transform_region(delta, region, after, drift).start == delta.transform(
            region.start as int,
            if region.is_caret() {
                after
            } else {
                match drift {
                    InsertDrift::Inside => !(region.start < region.end),
                    InsertDrift::Outside => region.start < region.end,
                    InsertDrift::Default => after,
                }
            },
        ),
{
    lemma_delta_transform_ordered(delta, region.start as int, true, region.start as int, true);
    lemma_delta_transform_ordered(delta, region.start as int, false, region.start as int, false);
    lemma_delta_transform_ordered(delta, region.end as int, true, region.end as int, true);
    lemma_delta_transform_ordered(delta, region.end as int, false, region.end as int, false);
}


/// The first `n` of `regions`, added in turn to a selection that starts
/// without regions: the regions, and the index of the one added last.
pub open spec fn merged_upto(regions: Seq<SelRegion>, n: int) -> (Seq<SelRegion>, int)
    decreases n,
{
    if n <= 0 || n > regions.len() {
        (Seq::empty(), 0)
    } else {
        add_region_result(merged_upto(regions, n - 1).0, regions[n - 1])
    }
}

impl Selection {
    /// The selection of `regions`, merged where they run into each other.
    pub fn from_regions(regions: &Vec<SelRegion>) -> (r: Selection)
        ensures
            r@ == merged_upto(regions@, regions@.len() as int).0,
            r.last_inserted == merged_upto(regions@, regions@.len() as int).1,
            r.wf(),
    {
        let mut result = Selection::new();
        let mut i: usize = 0;
        while i < regions.len()
            invariant
                i <= regions@.len(),
                result.wf(),
                result@ == merged_upto(regions@, i as int).0,
                result.last_inserted == merged_upto(regions@, i as int).1,
            decreases regions@.len() - i,
        {
            result.add_region(regions[i]);
            i += 1;
        }
        result
    }
}


/// A selection carried over a change of the text makes up the new text:
/// its regions are in order and lie in the new text, and their lengths
/// and the lengths of the gaps in front of, between and behind them add up
/// to the length of the new text. This holds of every selection and every
/// change, so it holds after each of any number of edits.
pub proof fn lemma_remapped_selection_covers(
    regions: Seq<SelRegion>,
    delta: DeltaView,
    after: bool,
    drift: InsertDrift,
)
    requires
        delta.wf(),
    ensures
        ({
            let moved = apply_delta_upto(regions, delta, after, drift, regions.len() as int).0;
            &&& regions_sorted(moved)
            &&& regions_within(moved, delta.new_len())
            &&& covered_from(moved, 0, 0, delta.new_len()) == delta.new_len()
        }),
{
    let moved = apply_delta_upto(regions, delta, after, drift, regions.len() as int).0;
    lemma_apply_delta_valid(regions, delta, after, drift, regions.len() as int);
    crate::delta::lemma_total_len_nonnegative(delta.els, 0, delta.base_len as int);
    lemma_regions_cover(moved, delta.new_len(), 0, 0);
}


/// Of regions that follow each other none reaches into the next.
pub open spec fn neighbours_sorted(regions: Seq<SelRegion>) -> bool {
    forall|i: int|
        0 <= i && i + 1 < regions.len() ==> (#[trigger] regions[i]).max() <= regions[i + 1].min()
}

/// Regions of which none reaches into the next are in order throughout.
pub proof fn lemma_neighbours_sorted(regions: Seq<SelRegion>, i: int, j: int)
    requires
        neighbours_sorted(regions),
        0 <= i < j < regions.len(),
    ensures
        regions[i].max() <= regions[j].min(),
    decreases j - i,
{
    if i + 1 < j {
        lemma_neighbours_sorted(regions, i, j - 1);
        assert(regions[j - 1].max() <= regions[j].min());
    }
}

/// Region `k` does not reach into the one behind it.
pub open spec fn ends_before_next(regions: Seq<SelRegion>, k: int) -> bool {
    regions[k].max() <= regions[k + 1].min()
}

/// Whether of the regions none reaches into the next.
pub fn neighbours_in_order(regions: &Vec<SelRegion>) -> (r: bool)
    ensures
        r == neighbours_sorted(regions@),
{
    let n = regions.len();
    let mut i: usize = 1;
    while i < n
        invariant
            n == regions@.len(),
            1 <= i,
            forall|k: int| 0 <= k && k + 1 < i && k + 1 < n ==> #[trigger] ends_before_next(regions@, k),
        decreases n - i,
    {
        if regions[i - 1].max() > regions[i].min() {
            assert(!ends_before_next(regions@, i - 1));
            return false;
        }
        assert(ends_before_next(regions@, i - 1));
        i += 1;
    }
    assert forall|k: int| 0 <= k && k + 1 < regions@.len() implies (#[trigger] regions@[k]).max()
        <= regions@[k + 1].min() by {
        assert(ends_before_next(regions@, k));
    }
    true
}

/// Regions are in order throughout just when none reaches into the next.
pub proof fn lemma_sorted_iff_neighbours(regions: Seq<SelRegion>)
    ensures
        regions_sorted(regions) == neighbours_sorted(regions),
{
    if neighbours_sorted(regions) {
        assert forall|a: int, b: int| 0 <= a < b < regions.len() implies (#[trigger] regions[a]).max()
            <= (#[trigger] regions[b]).min() by {
            lemma_neighbours_sorted(regions, a, b);
        }
    }
    if regions_sorted(regions) {
        assert forall|i: int| 0 <= i && i + 1 < regions.len() implies (#[trigger] regions[i]).max()
            <= regions[i + 1].min() by {
            let next = regions[i + 1];
            assert(regions[i].max() <= next.min());
        }
    }
}

impl Selection {
    /// Whether the selection is well formed.
    pub fn check(&self) -> (r: bool)
        ensures
            r == self.wf(),
    {
        proof {
            lemma_sorted_iff_neighbours(self.regions@);
        }
        let n = self.regions.len();
        (self.last_inserted < n || (n == 0 && self.last_inserted == 0)) && neighbours_in_order(
            &self.regions,
        )
    }
}

} // verus!
