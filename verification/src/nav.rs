//! Navigation over lists of positions, file by file: the next position in a
//! file, then the next file, then round to the first.

use vstd::prelude::*;
use crate::path::{
    lemma_path_lt_asymmetric, lemma_path_lt_transitive, path_eq, path_less, path_lt, path_same,
};

verus! {

/// A line and character as a language server counts them.
#[derive(Clone, Copy, Debug, PartialEq, Eq, Structural)]
pub struct Position {
    pub line: u32,
    pub character: u32,
}

impl Position {
    /// `self` lies strictly behind `other`: on a later line, or later on the same line.
    pub open spec fn after(self, other: Position) -> bool {
        self.line > other.line || (self.line == other.line && self.character > other.character)
    }

    pub fn is_after(&self, other: &Position) -> (r: bool)
        ensures
            r == self.after(*other),
    {
        self.line > other.line || (self.line == other.line && self.character > other.character)
    }
}

/// The index of the first `true` in `marks` from `from` on.
pub open spec fn first_marked(marks: Seq<bool>, from: int) -> Option<int>
    decreases marks.len() - from,
{
    if from < 0 || from >= marks.len() {
        None
    } else if marks[from] {
        Some(from)
    } else {
        first_marked(marks, from + 1)
    }
}

/// Where the scan over `files` from index `from` on comes to rest: the index
/// of the file and of the position in it. Each file is given by its name and,
/// for each of its positions, whether it lies behind the current one. In the
/// file that `path` names the scan rests on the first position that does;
/// failing that, on the first position of a file whose path is ordered
/// after `path`. Paths are held against each other part by part.
pub open spec fn scan_files(files: Seq<(Seq<char>, Seq<bool>)>, path: Seq<char>, from: int) -> Option<
    (int, int),
>
    decreases files.len() - from,
{
    if from < 0 || from >= files.len() {
        None
    } else if path_eq(files[from].0, path) && first_marked(files[from].1, 0) is Some {
        Some((from, first_marked(files[from].1, 0)->0))
    } else if path_lt(path, files[from].0) {
        Some((from, 0))
    } else {
        scan_files(files, path, from + 1)
    }
}

/// The target of a step from `path`: where the scan rests, or the first
/// position of the first file when it finds nothing.
pub open spec fn next_target(files: Seq<(Seq<char>, Seq<bool>)>, path: Seq<char>) -> (int, int) {
    match scan_files(files, path, 0) {
        Some(t) => t,
        None => (0, 0),
    }
}

/// There is a file, and every listed file has a position.
pub open spec fn all_nonempty(files: Seq<(Seq<char>, Seq<bool>)>) -> bool {
    files.len() > 0 && forall|i: int| 0 <= i < files.len() ==> (#[trigger] files[i]).1.len() > 0
}

/// The files are listed in strictly ascending order of their paths.
pub open spec fn sorted_by_path(files: Seq<(Seq<char>, Seq<bool>)>) -> bool {
    forall|i: int, j: int|
        0 <= i < j < files.len() ==> path_lt((#[trigger] files[i]).0, (#[trigger] files[j]).0)
}

/// For each offset of `offsets`, whether it is greater than `offset`.
pub open spec fn greater_offsets(offsets: Seq<usize>, offset: usize) -> Seq<bool> {
    Seq::new(offsets.len(), |j: int| offsets[j] > offset)
}

/// For each position of `positions`, whether it lies behind `position`.
pub open spec fn later_positions(positions: Seq<Position>, position: Position) -> Seq<bool> {
    Seq::new(positions.len(), |j: int| positions[j].after(position))
}

/// Files with their offsets, each offset marked as greater than `offset` or not.
pub open spec fn marked_offsets(files: Seq<(Seq<char>, Seq<usize>)>, offset: usize) -> Seq<
    (Seq<char>, Seq<bool>),
> {
    Seq::new(files.len(), |i: int| (files[i].0, greater_offsets(files[i].1, offset)))
}

/// Files with their positions, each position marked as behind `position` or not.
pub open spec fn marked_positions(files: Seq<(Seq<char>, Seq<Position>)>, position: Position) -> Seq<
    (Seq<char>, Seq<bool>),
> {
    Seq::new(files.len(), |i: int| (files[i].0, later_positions(files[i].1, position)))
}

/// A list of files with their offsets, as a value of specifications.
pub open spec fn offset_files_view(files: Seq<(String, Vec<usize>)>) -> Seq<(Seq<char>, Seq<usize>)> {
    Seq::new(files.len(), |i: int| (files[i].0@, files[i].1@))
}

/// A list of files with their positions, as a value of specifications.
pub open spec fn position_files_view(files: Seq<(String, Vec<Position>)>) -> Seq<
    (Seq<char>, Seq<Position>),
> {
    Seq::new(files.len(), |i: int| (files[i].0@, files[i].1@))
}

/// The files of a list of changes, each offset marked as greater than `offset` or not.
pub open spec fn diff_files(files: Seq<(String, Vec<usize>)>, offset: usize) -> Seq<
    (Seq<char>, Seq<bool>),
> {
    marked_offsets(offset_files_view(files), offset)
}

/// The files of a list of errors, each position marked as behind `position` or not.
pub open spec fn error_files(files: Seq<(String, Vec<Position>)>, position: Position) -> Seq<
    (Seq<char>, Seq<bool>),
> {
    marked_positions(position_files_view(files), position)
}

/// The names of a list of entries.
pub open spec fn names_of<T>(items: Seq<(String, T)>) -> Seq<Seq<char>> {
    Seq::new(items.len(), |i: int| items[i].0@)
}

/// The place at which a name goes into names that are listed in the order
/// `order`: behind every one from `from` on that is not ordered after it.
pub open spec fn order_place(names: Seq<Seq<char>>, order: Seq<int>, name: Seq<char>, from: int) -> int
    decreases order.len() - from,
{
    if from < 0 || from >= order.len() {
        order.len() as int
    } else if 0 <= order[from] < names.len() && path_lt(name, names[order[from]]) {
        from
    } else {
        order_place(names, order, name, from + 1)
    }
}

/// The indices of the first `n` names in the order of the names; names
/// that are alike keep their order.
pub open spec fn sort_order(names: Seq<Seq<char>>, n: int) -> Seq<int>
    decreases n,
{
    if n <= 0 || n > names.len() {
        Seq::empty()
    } else {
        let order = sort_order(names, n - 1);
        order.insert(order_place(names, order, names[n - 1], 0), n - 1)
    }
}

/// The order of `n` names lists `n` indices, each below `n`.
pub proof fn lemma_sort_order(names: Seq<Seq<char>>, n: int)
    requires
        0 <= n <= names.len(),
    ensures
        sort_order(names, n).len() == n,
        forall|j: int| 0 <= j < n ==> 0 <= #[trigger] sort_order(names, n)[j] < n,
    decreases n,
{
    if n > 0 {
        lemma_sort_order(names, n - 1);
        let order = sort_order(names, n - 1);
        lemma_order_place(names, order, names[n - 1], 0);
        let p = order_place(names, order, names[n - 1], 0);
        let next = order.insert(p, n - 1);
        assert forall|j: int| 0 <= j < n implies 0 <= #[trigger] next[j] < n by {
            if j < p {
                assert(next[j] == order[j]);
            } else if j > p {
                assert(next[j] == order[j - 1]);
            }
        }
    }
}

/// A place lies in the list or at its end.
pub proof fn lemma_order_place(names: Seq<Seq<char>>, order: Seq<int>, name: Seq<char>, from: int)
    requires
        0 <= from <= order.len(),
    ensures
        from <= order_place(names, order, name, from) <= order.len(),
    decreases order.len() - from,
{
    if from < order.len() && !(0 <= order[from] < names.len() && path_lt(name, names[order[from]])) {
        lemma_order_place(names, order, name, from + 1);
    }
}

/// `out` lists the entries of `items` in the order `order`.
pub open spec fn listed_in_order<T>(out: Seq<T>, items: Seq<T>, order: Seq<int>) -> bool {
    out.len() == order.len() && forall|j: int|
        0 <= j < order.len() ==> 0 <= #[trigger] order[j] < items.len() && out[j]
            == items[order[j]]
}

/// Sorts `items` by name, the names taken as paths: the result lists them
/// in the order of their names, and names that are alike keep their order.
pub fn sort_by_name<T>(items: Vec<(String, T)>) -> (r: Vec<(String, T)>)
    ensures
        r@.len() == items@.len(),
        listed_in_order(r@, items@, sort_order(names_of(items@), items@.len() as int)),
{
    let n = items.len();
    let ghost names = names_of(items@);
    let mut rest = items;
    let mut out: Vec<(String, T)> = Vec::new();
    let mut k: usize = 0;
    while rest.len() > 0
        invariant
            k + rest@.len() == n,
            n == items@.len(),
            names == names_of(items@),
            rest@ == items@.skip(k as int),
            out@.len() == k,
            listed_in_order(out@, items@, sort_order(names, k as int)),
        decreases rest@.len(),
    {
        let ghost order = sort_order(names, k as int);
        let x = rest.remove(0);
        assert(x == items@[k as int]);
        assert(rest@ =~= items@.skip(k + 1));
        assert(names[k as int] == x.0@);
        let mut i: usize = 0;
        while i < out.len() && !path_less(x.0.as_str(), out[i].0.as_str())
            invariant
                i <= out@.len(),
                out@.len() == k,
                k < n,
                n == items@.len(),
                names == names_of(items@),
                listed_in_order(out@, items@, order),
                order_place(names, order, x.0@, 0) == order_place(names, order, x.0@, i as int),
            decreases out@.len() - i,
        {
            assert(0 <= order[i as int] < items@.len());
            assert(names[order[i as int]] == out@[i as int].0@);
            i += 1;
        }
        proof {
            if i < out@.len() {
                assert(0 <= order[i as int] < items@.len());
                assert(names[order[i as int]] == out@[i as int].0@);
            }
            assert(order_place(names, order, x.0@, 0) == i);
        }
        let ghost before = out@;
        out.insert(i, x);
        proof {
            let next = sort_order(names, k + 1);
            assert(next == order.insert(i as int, k as int));
            assert forall|j: int| 0 <= j < next.len() implies 0 <= #[trigger] next[j] < items@.len()
                && out@[j] == items@[next[j]] by {
                if j < i {
                    assert(out@[j] == before[j]);
                    assert(next[j] == order[j]);
                } else if j > i {
                    assert(out@[j] == before[j - 1]);
                    assert(next[j] == order[j - 1]);
                }
            }
        }
        k += 1;
    }
    out
}

/// What `first_marked` finds is the first mark at or after `from`.
pub proof fn lemma_first_marked(marks: Seq<bool>, from: int)
    requires
        0 <= from,
    ensures
        first_marked(marks, from) matches Some(j) ==> from <= j < marks.len() && marks[j]
            && forall|k: int| from <= k < j ==> !marks[k],
        first_marked(marks, from) is None ==> forall|k: int| from <= k < marks.len() ==> !marks[k],
    decreases marks.len() - from,
{
    if from < marks.len() {
        lemma_first_marked(marks, from + 1);
    }
}

proof fn lemma_scan_in_range(files: Seq<(Seq<char>, Seq<bool>)>, path: Seq<char>, from: int)
    requires
        all_nonempty(files),
    ensures
        scan_files(files, path, from) matches Some(t) ==> from <= t.0 < files.len() && 0 <= t.1
            < files[t.0].1.len(),
    decreases files.len() - from,
{
    if 0 <= from < files.len() {
        lemma_first_marked(files[from].1, 0);
        lemma_scan_in_range(files, path, from + 1);
    }
}

/// The target of a step lies in the list.
pub proof fn lemma_next_target_in_range(files: Seq<(Seq<char>, Seq<bool>)>, path: Seq<char>)
    requires
        all_nonempty(files),
    ensures
        0 <= next_target(files, path).0 < files.len(),
        0 <= next_target(files, path).1 < files[next_target(files, path).0].1.len(),
{
    lemma_scan_in_range(files, path, 0);
}

proof fn lemma_scan_sorted(files: Seq<(Seq<char>, Seq<bool>)>, k: int, from: int)
    requires
        sorted_by_path(files),
        0 <= k < files.len(),
        0 <= from <= k,
    ensures
        scan_files(files, files[k].0, from) == (match first_marked(files[k].1, 0) {
            Some(j) => Some((k, j)),
            None => if k + 1 < files.len() {
                Some((k + 1, 0int))
            } else {
                None
            },
        }),
    decreases k - from,
{
    let path = files[k].0;
    if from < k {
        lemma_path_lt_asymmetric(files[from].0, path);
        lemma_scan_sorted(files, k, from + 1);
    } else {
        lemma_path_lt_asymmetric(path, path);
        if first_marked(files[k].1, 0) is None {
            if k + 1 < files.len() {
                lemma_path_lt_asymmetric(path, files[k + 1].0);
                assert(scan_files(files, path, k + 1) == Some((k + 1, 0int)));
            } else {
                assert(scan_files(files, path, k + 1) is None);
            }
        }
    }
}

/// In a list sorted by name, a step from the file at index `k` stays in that
/// file while it has a position behind the current one, and takes the first
/// such; else it goes to the first position of the file listed next; from the
/// last file it goes round to the first position of the first file.
pub proof fn lemma_next_in_sorted(files: Seq<(Seq<char>, Seq<bool>)>, k: int)
    requires
        sorted_by_path(files),
        0 <= k < files.len(),
    ensures
        next_target(files, files[k].0) == (match first_marked(files[k].1, 0) {
            Some(j) => (k, j),
            None => if k + 1 < files.len() {
                (k + 1, 0int)
            } else {
                (0int, 0int)
            },
        }),
{
    lemma_scan_sorted(files, k, 0);
}

/// A scan for a file that is not listed rests on the first position of the
/// first file ordered after it, and finds nothing when there is none.
pub proof fn lemma_scan_unlisted(files: Seq<(Seq<char>, Seq<bool>)>, path: Seq<char>, from: int)
    requires
        forall|i: int| 0 <= i < files.len() ==> !path_eq((#[trigger] files[i]).0, path),
        0 <= from <= files.len(),
    ensures
        scan_files(files, path, from) matches Some(t) ==> t.1 == 0 && from <= t.0 < files.len()
            && path_lt(path, files[t.0].0) && forall|i: int|
            from <= i < t.0 ==> !path_lt(path, (#[trigger] files[i]).0),
        scan_files(files, path, from) is None ==> forall|i: int|
            from <= i < files.len() ==> !path_lt(path, (#[trigger] files[i]).0),
    decreases files.len() - from,
{
    if from < files.len() {
        lemma_scan_unlisted(files, path, from + 1);
    }
}

/// The index of the first offset of `offsets` greater than `offset`.
pub fn first_greater_offset(offsets: &Vec<usize>, offset: usize) -> (r: Option<usize>)
    ensures
        match r {
            Some(j) => first_marked(greater_offsets(offsets@, offset), 0) == Some(j as int),
            None => first_marked(greater_offsets(offsets@, offset), 0) is None,
        },
{
    let ghost marks = greater_offsets(offsets@, offset);
    let mut j: usize = 0;
    while j < offsets.len()
        invariant
            j <= offsets.len(),
            marks == greater_offsets(offsets@, offset),
            first_marked(marks, 0) == first_marked(marks, j as int),
        decreases offsets.len() - j,
    {
        if offsets[j] > offset {
            return Some(j);
        }
        j += 1;
    }
    None
}

/// The index of the first position of `positions` that lies behind `position`.
pub fn first_later_position(positions: &Vec<Position>, position: Position) -> (r: Option<usize>)
    ensures
        match r {
            Some(j) => first_marked(later_positions(positions@, position), 0) == Some(j as int),
            None => first_marked(later_positions(positions@, position), 0) is None,
        },
{
    let ghost marks = later_positions(positions@, position);
    let mut j: usize = 0;
    while j < positions.len()
        invariant
            j <= positions.len(),
            marks == later_positions(positions@, position),
            first_marked(marks, 0) == first_marked(marks, j as int),
        decreases positions.len() - j,
    {
        if positions[j].is_after(&position) {
            return Some(j);
        }
        j += 1;
    }
    None
}

/// The next change after `offset` in the file `path`: the first listed offset
/// of that file greater than `offset`, else the first offset of the next file
/// by name, else the first offset of the first file.
pub fn next_in_file_diff_offset(
    offset: usize,
    path: &str,
    file_diffs: &[(String, Vec<usize>)],
) -> (r: (String, usize))
    requires
        all_nonempty(diff_files(file_diffs@, offset)),
    ensures
        ({
            let t = next_target(diff_files(file_diffs@, offset), path@);
            &&& 0 <= t.0 < file_diffs@.len()
            &&& 0 <= t.1 < file_diffs@[t.0].1@.len()
            &&& r.0@ == file_diffs@[t.0].0@
            &&& r.1 == file_diffs@[t.0].1@[t.1]
        }),
{
    let ghost files = diff_files(file_diffs@, offset);
    proof {
        lemma_next_target_in_range(files, path@);
    }
    let mut i: usize = 0;
    while i < file_diffs.len()
        invariant
            i <= file_diffs.len(),
            files == diff_files(file_diffs@, offset),
            all_nonempty(files),
            scan_files(files, path@, 0) == scan_files(files, path@, i as int),
        decreases file_diffs.len() - i,
    {
        let current_path = &file_diffs[i].0;
        let offsets = &file_diffs[i].1;
        assert(offset_files_view(file_diffs@)[i as int] == (current_path@, offsets@));
        assert(files[i as int] == (current_path@, greater_offsets(offsets@, offset)));
        if path_same(path, current_path.as_str()) {
            if let Some(j) = first_greater_offset(offsets, offset) {
                proof {
                    lemma_first_marked(greater_offsets(offsets@, offset), 0);
                }
                return (current_path.clone(), offsets[j]);
            }
        }
        if path_less(path, current_path.as_str()) {
            return (current_path.clone(), offsets[0]);
        }
        i += 1;
    }
    assert(files[0].1.len() > 0);
    (file_diffs[0].0.clone(), file_diffs[0].1[0])
}

/// The next error after `position` in the file `path`: the first listed
/// position of that file behind `position`, else the first position of the
/// next file by name, else the first position of the first file.
pub fn next_in_file_errors_offset(
    position: Position,
    path: &str,
    file_diagnostics: &[(String, Vec<Position>)],
) -> (r: (String, Position))
    requires
        all_nonempty(error_files(file_diagnostics@, position)),
    ensures
        ({
            let t = next_target(error_files(file_diagnostics@, position), path@);
            &&& 0 <= t.0 < file_diagnostics@.len()
            &&& 0 <= t.1 < file_diagnostics@[t.0].1@.len()
            &&& r.0@ == file_diagnostics@[t.0].0@
            &&& r.1 == file_diagnostics@[t.0].1@[t.1]
        }),
{
    let ghost files = error_files(file_diagnostics@, position);
    proof {
        lemma_next_target_in_range(files, path@);
    }
    let mut i: usize = 0;
    while i < file_diagnostics.len()
        invariant
            i <= file_diagnostics.len(),
            files == error_files(file_diagnostics@, position),
            all_nonempty(files),
            scan_files(files, path@, 0) == scan_files(files, path@, i as int),
        decreases file_diagnostics.len() - i,
    {
        let current_path = &file_diagnostics[i].0;
        let positions = &file_diagnostics[i].1;
        assert(position_files_view(file_diagnostics@)[i as int] == (current_path@, positions@));
        assert(files[i as int] == (current_path@, later_positions(positions@, position)));
        if path_same(path, current_path.as_str()) {
            if let Some(j) = first_later_position(positions, position) {
                proof {
                    lemma_first_marked(later_positions(positions@, position), 0);
                }
                return (current_path.clone(), positions[j]);
            }
        }
        if path_less(path, current_path.as_str()) {
            return (current_path.clone(), positions[0]);
        }
        i += 1;
    }
    assert(files[0].1.len() > 0);
    (file_diagnostics[0].0.clone(), file_diagnostics[0].1[0])
}


/// Whether there is a file, and every listed file has an offset.
pub fn diff_files_usable(file_diffs: &[(String, Vec<usize>)], offset: usize) -> (r: bool)
    ensures
        r == all_nonempty(diff_files(file_diffs@, offset)),
{
    let ghost files = diff_files(file_diffs@, offset);
    if file_diffs.len() == 0 {
        return false;
    }
    let mut i: usize = 0;
    while i < file_diffs.len()
        invariant
            i <= file_diffs@.len(),
            files == diff_files(file_diffs@, offset),
            forall|k: int| 0 <= k < i ==> (#[trigger] files[k]).1.len() > 0,
        decreases file_diffs@.len() - i,
    {
        assert(files[i as int].1.len() == file_diffs@[i as int].1@.len());
        if file_diffs[i].1.len() == 0 {
            return false;
        }
        i += 1;
    }
    true
}

/// Whether there is a file, and every listed file has a position.
pub fn error_files_usable(file_diagnostics: &[(String, Vec<Position>)], position: Position) -> (r:
    bool)
    ensures
        r == all_nonempty(error_files(file_diagnostics@, position)),
{
    let ghost files = error_files(file_diagnostics@, position);
    if file_diagnostics.len() == 0 {
        return false;
    }
    let mut i: usize = 0;
    while i < file_diagnostics.len()
        invariant
            i <= file_diagnostics@.len(),
            files == error_files(file_diagnostics@, position),
            forall|k: int| 0 <= k < i ==> (#[trigger] files[k]).1.len() > 0,
        decreases file_diagnostics@.len() - i,
    {
        assert(files[i as int].1.len() == file_diagnostics@[i as int].1@.len());
        if file_diagnostics[i].1.len() == 0 {
            return false;
        }
        i += 1;
    }
    true
}


/// Whether the names, taken in the order `order`, ascend: no later name
/// is ordered before an earlier one.
pub open spec fn names_ascend(names: Seq<Seq<char>>, order: Seq<int>) -> bool {
    forall|a: int, b: int|
        0 <= a < b < order.len() ==> !path_lt(
            names[#[trigger] order[b]],
            names[#[trigger] order[a]],
        )
}

/// What `order_place` finds: no name in front of the place is ordered
/// after `name`, and the name at the place is.
pub proof fn lemma_order_place_found(
    names: Seq<Seq<char>>,
    order: Seq<int>,
    name: Seq<char>,
    from: int,
)
    requires
        0 <= from <= order.len(),
        forall|j: int| 0 <= j < order.len() ==> 0 <= #[trigger] order[j] < names.len(),
    ensures
        forall|j: int|
            from <= j < order_place(names, order, name, from) ==> !path_lt(
                name,
                names[#[trigger] order[j]],
            ),
        order_place(names, order, name, from) < order.len() ==> path_lt(
            name,
            names[order[order_place(names, order, name, from)]],
        ),
    decreases order.len() - from,
{
    if from < order.len() && !path_lt(name, names[order[from]]) {
        lemma_order_place_found(names, order, name, from + 1);
    }
}

/// The order in which names are sorted lists each index once, and the
/// names ascend in it.
pub proof fn lemma_sort_order_ascends(names: Seq<Seq<char>>, n: int)
    requires
        0 <= n <= names.len(),
    ensures
        names_ascend(names, sort_order(names, n)),
        sort_order(names, n).to_multiset() == Seq::new(n as nat, |i: int| i).to_multiset(),
    decreases n,
{
    lemma_sort_order(names, n);
    if n == 0 {
        assert(sort_order(names, 0) =~= Seq::new(0, |i: int| i));
    } else {
        lemma_sort_order_ascends(names, n - 1);
        lemma_sort_order(names, n - 1);
        let prev = sort_order(names, n - 1);
        let x = names[n - 1];
        lemma_order_place(names, prev, x, 0);
        lemma_order_place_found(names, prev, x, 0);
        let p = order_place(names, prev, x, 0);
        let next = prev.insert(p, n - 1);
        vstd::seq_lib::to_multiset_insert(prev, p, n - 1);
        vstd::seq_lib::to_multiset_build(Seq::new((n - 1) as nat, |i: int| i), n - 1);
        assert(Seq::new(n as nat, |i: int| i) =~= Seq::new((n - 1) as nat, |i: int| i).push(n - 1));
        assert forall|a: int, b: int| 0 <= a < b < next.len() implies !path_lt(
            names[#[trigger] next[b]],
            names[#[trigger] next[a]],
        ) by {
            if b < p {
                assert(next[a] == prev[a] && next[b] == prev[b]);
            } else if b == p {
                assert(next[a] == prev[a]);
                lemma_path_lt_asymmetric(x, names[prev[a]]);
            } else if a < p {
                assert(next[a] == prev[a] && next[b] == prev[b - 1]);
            } else if a == p {
                assert(next[b] == prev[b - 1]);
                assert(path_lt(x, names[prev[p]]));
                if b - 1 > p {
                    assert(!path_lt(names[prev[b - 1]], names[prev[p]]));
                }
                if path_lt(names[prev[b - 1]], x) {
                    lemma_path_lt_transitive(names[prev[b - 1]], x, names[prev[p]]);
                    lemma_path_lt_asymmetric(names[prev[p]], names[prev[p]]);
                }
            } else {
                assert(next[a] == prev[a - 1] && next[b] == prev[b - 1]);
            }
        }
    }
}

} // verus!
