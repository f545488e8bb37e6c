//! The order of file paths: part by part, not letter by letter. A path is
//! read as the parts between its separators `/`, and two paths are held
//! against each other part for part, so that `src/a.rs` comes before
//! `src-x/a.rs` although `-` comes before `/` among the letters.

use vstd::prelude::*;
use vstd::slice::*;
use vstd::string::StringSliceAdditionalSpecFns;
use vstd::utf8::encode_utf8;
use crate::text::{
    bytes_less, bytes_lt, bytes_same, lemma_bytes_lt_asymmetric, lemma_bytes_lt_total,
    lemma_bytes_lt_transitive,
};

verus! {

/// One part of a path.
#[derive(Debug)]
pub enum PathPart {
    /// The root, for a path that begins with a separator.
    Root,
    /// The directory itself: a `.` at the very start of the path.
    Current,
    /// The directory above: `..`.
    Parent,
    /// A name, by its bytes.
    Normal(Vec<u8>),
}

/// A part of a path as a value of specifications.
pub enum PartView {
    Root,
    Current,
    Parent,
    Normal(Seq<u8>),
}

impl View for PathPart {
    type V = PartView;

    open spec fn view(&self) -> PartView {
        match self {
            PathPart::Root => PartView::Root,
            PathPart::Current => PartView::Current,
            PathPart::Parent => PartView::Parent,
            PathPart::Normal(name) => PartView::Normal(name@),
        }
    }
}

/// The parts as values of specifications.
pub open spec fn parts_view(parts: Seq<PathPart>) -> Seq<PartView> {
    Seq::new(parts.len(), |i: int| parts[i]@)
}

/// The byte of the separator `/`.
pub open spec fn separator() -> u8 {
    47
}

/// The byte of the dot.
pub open spec fn dot() -> u8 {
    46
}

/// The part that the stretch `segment` between two separators stands
/// for, if any. An empty stretch stands for nothing, and so does a single
/// dot unless it begins the path (`leading`). Two dots stand for the
/// directory above; anything else is a name.
pub open spec fn part_of(segment: Seq<u8>, leading: bool) -> Seq<PartView> {
    if segment.len() == 0 {
        Seq::empty()
    } else if segment.len() == 1 && segment[0] == dot() {
        if leading {
            seq![PartView::Current]
        } else {
            Seq::empty()
        }
    } else if segment.len() == 2 && segment[0] == dot() && segment[1] == dot() {
        seq![PartView::Parent]
    } else {
        seq![PartView::Normal(segment)]
    }
}

/// The parts of `s` from `pos` on, where the stretch that holds `pos`
/// began at `start`.
pub open spec fn parts_from(s: Seq<u8>, pos: int, start: int, leading: bool) -> Seq<PartView>
    decreases s.len() - pos,
{
    if pos < 0 || start < 0 || start > pos || pos >= s.len() {
        if 0 <= start <= pos <= s.len() {
            part_of(s.subrange(start, pos), leading)
        } else {
            Seq::empty()
        }
    } else if s[pos] == separator() {
        part_of(s.subrange(start, pos), leading) + parts_from(s, pos + 1, pos + 1, false)
    } else {
        parts_from(s, pos + 1, start, leading)
    }
}

/// The parts of the path written in the bytes `s`: the root where it
/// begins with a separator, then what stands between the separators.
pub open spec fn parts_of_bytes(s: Seq<u8>) -> Seq<PartView> {
    if s.len() > 0 && s[0] == separator() {
        seq![PartView::Root] + parts_from(s, 1, 1, false)
    } else {
        parts_from(s, 0, 0, true)
    }
}

/// The parts of the path `path`.
pub open spec fn path_parts(path: Seq<char>) -> Seq<PartView> {
    parts_of_bytes(encode_utf8(path))
}

/// The rank of a part among the kinds of parts: the root first, names
/// last.
pub open spec fn part_rank(part: PartView) -> int {
    match part {
        PartView::Root => 0,
        PartView::Current => 1,
        PartView::Parent => 2,
        PartView::Normal(_) => 3,
    }
}

/// The order of parts: by kind, and names among themselves byte by byte.
pub open spec fn part_lt(a: PartView, b: PartView) -> bool {
    part_rank(a) < part_rank(b) || (a is Normal && b is Normal && bytes_lt(a->Normal_0, b->Normal_0))
}

/// The order of lists of parts: by the first part in which they differ; a
/// list comes before every longer one that begins with it.
pub open spec fn parts_lt(a: Seq<PartView>, b: Seq<PartView>) -> bool
    decreases a.len(),
{
    if b.len() == 0 {
        false
    } else if a.len() == 0 {
        true
    } else if a[0] != b[0] {
        part_lt(a[0], b[0])
    } else {
        parts_lt(a.skip(1), b.skip(1))
    }
}

/// The order of paths: `a` comes strictly before `b`.
pub open spec fn path_lt(a: Seq<char>, b: Seq<char>) -> bool {
    parts_lt(path_parts(a), path_parts(b))
}

/// Two paths name the same file: they have the same parts.
pub open spec fn path_eq(a: Seq<char>, b: Seq<char>) -> bool {
    path_parts(a) == path_parts(b)
}

/// No part comes before itself, and of two parts at most one comes first.
pub proof fn lemma_part_lt_asymmetric(a: PartView, b: PartView)
    ensures
        !(part_lt(a, b) && part_lt(b, a)),
        a == b ==> !part_lt(a, b),
{
    if a is Normal && b is Normal {
        lemma_bytes_lt_asymmetric(a->Normal_0, b->Normal_0);
    }
}

/// Of two different parts one comes before the other.
pub proof fn lemma_part_lt_total(a: PartView, b: PartView)
    ensures
        a == b || part_lt(a, b) || part_lt(b, a),
{
    if a is Normal && b is Normal {
        lemma_bytes_lt_total(a->Normal_0, b->Normal_0);
    }
}

/// The order of parts is transitive.
pub proof fn lemma_part_lt_transitive(a: PartView, b: PartView, c: PartView)
    requires
        part_lt(a, b),
        part_lt(b, c),
    ensures
        part_lt(a, c),
{
    if a is Normal && b is Normal && c is Normal {
        lemma_bytes_lt_transitive(a->Normal_0, b->Normal_0, c->Normal_0);
    }
}

/// No list of parts comes before itself, and of two at most one comes
/// first.
pub proof fn lemma_parts_lt_asymmetric(a: Seq<PartView>, b: Seq<PartView>)
    ensures
        !(parts_lt(a, b) && parts_lt(b, a)),
        a == b ==> !parts_lt(a, b),
    decreases a.len(),
{
    if a.len() > 0 && b.len() > 0 {
        if a[0] == b[0] {
            lemma_parts_lt_asymmetric(a.skip(1), b.skip(1));
            if a == b {
                assert(a.skip(1) == b.skip(1));
            }
        } else {
            lemma_part_lt_asymmetric(a[0], b[0]);
        }
    }
}

/// The order of lists of parts is transitive.
pub proof fn lemma_parts_lt_transitive(a: Seq<PartView>, b: Seq<PartView>, c: Seq<PartView>)
    requires
        parts_lt(a, b),
        parts_lt(b, c),
    ensures
        parts_lt(a, c),
    decreases a.len(),
{
    if a.len() > 0 {
        if a[0] == b[0] && b[0] == c[0] {
            lemma_parts_lt_transitive(a.skip(1), b.skip(1), c.skip(1));
        } else if a[0] != b[0] && b[0] != c[0] {
            lemma_part_lt_transitive(a[0], b[0], c[0]);
            lemma_part_lt_asymmetric(a[0], b[0]);
        }
    }
}

/// Of two different lists of parts one comes before the other.
pub proof fn lemma_parts_lt_total(a: Seq<PartView>, b: Seq<PartView>)
    ensures
        a == b || parts_lt(a, b) || parts_lt(b, a),
    decreases a.len(),
{
    if a.len() > 0 && b.len() > 0 {
        if a[0] == b[0] {
            lemma_parts_lt_total(a.skip(1), b.skip(1));
            if a.skip(1) == b.skip(1) {
                assert(a =~= seq![a[0]] + a.skip(1));
                assert(b =~= seq![b[0]] + b.skip(1));
            }
        } else {
            lemma_part_lt_total(a[0], b[0]);
        }
    } else if a.len() == 0 && b.len() == 0 {
        assert(a =~= b);
    }
}

/// The order of paths is a strict one: no path comes before one that
/// names the same file, and of two paths at most one comes first.
pub proof fn lemma_path_lt_asymmetric(a: Seq<char>, b: Seq<char>)
    ensures
        !(path_lt(a, b) && path_lt(b, a)),
        path_eq(a, b) ==> !path_lt(a, b) && !path_lt(b, a),
{
    lemma_parts_lt_asymmetric(path_parts(a), path_parts(b));
    lemma_parts_lt_asymmetric(path_parts(b), path_parts(a));
}

/// The order of paths is transitive.
pub proof fn lemma_path_lt_transitive(a: Seq<char>, b: Seq<char>, c: Seq<char>)
    requires
        path_lt(a, b),
        path_lt(b, c),
    ensures
        path_lt(a, c),
{
    lemma_parts_lt_transitive(path_parts(a), path_parts(b), path_parts(c));
}

/// Of two paths that name different files one comes before the other.
pub proof fn lemma_path_lt_total(a: Seq<char>, b: Seq<char>)
    ensures
        path_eq(a, b) || path_lt(a, b) || path_lt(b, a),
{
    lemma_parts_lt_total(path_parts(a), path_parts(b));
}

/// The bytes of `bytes` from `from` up to `to`.
fn copy_range(bytes: &[u8], from: usize, to: usize) -> (r: Vec<u8>)
    requires
        from <= to <= bytes@.len(),
    ensures
        r@ == bytes@.subrange(from as int, to as int),
{
    let mut out: Vec<u8> = Vec::new();
    let mut i: usize = from;
    while i < to
        invariant
            from <= i <= to <= bytes@.len(),
            out@ == bytes@.subrange(from as int, i as int),
        decreases to - i,
    {
        out.push(bytes[i]);
        assert(out@ =~= bytes@.subrange(from as int, i + 1));
        i += 1;
    }
    out
}

/// Adds the part that the stretch of `bytes` from `start` up to `end`
/// stands for, if any.
fn push_part(out: &mut Vec<PathPart>, bytes: &[u8], start: usize, end: usize, leading: bool)
    requires
        start <= end <= bytes@.len(),
    ensures
        parts_view(final(out)@) == parts_view(old(out)@) + part_of(
            bytes@.subrange(start as int, end as int),
            leading,
        ),
{
    let ghost before = parts_view(out@);
    let n = end - start;
    let ghost segment = bytes@.subrange(start as int, end as int);
    if n == 0 {
        assert(parts_view(out@) =~= before + part_of(segment, leading));
    } else if n == 1 && bytes[start] == 46 {
        assert(segment[0] == bytes@[start as int]);
        if leading {
            out.push(PathPart::Current);
        }
        assert(parts_view(out@) =~= before + part_of(segment, leading));
    } else if n == 2 && bytes[start] == 46 && bytes[start + 1] == 46 {
        assert(segment[0] == bytes@[start as int]);
        assert(segment[1] == bytes@[start + 1]);
        out.push(PathPart::Parent);
        assert(parts_view(out@) =~= before + part_of(segment, leading));
    } else {
        assert(segment[0] == bytes@[start as int]);
        if n == 2 {
            assert(segment[1] == bytes@[start + 1]);
        }
        out.push(PathPart::Normal(copy_range(bytes, start, end)));
        assert(parts_view(out@) =~= before + part_of(segment, leading));
    }
}

/// Reads the parts of `path`.
pub fn parts_of(path: &str) -> (r: Vec<PathPart>)
    ensures
        parts_view(r@) == path_parts(path@),
{
    let bytes = path.as_bytes();
    let ghost s = bytes@;
    let n = bytes.len();
    let mut out: Vec<PathPart> = Vec::new();
    let mut start: usize = 0;
    let mut leading = true;
    if n > 0 && bytes[0] == 47 {
        out.push(PathPart::Root);
        start = 1;
        leading = false;
        assert(parts_view(out@) =~= seq![PartView::Root]);
    } else {
        assert(parts_view(out@) =~= Seq::empty());
    }
    let mut pos: usize = start;
    while pos < n
        invariant
            s == bytes@,
            s == encode_utf8(path@),
            n == s.len(),
            start <= pos <= n,
            path_parts(path@) == parts_view(out@) + parts_from(s, pos as int, start as int, leading),
        decreases n - pos,
    {
        if bytes[pos] == 47 {
            let ghost before = parts_view(out@);
            push_part(&mut out, bytes, start, pos, leading);
            assert(before + (part_of(s.subrange(start as int, pos as int), leading) + parts_from(
                s,
                pos + 1,
                pos + 1,
                false,
            )) =~= parts_view(out@) + parts_from(s, pos + 1, pos + 1, false));
            start = pos + 1;
            leading = false;
        }
        pos += 1;
    }
    let ghost before = parts_view(out@);
    push_part(&mut out, bytes, start, n, leading);
    out
}

/// Whether two parts are the same.
pub fn part_same(a: &PathPart, b: &PathPart) -> (r: bool)
    ensures
        r == (a@ == b@),
{
    match (a, b) {
        (PathPart::Root, PathPart::Root) => true,
        (PathPart::Current, PathPart::Current) => true,
        (PathPart::Parent, PathPart::Parent) => true,
        (PathPart::Normal(x), PathPart::Normal(y)) => bytes_same(x.as_slice(), y.as_slice()),
        _ => false,
    }
}

/// Whether the part `a` is ordered strictly before the part `b`.
pub fn part_less(a: &PathPart, b: &PathPart) -> (r: bool)
    ensures
        r == part_lt(a@, b@),
{
    match (a, b) {
        (PathPart::Normal(x), PathPart::Normal(y)) => bytes_less(x.as_slice(), y.as_slice()),
        (_, PathPart::Root) => false,
        (PathPart::Root, _) => true,
        (_, PathPart::Current) => false,
        (PathPart::Current, _) => true,
        (_, PathPart::Parent) => false,
        (PathPart::Parent, _) => true,
    }
}

/// Whether the path `a` is ordered strictly before the path `b`.
pub fn path_less(a: &str, b: &str) -> (r: bool)
    ensures
        r == path_lt(a@, b@),
{
    let x = parts_of(a);
    let y = parts_of(b);
    let ghost xs = parts_view(x@);
    let ghost ys = parts_view(y@);
    let mut i: usize = 0;
    assert(xs.skip(0) =~= xs);
    assert(ys.skip(0) =~= ys);
    while i < x.len() && i < y.len()
        invariant
            i <= x@.len(),
            i <= y@.len(),
            xs == path_parts(a@),
            ys == path_parts(b@),
            xs == parts_view(x@),
            ys == parts_view(y@),
            parts_lt(xs, ys) == parts_lt(xs.skip(i as int), ys.skip(i as int)),
        decreases x@.len() - i,
    {
        assert(xs[i as int] == x@[i as int]@);
        assert(ys[i as int] == y@[i as int]@);
        assert(xs.skip(i as int)[0] == xs[i as int]);
        assert(ys.skip(i as int)[0] == ys[i as int]);
        if !part_same(&x[i], &y[i]) {
            return part_less(&x[i], &y[i]);
        }
        assert(xs.skip(i as int).skip(1) =~= xs.skip(i + 1));
        assert(ys.skip(i as int).skip(1) =~= ys.skip(i + 1));
        i += 1;
    }
    i < y.len()
}

/// Whether the paths `a` and `b` name the same file.
pub fn path_same(a: &str, b: &str) -> (r: bool)
    ensures
        r == path_eq(a@, b@),
{
    let x = parts_of(a);
    let y = parts_of(b);
    let ghost xs = parts_view(x@);
    let ghost ys = parts_view(y@);
    if x.len() != y.len() {
        assert(xs.len() != ys.len());
        return false;
    }
    let mut i: usize = 0;
    while i < x.len()
        invariant
            i <= x@.len(),
            x@.len() == y@.len(),
            xs == path_parts(a@),
            ys == path_parts(b@),
            xs == parts_view(x@),
            ys == parts_view(y@),
            forall|k: int| 0 <= k < i ==> xs[k] == ys[k],
        decreases x@.len() - i,
    {
        assert(xs[i as int] == x@[i as int]@);
        assert(ys[i as int] == y@[i as int]@);
        if !part_same(&x[i], &y[i]) {
            assert(xs[i as int] != ys[i as int]);
            return false;
        }
        i += 1;
    }
    assert(xs =~= ys);
    true
}

} // verus!
