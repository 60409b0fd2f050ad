//! The order in which findings are reported: by path and line, or by the
//! age of the commit that last touched them.
//!
//! Paths are compared component by component: the components are read
//! with `Path::components`, and two components compare by kind first (a
//! Windows prefix, the root, `.`, `..`, then names) and then by their bytes,
//! as `Component`'s derived order has it.

use vstd::prelude::*;

use std::path::{Component, Path};

use crate::cli::SortOrder;
use crate::matcher::{copy_finding, finding_views, Finding, FindingView};
use crate::text::bytes_eq;

verus! {

broadcast use vstd::seq_lib::to_multiset_insert;

// ── Three-way comparison ──────────────────────────────────────────────────────

/// `-1`, `0` or `1` as `a` is less than, equal to or greater than `b`.
pub open spec fn order_ints(a: int, b: int) -> int {
    if a < b {
        -1
    } else if a > b {
        1
    } else {
        0
    }
}

/// Whether `f` is a three-way comparison of a total order: it answers
/// `-1`, `0` or `1`, is antisymmetric, answers `0` only on equal values,
/// and is transitive.
pub open spec fn is_total_order<T>(f: spec_fn(T, T) -> int) -> bool {
    &&& forall|x: T, y: T| #[trigger] f(x, y) == -f(y, x)
    &&& forall|x: T, y: T| -1 <= #[trigger] f(x, y) <= 1
    &&& forall|x: T, y: T| #[trigger] f(x, y) == 0 <==> x == y
    &&& forall|x: T, y: T, z: T| #[trigger] f(x, y) <= 0 && #[trigger] f(y, z) <= 0 ==> f(x, z) <= 0
}

/// Lexicographic comparison of two sequences under `f`: the first
/// difference decides, and a proper prefix comes first.
pub open spec fn lex<T>(a: Seq<T>, b: Seq<T>, f: spec_fn(T, T) -> int) -> int
    decreases a.len(),
{
    if a.len() == 0 {
        if b.len() == 0 {
            0
        } else {
            -1
        }
    } else if b.len() == 0 {
        1
    } else if f(a[0], b[0]) != 0 {
        f(a[0], b[0])
    } else {
        lex(a.drop_first(), b.drop_first(), f)
    }
}

proof fn lemma_lex_antisymmetric<T>(a: Seq<T>, b: Seq<T>, f: spec_fn(T, T) -> int)
    requires
        is_total_order(f),
    ensures
        lex(a, b, f) == -lex(b, a, f),
        -1 <= lex(a, b, f) <= 1,
        lex(a, b, f) == 0 <==> a == b,
    decreases a.len(),
{
    if a.len() > 0 && b.len() > 0 {
        assert(f(a[0], b[0]) == -f(b[0], a[0]));
        assert(-1 <= f(a[0], b[0]) <= 1);
        lemma_lex_antisymmetric(a.drop_first(), b.drop_first(), f);
        if f(a[0], b[0]) == 0 && a.drop_first() == b.drop_first() {
            assert(a =~= b) by {
                assert forall|i: int| 0 <= i < a.len() implies a[i] == b[i] by {
                    if i > 0 {
                        assert(a[i] == a.drop_first()[i - 1]);
                        assert(b[i] == b.drop_first()[i - 1]);
                    }
                }
            }
        }
        if a == b {
            assert(f(a[0], b[0]) == 0);
            assert(a.drop_first() == b.drop_first());
        }
    } else if a.len() == 0 && b.len() == 0 {
        assert(a =~= b);
    }
}

proof fn lemma_lex_transitive<T>(a: Seq<T>, b: Seq<T>, c: Seq<T>, f: spec_fn(T, T) -> int)
    requires
        is_total_order(f),
        lex(a, b, f) <= 0,
        lex(b, c, f) <= 0,
    ensures
        lex(a, c, f) <= 0,
    decreases a.len(),
{
    if a.len() > 0 && b.len() > 0 && c.len() > 0 {
        let (x, y, z) = (a[0], b[0], c[0]);
        assert(f(x, y) == -f(y, x) && f(y, z) == -f(z, y) && f(x, z) == -f(z, x));
        assert(-1 <= f(x, y) <= 1 && -1 <= f(y, z) <= 1 && -1 <= f(x, z) <= 1);
        assert(f(x, y) <= 0);
        assert(f(y, z) <= 0);
        assert(f(x, z) <= 0);
        if f(x, z) == 0 {
            assert(x == z);
            if f(x, y) != 0 {
                assert(f(y, x) > 0);
                assert(false);
            }
            assert(x == y);
            assert(f(y, z) == 0);
            lemma_lex_transitive(a.drop_first(), b.drop_first(), c.drop_first(), f);
        }
    }
}

/// Lexicographic comparison under a total order is a total order.
proof fn lemma_lex_total_order<T>(f: spec_fn(T, T) -> int)
    requires
        is_total_order(f),
    ensures
        is_total_order(|a: Seq<T>, b: Seq<T>| lex(a, b, f)),
{
    let g = |a: Seq<T>, b: Seq<T>| lex(a, b, f);
    assert forall|x: Seq<T>, y: Seq<T>| #[trigger] g(x, y) == -g(y, x) && -1 <= g(x, y) <= 1 && (g(x, y)
        == 0 <==> x == y) by {
        lemma_lex_antisymmetric(x, y, f);
    }
    assert forall|x: Seq<T>, y: Seq<T>, z: Seq<T>| #[trigger] g(x, y) <= 0 && #[trigger] g(y, z) <= 0 implies g(x, z) <= 0 by {
        lemma_lex_transitive(x, y, z, f);
    }
}

// ── Paths ─────────────────────────────────────────────────────────────────────

/// The components of the path `p` (`Path::components`), each as its kind
/// (0 a prefix, 1 the root, 2 `.`, 3 `..`, 4 a name) and its bytes.
pub uninterp spec fn path_components(p: Seq<char>) -> Seq<(u8, Seq<u8>)>;

/// The views of components as [`components_of`] hands them out.
pub open spec fn part_views(parts: Seq<(u8, Vec<u8>)>) -> Seq<(u8, Seq<u8>)> {
    parts.map_values(|x: (u8, Vec<u8>)| (x.0, x.1@))
}

/// Calls `Path::components` on `p` and hands each component out as its
/// kind (the position of its variant in `Component`) and its bytes: the
/// named [`path_components`] of `p`.
#[verifier::external_body]
pub(crate) fn components_of(p: &str) -> (r: Vec<(u8, Vec<u8>)>)
    ensures
        part_views(r@) == path_components(p@),
{
    Path::new(p).components().map(|c| match c {
        Component::Prefix(x) => (0u8, x.as_os_str().as_encoded_bytes().to_vec()),
        Component::RootDir => (1u8, Vec::new()),
        Component::CurDir => (2u8, Vec::new()),
        Component::ParentDir => (3u8, Vec::new()),
        Component::Normal(s) => (4u8, s.as_encoded_bytes().to_vec()),
    }).collect()
}

/// Whether the paths `a` and `b` are the same as `Path` compares them: by
/// their components, so that `a//b`, `a/./b` and `a/b/` are all `a/b`.
pub open spec fn same_path(a: Seq<char>, b: Seq<char>) -> bool {
    path_components(a) == path_components(b)
}

/// Whether `a` and `b` are the same path, compared by their components.
pub fn paths_equal(a: &str, b: &str) -> (r: bool)
    ensures
        r == same_path(a@, b@),
{
    let pa = components_of(a);
    let pb = components_of(b);
    let ghost va = part_views(pa@);
    let ghost vb = part_views(pb@);
    if pa.len() != pb.len() {
        assert(va.len() != vb.len());
        return false;
    }
    let mut i: usize = 0;
    while i < pa.len()
        invariant
            0 <= i <= pa@.len(),
            pa@.len() == pb@.len(),
            va == part_views(pa@),
            vb == part_views(pb@),
            va == path_components(a@),
            vb == path_components(b@),
            forall|j: int| 0 <= j < i ==> va[j] == vb[j],
        decreases pa@.len() - i,
    {
        assert(va[i as int] == (pa@[i as int].0, pa@[i as int].1@));
        assert(vb[i as int] == (pb@[i as int].0, pb@[i as int].1@));
        if pa[i].0 != pb[i].0 || !bytes_eq(pa[i].1.as_slice(), pb[i].1.as_slice()) {
            assert(va[i as int] != vb[i as int]);
            return false;
        }
        i += 1;
    }
    assert(va =~= vb);
    true
}

/// Bytes compare as numbers.
pub open spec fn order_byte(a: u8, b: u8) -> int {
    order_ints(a as int, b as int)
}

/// Byte strings compare lexicographically.
pub open spec fn order_bytes(a: Seq<u8>, b: Seq<u8>) -> int {
    lex(a, b, |x: u8, y: u8| order_byte(x, y))
}

/// Components compare by kind, then by bytes.
pub open spec fn order_part(a: (u8, Seq<u8>), b: (u8, Seq<u8>)) -> int {
    if a.0 != b.0 {
        order_byte(a.0, b.0)
    } else {
        order_bytes(a.1, b.1)
    }
}

/// [`order_part`] as a function value.
pub open spec fn part_order() -> spec_fn((u8, Seq<u8>), (u8, Seq<u8>)) -> int {
    |x: (u8, Seq<u8>), y: (u8, Seq<u8>)| order_part(x, y)
}

/// Paths compare component by component.
pub open spec fn order_paths(a: Seq<char>, b: Seq<char>) -> int {
    lex(path_components(a), path_components(b), part_order())
}

proof fn lemma_byte_order()
    ensures
        is_total_order(|x: u8, y: u8| order_byte(x, y)),
{
}

proof fn lemma_part_order()
    ensures
        is_total_order(part_order()),
{
    lemma_byte_order();
    lemma_lex_total_order(|x: u8, y: u8| order_byte(x, y));
    let bo = |a: Seq<u8>, b: Seq<u8>| lex(a, b, |x: u8, y: u8| order_byte(x, y));
    assert(is_total_order(bo));
    let po = part_order();
    assert forall|x: (u8, Seq<u8>), y: (u8, Seq<u8>)| #[trigger] po(x, y) == -po(y, x) && -1 <= po(x, y)
        <= 1 && (po(x, y) == 0 <==> x == y) by {
        assert(bo(x.1, y.1) == -bo(y.1, x.1));
        assert(-1 <= bo(x.1, y.1) <= 1);
        assert(bo(x.1, y.1) == 0 <==> x.1 == y.1);
    }
    assert forall|x: (u8, Seq<u8>), y: (u8, Seq<u8>), z: (u8, Seq<u8>)| #[trigger] po(x, y) <= 0
        && #[trigger] po(y, z) <= 0 implies po(x, z) <= 0 by {
        assert(bo(x.1, y.1) <= 0 && bo(y.1, z.1) <= 0 ==> bo(x.1, z.1) <= 0);
    }
}

/// The order of paths is a total order on their components.
pub proof fn lemma_path_order(a: Seq<char>, b: Seq<char>, c: Seq<char>)
    ensures
        order_paths(a, b) == -order_paths(b, a),
        -1 <= order_paths(a, b) <= 1,
        order_paths(a, b) == 0 <==> path_components(a) == path_components(b),
        order_paths(a, b) <= 0 && order_paths(b, c) <= 0 ==> order_paths(a, c) <= 0,
{
    lemma_part_order();
    let po = part_order();
    lemma_lex_antisymmetric(path_components(a), path_components(b), po);
    if order_paths(a, b) <= 0 && order_paths(b, c) <= 0 {
        lemma_lex_transitive(path_components(a), path_components(b), path_components(c), po);
    }
}

// ── Findings ──────────────────────────────────────────────────────────────────

/// Unknown dates come first; known dates compare as numbers.
pub open spec fn order_dates(a: Option<int>, b: Option<int>) -> int {
    match (a, b) {
        (None, None) => 0,
        (None, Some(_)) => -1,
        (Some(_), None) => 1,
        (Some(x), Some(y)) => order_ints(x, y),
    }
}

/// `x`, unless it is 0; then `y`.
pub open spec fn then(x: int, y: int) -> int {
    if x != 0 {
        x
    } else {
        y
    }
}

/// By path, then by line.
pub open spec fn order_by_path(a: FindingView, b: FindingView) -> int {
    then(order_paths(a.file, b.file), order_ints(a.line, b.line))
}

/// How two findings compare under a sort order: by path and line; or by
/// the commit date, oldest or newest first (unknown dates count as the
/// oldest), then by path and line.
pub open spec fn finding_order(order: SortOrder, a: FindingView, b: FindingView) -> int {
    match order {
        SortOrder::Path => order_by_path(a, b),
        SortOrder::Oldest => then(order_dates(a.blame_date, b.blame_date), order_by_path(a, b)),
        SortOrder::Newest => then(order_dates(b.blame_date, a.blame_date), order_by_path(a, b)),
    }
}

/// Whether two findings agree on all that a sort order looks at: the
/// path's components and the line, and the date unless sorting by path.
pub open spec fn same_key(order: SortOrder, a: FindingView, b: FindingView) -> bool {
    &&& (order != SortOrder::Path ==> a.blame_date == b.blame_date)
    &&& path_components(a.file) == path_components(b.file)
    &&& a.line == b.line
}

/// Whether `s` is in `order`: no finding comes after one that sorts after it.
pub open spec fn sorted_by(order: SortOrder, s: Seq<FindingView>) -> bool {
    forall|i: int, j: int| 0 <= i < j < s.len() ==> finding_order(order, s[i], s[j]) <= 0
}

/// How each sort order places two findings, in terms of their fields.  By
/// path (and, for the date orders, between findings with the same blame
/// date): a path that sorts first comes first, and at the same path the
/// lower line comes first.  Oldest first: an unknown date before a known
/// one, an earlier date before a later one.  Newest first: a known date
/// before an unknown one, a later date before an earlier one.
pub proof fn sort_orders_place_findings(order: SortOrder, a: FindingView, b: FindingView)
    ensures
        (order == SortOrder::Path || a.blame_date == b.blame_date) ==> (order_paths(a.file, b.file) < 0
            ==> finding_order(order, a, b) < 0),
        (order == SortOrder::Path || a.blame_date == b.blame_date) ==> (path_components(a.file)
            == path_components(b.file) && a.line < b.line ==> finding_order(order, a, b) < 0),
        (order == SortOrder::Oldest && a.blame_date is None && b.blame_date is Some) ==> finding_order(
            order,
            a,
            b,
        ) < 0,
        (order == SortOrder::Oldest && a.blame_date is Some && b.blame_date is Some
            && a.blame_date->0 < b.blame_date->0) ==> finding_order(order, a, b) < 0,
        (order == SortOrder::Newest && a.blame_date is Some && b.blame_date is None) ==> finding_order(
            order,
            a,
            b,
        ) < 0,
        (order == SortOrder::Newest && a.blame_date is Some && b.blame_date is Some
            && a.blame_date->0 > b.blame_date->0) ==> finding_order(order, a, b) < 0,
{
    lemma_path_order(a.file, b.file, b.file);
}

/// In a sorted list, two findings at the same path (and, for the date
/// orders, with the same blame date) come by line, lowest first.
pub proof fn sorted_findings_keep_lines_in_order(order: SortOrder, s: Seq<FindingView>, i: int, j: int)
    requires
        sorted_by(order, s),
        0 <= i < j < s.len(),
        path_components(s[i].file) == path_components(s[j].file),
        order == SortOrder::Path || s[i].blame_date == s[j].blame_date,
    ensures
        s[i].line <= s[j].line,
{
    assert(finding_order(order, s[i], s[j]) <= 0);
    if s[i].line > s[j].line {
        sort_orders_place_findings(order, s[j], s[i]);
        lemma_finding_order(order, s[i], s[j], s[j]);
    }
}

/// The order of findings is a total preorder: antisymmetric, equal only on
/// findings with the same key, and transitive, strictly so when either
/// step is strict.
pub proof fn lemma_finding_order(order: SortOrder, a: FindingView, b: FindingView, c: FindingView)
    ensures
        finding_order(order, a, b) == -finding_order(order, b, a),
        -1 <= finding_order(order, a, b) <= 1,
        finding_order(order, a, b) == 0 <==> same_key(order, a, b),
        finding_order(order, a, b) <= 0 && finding_order(order, b, c) <= 0 ==> finding_order(order, a, c) <= 0,
        finding_order(order, a, b) < 0 && finding_order(order, b, c) <= 0 ==> finding_order(order, a, c) < 0,
        finding_order(order, a, b) <= 0 && finding_order(order, b, c) < 0 ==> finding_order(order, a, c) < 0,
{
    lemma_path_order(a.file, b.file, c.file);
    lemma_path_order(b.file, c.file, a.file);
    lemma_path_order(c.file, a.file, b.file);
    lemma_path_order(a.file, c.file, b.file);
    lemma_path_order(b.file, a.file, c.file);
    lemma_path_order(c.file, b.file, a.file);
    if path_components(a.file) == path_components(c.file) {
        assert(order_paths(a.file, b.file) == order_paths(c.file, b.file));
    }
    if path_components(a.file) == path_components(b.file) {
        assert(order_paths(a.file, c.file) == order_paths(b.file, c.file));
    }
    if path_components(b.file) == path_components(c.file) {
        assert(order_paths(a.file, b.file) == order_paths(a.file, c.file));
    }
}

// ── Sorting ───────────────────────────────────────────────────────────────────

/// A finding and its path's components, held together while sorting.
struct KeyedFinding {
    parts: Vec<(u8, Vec<u8>)>,
    finding: Finding,
}

spec fn entry_ok(e: KeyedFinding) -> bool {
    part_views(e.parts@) == path_components(e.finding.file@)
}

spec fn entry_views(es: Seq<KeyedFinding>) -> Seq<FindingView> {
    es.map_values(|e: KeyedFinding| e.finding@)
}

fn order_bytes_exec(a: &Vec<u8>, b: &Vec<u8>) -> (r: i8)
    ensures
        r == order_bytes(a@, b@),
{
    let mut i: usize = 0;
    assert(a@.skip(0) =~= a@);
    assert(b@.skip(0) =~= b@);
    loop
        invariant
            0 <= i <= a@.len(),
            i <= b@.len(),
            order_bytes(a@, b@) == order_bytes(a@.skip(i as int), b@.skip(i as int)),
        decreases a@.len() - i,
    {
        if i == a.len() {
            return if i == b.len() {
                0
            } else {
                -1
            };
        }
        if i == b.len() {
            return 1;
        }
        assert(a@.skip(i as int)[0] == a@[i as int]);
        assert(b@.skip(i as int)[0] == b@[i as int]);
        if a[i] < b[i] {
            return -1;
        }
        if a[i] > b[i] {
            return 1;
        }
        assert(a@.skip(i as int).drop_first() =~= a@.skip(i + 1));
        assert(b@.skip(i as int).drop_first() =~= b@.skip(i + 1));
        i += 1;
    }
}

fn order_parts_exec(a: &Vec<(u8, Vec<u8>)>, b: &Vec<(u8, Vec<u8>)>) -> (r: i8)
    ensures
        r == lex(part_views(a@), part_views(b@), part_order()),
{
    let ghost po = part_order();
    let ghost (pa, pb) = (part_views(a@), part_views(b@));
    let mut i: usize = 0;
    assert(pa.skip(0) =~= pa);
    assert(pb.skip(0) =~= pb);
    loop
        invariant
            0 <= i <= a@.len(),
            i <= b@.len(),
            po == part_order(),
            pa == part_views(a@),
            pb == part_views(b@),
            pa.len() == a@.len(),
            pb.len() == b@.len(),
            lex(pa, pb, po) == lex(pa.skip(i as int), pb.skip(i as int), po),
        decreases a@.len() - i,
    {
        if i == a.len() {
            return if i == b.len() {
                0
            } else {
                -1
            };
        }
        if i == b.len() {
            return 1;
        }
        assert(pa.skip(i as int)[0] == (a@[i as int].0, a@[i as int].1@));
        assert(pb.skip(i as int)[0] == (b@[i as int].0, b@[i as int].1@));
        if a[i].0 < b[i].0 {
            return -1;
        }
        if a[i].0 > b[i].0 {
            return 1;
        }
        let c = order_bytes_exec(&a[i].1, &b[i].1);
        if c != 0 {
            return c;
        }
        assert(pa.skip(i as int).drop_first() =~= pa.skip(i + 1));
        assert(pb.skip(i as int).drop_first() =~= pb.skip(i + 1));
        i += 1;
    }
}

fn order_entries(order: SortOrder, a: &KeyedFinding, b: &KeyedFinding) -> (r: i8)
    requires
        entry_ok(*a),
        entry_ok(*b),
    ensures
        r == finding_order(order, a.finding@, b.finding@),
{
    let fa = &a.finding;
    let fb = &b.finding;
    let paths = order_parts_exec(&a.parts, &b.parts);
    let by_path: i8 = if paths != 0 {
        paths
    } else if fa.line < fb.line {
        -1
    } else if fa.line > fb.line {
        1
    } else {
        0
    };
    let (x, y) = match order {
        SortOrder::Path => return by_path,
        SortOrder::Oldest => (fa.blame_date, fb.blame_date),
        SortOrder::Newest => (fb.blame_date, fa.blame_date),
    };
    let dates: i8 = match (x, y) {
        (None, None) => 0,
        (None, Some(_)) => -1,
        (Some(_), None) => 1,
        (Some(p), Some(q)) => if p < q {
            -1
        } else if p > q {
            1
        } else {
            0
        },
    };
    if dates != 0 {
        dates
    } else {
        by_path
    }
}

/// Inserting `x` where everything before sorts no later than it and
/// everything after sorts strictly later keeps a sequence sorted.
proof fn lemma_insert_sorted(order: SortOrder, ev: Seq<FindingView>, pos: int, x: FindingView)
    requires
        sorted_by(order, ev),
        0 <= pos <= ev.len(),
        forall|k: int| 0 <= k < pos ==> finding_order(order, x, #[trigger] ev[k]) >= 0,
        forall|k: int| pos <= k < ev.len() ==> finding_order(order, x, #[trigger] ev[k]) < 0,
    ensures
        sorted_by(order, ev.insert(pos, x)),
{
    let nv = ev.insert(pos, x);
    ev.insert_ensures(pos, x);
    assert forall|a: int, b: int| 0 <= a < b < nv.len() implies finding_order(order, nv[a], nv[b]) <= 0 by {
        if b < pos {
            assert(nv[a] == ev[a] && nv[b] == ev[b]);
        } else if b == pos {
            assert(nv[a] == ev[a]);
            lemma_finding_order(order, x, ev[a], x);
        } else if a < pos {
            assert(nv[a] == ev[a] && nv[b] == ev[b - 1]);
        } else if a == pos {
            assert(nv[b] == ev[b - 1]);
        } else {
            assert(nv[a] == ev[a - 1] && nv[b] == ev[b - 1]);
        }
    }
}

/// The first place in the sorted `entries` where `e` sorts strictly before
/// what stands there (their length when there is none).
fn insertion_point(order: SortOrder, entries: &Vec<KeyedFinding>, e: &KeyedFinding) -> (pos: usize)
    requires
        entry_ok(*e),
        forall|k: int| 0 <= k < entries@.len() ==> entry_ok(#[trigger] entries@[k]),
        sorted_by(order, entry_views(entries@)),
    ensures
        pos <= entries@.len(),
        forall|k: int| 0 <= k < pos ==> finding_order(order, e.finding@, #[trigger] entry_views(entries@)[k]) >= 0,
        forall|k: int| pos <= k < entries@.len() ==> finding_order(order, e.finding@, #[trigger] entry_views(entries@)[k]) < 0,
{
    let ghost ev = entry_views(entries@);
    let ghost x = e.finding@;
    let mut lo: usize = 0;
    let mut hi: usize = entries.len();
    while lo < hi
        invariant
            0 <= lo <= hi <= entries@.len(),
            ev == entry_views(entries@),
            ev.len() == entries@.len(),
            entry_ok(*e),
            x == e.finding@,
            forall|k: int| 0 <= k < entries@.len() ==> entry_ok(#[trigger] entries@[k]),
            sorted_by(order, ev),
            forall|k: int| 0 <= k < lo ==> finding_order(order, x, #[trigger] ev[k]) >= 0,
            forall|k: int| hi <= k < ev.len() ==> finding_order(order, x, #[trigger] ev[k]) < 0,
        decreases hi - lo,
    {
        let mid = lo + (hi - lo) / 2;
        assert(ev[mid as int] == entries@[mid as int].finding@);
        if order_entries(order, e, &entries[mid]) < 0 {
            assert forall|k: int| mid <= k < ev.len() implies finding_order(order, x, #[trigger] ev[k]) < 0 by {
                lemma_finding_order(order, x, ev[mid as int], ev[k]);
                if k > mid {
                    assert(finding_order(order, ev[mid as int], ev[k]) <= 0);
                }
            }
            hi = mid;
        } else {
            assert forall|k: int| 0 <= k <= mid implies finding_order(order, x, #[trigger] ev[k]) >= 0 by {
                lemma_finding_order(order, ev[k], ev[mid as int], x);
                lemma_finding_order(order, x, ev[k], ev[mid as int]);
                lemma_finding_order(order, ev[mid as int], x, ev[k]);
                if k < mid {
                    assert(finding_order(order, ev[k], ev[mid as int]) <= 0);
                }
            }
            lo = mid + 1;
        }
    }
    lo
}

/// The findings, sorted by `order`: the same findings (as many of each),
/// and none after one that sorts after it.  Findings that compare equal
/// may come in any order.
pub fn sort_findings(findings: &[Finding], order: SortOrder) -> (r: Vec<Finding>)
    ensures
        finding_views(r@).to_multiset() == finding_views(findings@).to_multiset(),
        sorted_by(order, finding_views(r@)),
{
    let ghost fv = finding_views(findings@);
    let mut entries: Vec<KeyedFinding> = Vec::new();
    let mut i: usize = 0;
    assert(fv.take(0) =~= Seq::<FindingView>::empty());
    assert(entry_views(entries@) =~= Seq::<FindingView>::empty());
    while i < findings.len()
        invariant
            0 <= i <= findings@.len(),
            fv == finding_views(findings@),
            forall|k: int| 0 <= k < entries@.len() ==> entry_ok(#[trigger] entries@[k]),
            entry_views(entries@).to_multiset() == fv.take(i as int).to_multiset(),
            sorted_by(order, entry_views(entries@)),
        decreases findings@.len() - i,
    {
        let e = KeyedFinding { parts: components_of(findings[i].file.as_str()), finding: copy_finding(&findings[i]) };
        let ghost x = e.finding@;
        let ghost ev = entry_views(entries@);
        assert(x == fv[i as int]);
        let pos = insertion_point(order, &entries, &e);
        let ghost old_es = entries@;
        let ghost new_entry = e;
        entries.insert(pos, e);
        proof {
            old_es.insert_ensures(pos as int, new_entry);
            assert(entry_views(entries@) =~= ev.insert(pos as int, x));
            lemma_insert_sorted(order, ev, pos as int, x);
            assert(fv.take(i + 1) =~= fv.take(i as int).push(x));
            vstd::seq_lib::to_multiset_build(fv.take(i as int), x);
            assert forall|k: int| 0 <= k < entries@.len() implies entry_ok(#[trigger] entries@[k]) by {
                if k < pos {
                    assert(entries@[k] == old_es[k]);
                } else if k > pos {
                    assert(entries@[k] == old_es[k - 1]);
                }
            }
        }
        i += 1;
    }
    assert(fv.take(findings@.len() as int) =~= fv);
    let mut r: Vec<Finding> = Vec::new();
    let mut k: usize = 0;
    while k < entries.len()
        invariant
            0 <= k <= entries@.len(),
            finding_views(r@) == entry_views(entries@).take(k as int),
        decreases entries@.len() - k,
    {
        let c = copy_finding(&entries[k].finding);
        let ghost before = r@;
        r.push(c);
        assert(entry_views(entries@)[k as int] == entries@[k as int].finding@);
        assert(finding_views(r@) =~= finding_views(before).push(c@));
        assert(finding_views(r@) =~= entry_views(entries@).take(k + 1));
        k += 1;
    }
    assert(entry_views(entries@).take(entries@.len() as int) =~= entry_views(entries@));
    r
}

} // verus!
