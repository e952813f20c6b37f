//! The bidirectional table between physical geometry and the logical
//! editing grid.
//!
//! Keys are grouped into visual rows by clustering `visual_y` values
//! within a fixed tolerance, so that the two halves of a split
//! keyboard cluster together; within a row, keys are ordered by
//! `visual_x` ascending, with ties broken by matrix position. Row
//! index assignment follows ascending `visual_y`.

use vstd::prelude::*;
use crate::geometry::{geometry_wf, KeyGeometry, KeyboardGeometry};
use crate::position::Position;

verus! {

/// The clustering tolerance, hundredths of a keyboard unit: keys whose
/// `visual_y` lies within half a unit of a cluster's first key share
/// its visual row.
pub const ROW_CLUSTER_TOLERANCE: u16 = 50;

/// The column order within a visual row: by `visual_x`, ties broken by
/// matrix row then matrix column.
pub open spec fn col_lt(a: KeyGeometry, b: KeyGeometry) -> bool {
    ||| a.visual_x < b.visual_x
    ||| (a.visual_x == b.visual_x && a.matrix_position.0 < b.matrix_position.0)
    ||| (a.visual_x == b.visual_x && a.matrix_position.0 == b.matrix_position.0
        && a.matrix_position.1 < b.matrix_position.1)
}

/// The visual row a `visual_y` value falls in, given the ascending
/// cluster starts: the last start not above the value, or -1 when the
/// value lies below every start.
pub open spec fn row_of(starts: Seq<u16>, y: u16) -> int
    decreases starts.len(),
{
    if starts.len() == 0 {
        -1
    } else if starts.last() <= y {
        starts.len() - 1
    } else {
        row_of(starts.drop_last(), y)
    }
}

/// Cluster starts are strictly ascending with gaps wider than the
/// tolerance.
pub open spec fn starts_sorted(starts: Seq<u16>) -> bool {
    forall|r1: int, r2: int|
        0 <= r1 < r2 < starts.len() ==> (#[trigger] starts[r2]) as int > (#[trigger] starts[r1])
            as int + ROW_CLUSTER_TOLERANCE as int
}

/// Whether a height value lies in the tolerance band of some cluster
/// start.
pub open spec fn covered(starts: Seq<u16>, y: u16) -> bool {
    exists|r: int|
        0 <= r < starts.len() && (#[trigger] starts[r]) <= y && y as int <= starts[r] as int
            + ROW_CLUSTER_TOLERANCE as int
}

/// Whether some key of the geometry sits at exactly this height.
pub open spec fn start_is_key_y(keys: Seq<KeyGeometry>, y: u16) -> bool {
    exists|ki: int| 0 <= ki < keys.len() && (#[trigger] keys[ki]).visual_y == y
}

/// Whether some key falls in the given visual row.
pub open spec fn row_inhabited(ridx: Seq<usize>, r: int) -> bool {
    exists|ki: int| 0 <= ki < ridx.len() && (#[trigger] ridx[ki]) as int == r
}

/// Whether an index occurs somewhere in a grid of key indices.
pub open spec fn grid_has(rows: Seq<Vec<usize>>, ki: int) -> bool {
    exists|r: int, c: int|
        0 <= r < rows.len() && 0 <= c < rows[r]@.len() && (#[trigger] rows[r]@[c]) as int == ki
}

/// Whether an index occurs in the permutation.
pub open spec fn perm_has(perm: Seq<usize>, ki: int) -> bool {
    exists|s: int| 0 <= s < perm.len() && (#[trigger] perm[s]) as int == ki
}

/// `row_of` stays within the index range of the starts.
proof fn lemma_row_of_bounds(starts: Seq<u16>, y: u16)
    ensures
        -1 <= row_of(starts, y) < starts.len(),
    decreases starts.len(),
{
    if starts.len() > 0 && !(starts.last() <= y) {
        lemma_row_of_bounds(starts.drop_last(), y);
    }
}

/// A value within the tolerance band of one start falls in exactly
/// that visual row.
proof fn lemma_row_of_unique(starts: Seq<u16>, y: u16, r: int)
    requires
        starts_sorted(starts),
        0 <= r < starts.len(),
        starts[r] <= y,
        y as int <= starts[r] as int + ROW_CLUSTER_TOLERANCE as int,
    ensures
        row_of(starts, y) == r,
    decreases starts.len(),
{
    if r == starts.len() - 1 {
    } else {
        assert(starts.last() as int > starts[r] as int + ROW_CLUSTER_TOLERANCE as int);
        assert(starts_sorted(starts.drop_last())) by {
            assert(forall|a: int, b: int|
                0 <= a < b < starts.len() - 1 ==> #[trigger] starts.drop_last()[a]
                    == starts[a] && #[trigger] starts.drop_last()[b] == starts[b]);
        }
        lemma_row_of_unique(starts.drop_last(), y, r);
    }
}

/// A derived, immutable table from logical grid positions to physical
/// keys and back.
pub struct VisualLayoutMapping {
    /// The grid: `rows[r][c]` is the key at logical `Position(r, c)`.
    pub rows: Vec<Vec<KeyGeometry>>,
}

/// Whether a logical (row, col) pair indexes an entry of the grid.
pub open spec fn valid_rc(rows: Seq<Vec<KeyGeometry>>, r: int, c: int) -> bool {
    0 <= r < rows.len() && 0 <= c < rows[r]@.len()
}

/// Whether a value is one of the geometry's keys.
pub open spec fn is_some_key(keys: Seq<KeyGeometry>, k: KeyGeometry) -> bool {
    exists|ki: int| 0 <= ki < keys.len() && (#[trigger] keys[ki]) == k
}

/// Whether a key appears somewhere in the grid.
pub open spec fn mapping_has_key(rows: Seq<Vec<KeyGeometry>>, k: KeyGeometry) -> bool {
    exists|r: int, c: int| valid_rc(rows, r, c) && (#[trigger] rows[r]@[c]) == k
}

/// Every grid entry is a key of the geometry.
pub open spec fn rows_sound(rows: Seq<Vec<KeyGeometry>>, keys: Seq<KeyGeometry>) -> bool {
    forall|r: int, c: int| valid_rc(rows, r, c) ==> is_some_key(keys, #[trigger] rows[r]@[c])
}

/// Every key of the geometry appears somewhere in the grid.
pub open spec fn rows_cover(rows: Seq<Vec<KeyGeometry>>, keys: Seq<KeyGeometry>) -> bool {
    forall|ki: int| 0 <= ki < keys.len() ==> mapping_has_key(rows, #[trigger] keys[ki])
}

/// No two grid entries share a matrix position.
pub open spec fn rows_distinct(rows: Seq<Vec<KeyGeometry>>) -> bool {
    forall|r1: int, c1: int, r2: int, c2: int|
        valid_rc(rows, r1, c1) && valid_rc(rows, r2, c2) && !(r1 == r2 && c1 == c2)
            ==> (#[trigger] rows[r1]@[c1]).matrix_position != (#[trigger] rows[r2]@[c2]).matrix_position
}

/// Within each visual row, entries ascend in the column order.
pub open spec fn rows_sorted(rows: Seq<Vec<KeyGeometry>>) -> bool {
    forall|r: int, c1: int, c2: int|
        0 <= r < rows.len() && 0 <= c1 < c2 < rows[r]@.len() ==> col_lt(
            #[trigger] rows[r]@[c1],
            #[trigger] rows[r]@[c2],
        )
}

/// Every entry of an earlier visual row sits strictly above every
/// entry of a later one.
pub open spec fn rows_y_ordered(rows: Seq<Vec<KeyGeometry>>) -> bool {
    forall|r1: int, c1: int, r2: int, c2: int|
        valid_rc(rows, r1, c1) && valid_rc(rows, r2, c2) && r1 < r2
            ==> (#[trigger] rows[r1]@[c1]).visual_y < (#[trigger] rows[r2]@[c2]).visual_y
}

/// No visual row is empty.
pub open spec fn rows_nonempty(rows: Seq<Vec<KeyGeometry>>) -> bool {
    forall|r: int| 0 <= r < rows.len() ==> (#[trigger] rows[r]@).len() > 0
}

/// The grid holds exactly the geometry's keys, each once.
pub open spec fn mapping_matches_geometry(m: VisualLayoutMapping, g: KeyboardGeometry) -> bool {
    &&& rows_sound(m.rows@, g.keys@)
    &&& rows_cover(m.rows@, g.keys@)
    &&& rows_distinct(m.rows@)
}

/// The grid is fully ordered: columns ascend within rows, rows ascend
/// by visual height, and no row is empty.
pub open spec fn mapping_ordered(m: VisualLayoutMapping) -> bool {
    &&& rows_sorted(m.rows@)
    &&& rows_y_ordered(m.rows@)
    &&& rows_nonempty(m.rows@)
}

/// What a logical position resolves to, if anything.
pub open spec fn spec_resolve(m: VisualLayoutMapping, p: Position) -> Option<KeyGeometry> {
    if valid_rc(m.rows@, p.row as int, p.col as int) {
        Some(m.rows@[p.row as int]@[p.col as int])
    } else {
        None
    }
}

/// The number of true entries.
pub open spec fn count_true(s: Seq<bool>) -> int
    decreases s.len(),
{
    if s.len() == 0 {
        0
    } else {
        count_true(s.drop_last()) + if s.last() {
            1int
        } else {
            0int
        }
    }
}

/// A boolean sequence with fewer trues than entries has a false entry.
proof fn lemma_count_true_bounds(s: Seq<bool>)
    ensures
        0 <= count_true(s) <= s.len(),
        count_true(s) < s.len() ==> exists|i: int| 0 <= i < s.len() && !s[i],
        count_true(s) == s.len() ==> forall|i: int| 0 <= i < s.len() ==> s[i],
    decreases s.len(),
{
    if s.len() > 0 {
        lemma_count_true_bounds(s.drop_last());
        if count_true(s) < s.len() {
            if count_true(s.drop_last()) < s.len() - 1 {
                let i = choose|i: int| 0 <= i < s.len() - 1 && !s.drop_last()[i];
                assert(!s[i]);
            } else {
                assert(!s.last());
            }
        }
        if count_true(s) == s.len() {
            assert(forall|i: int| 0 <= i < s.len() - 1 ==> #[trigger] s[i] == s.drop_last()[i]);
        }
    }
}

/// Setting one false entry true raises the count by one.
proof fn lemma_count_true_set(s: Seq<bool>, i: int)
    requires
        0 <= i < s.len(),
        !s[i],
    ensures
        count_true(s.update(i, true)) == count_true(s) + 1,
    decreases s.len(),
{
    let t = s.update(i, true);
    if i == s.len() - 1 {
        assert(t.drop_last() =~= s.drop_last());
    } else {
        assert(t.drop_last() =~= s.drop_last().update(i, true));
        lemma_count_true_set(s.drop_last(), i);
    }
}

/// The visual row of a covered `visual_y` value, by scanning the
/// cluster starts from the top.
#[verifier::loop_isolation(false)]
fn row_of_exec(starts: &Vec<u16>, y: u16) -> (r: usize)
    requires
        row_of(starts@, y) >= 0,
    ensures
        r == row_of(starts@, y),
{
    proof {
        lemma_row_of_bounds(starts@, y);
        assert(starts@.subrange(0, starts@.len() as int) =~= starts@);
    }
    let mut i: usize = starts.len();
    while i > 0
        invariant
            i <= starts@.len(),
            row_of(starts@, y) == row_of(starts@.subrange(0, i as int), y),
        decreases i,
    {
        proof {
            assert(starts@.subrange(0, i as int).drop_last() =~= starts@.subrange(0, i - 1));
        }
        if starts[i - 1] <= y {
            return i - 1;
        }
        i = i - 1;
    }
    proof {
        assert(starts@.subrange(0, 0) =~= Seq::<u16>::empty());
        assert(false);
    }
    0
}

impl VisualLayoutMapping {
    /// The key a logical position maps to, if the position exists on
    /// the selected hardware.
    pub fn resolve(&self, position: Position) -> (r: Option<KeyGeometry>)
        ensures
            r == spec_resolve(*self, position),
    {
        let ri = position.row as usize;
        let ci = position.col as usize;
        if ri < self.rows.len() && ci < self.rows[ri].len() {
            Some(self.rows[ri][ci])
        } else {
            None
        }
    }

    /// Whether a logical position maps to a physical key.
    pub fn is_valid_position(&self, position: Position) -> (r: bool)
        ensures
            r == (spec_resolve(*self, position) is Some),
    {
        let ri = position.row as usize;
        let ci = position.col as usize;
        ri < self.rows.len() && ci < self.rows[ri].len()
    }

    /// The logical position of a physical key, identified by its
    /// matrix position.
    ///
    /// The key must be on the grid; on a mapping derived from a well
    /// formed geometry, resolving the returned position yields the key
    /// itself.
    #[verifier::loop_isolation(false)]
    pub fn position_for(&self, key: &KeyGeometry) -> (p: Position)
        requires
            exists|r: int, c: int|
                valid_rc(self.rows@, r, c) && (#[trigger] self.rows@[r]@[c]).matrix_position
                    == key.matrix_position,
            self.rows@.len() <= 256,
            forall|r: int| 0 <= r < self.rows@.len() ==> (#[trigger] self.rows@[r]@).len() <= 256,
        ensures
            spec_resolve(*self, p) matches Some(k) && k.matrix_position == key.matrix_position,
    {
        let nr = self.rows.len();
        let mut r: usize = 0;
        while r < nr
            invariant
                r <= nr == self.rows@.len(),
                nr <= 256,
                forall|a: int| 0 <= a < nr ==> (#[trigger] self.rows@[a]@).len() <= 256,
                exists|a: int, c: int|
                    valid_rc(self.rows@, a, c) && (#[trigger] self.rows@[a]@[c]).matrix_position
                        == key.matrix_position,
                forall|a: int, c: int|
                    0 <= a < r && 0 <= c < self.rows@[a]@.len()
                        ==> (#[trigger] self.rows@[a]@[c]).matrix_position != key.matrix_position,
            decreases nr - r,
        {
            let nc = self.rows[r].len();
            let mut c: usize = 0;
            while c < nc
                invariant
                    c <= nc == self.rows@[r as int]@.len(),
                    r < self.rows@.len(),
                    forall|b: int|
                        0 <= b < c ==> (#[trigger] self.rows@[r as int]@[b]).matrix_position
                            != key.matrix_position,
                decreases nc - c,
            {
                if self.rows[r][c].matrix_position.0 == key.matrix_position.0
                    && self.rows[r][c].matrix_position.1 == key.matrix_position.1 {
                    return Position { row: r as u8, col: c as u8 };
                }
                c = c + 1;
            }
            r = r + 1;
        }
        proof {
            assert(false);
        }
        Position { row: 0, col: 0 }
    }
}

/// The column order, executably.
fn col_lt_exec(a: &KeyGeometry, b: &KeyGeometry) -> (r: bool)
    ensures
        r == col_lt(*a, *b),
{
    a.visual_x < b.visual_x || (a.visual_x == b.visual_x && (a.matrix_position.0
        < b.matrix_position.0 || (a.matrix_position.0 == b.matrix_position.0
        && a.matrix_position.1 < b.matrix_position.1)))
}

/// Computes the cluster starts of a geometry's visual rows: the first
/// is the least `visual_y`; each next is the least `visual_y` above
/// the previous start plus the tolerance.
#[verifier::loop_isolation(false)]
#[verifier::rlimit(100)]
#[verifier::spinoff_prover]
fn cluster_starts(g: &KeyboardGeometry) -> (starts: Vec<u16>)
    requires
        g.keys@.len() > 0,
    ensures
        starts@.len() >= 1,
        starts_sorted(starts@),
        forall|r: int|
            0 <= r < starts@.len() ==> start_is_key_y(g.keys@, #[trigger] starts@[r]),
        forall|ki: int|
            0 <= ki < g.keys@.len() ==> #[trigger] covered(starts@, g.keys@[ki].visual_y),
{
    let n = g.keys.len();
    let mut min_y: u16 = g.keys[0].visual_y;
    let mut i: usize = 1;
    while i < n
        invariant
            1 <= i <= n,
            exists|ki: int| 0 <= ki < n && (#[trigger] g.keys@[ki]).visual_y == min_y,
            forall|ki: int| 0 <= ki < i ==> (#[trigger] g.keys@[ki]).visual_y >= min_y,
        decreases n - i,
    {
        if g.keys[i].visual_y < min_y {
            min_y = g.keys[i].visual_y;
        }
        i = i + 1;
    }
    let mut starts: Vec<u16> = Vec::new();
    starts.push(min_y);
    let mut last: u16 = min_y;
    proof {
        assert forall|ki: int|
            0 <= ki < n && (#[trigger] g.keys@[ki]).visual_y as int <= last as int
                + ROW_CLUSTER_TOLERANCE as int implies covered(
            starts@,
            g.keys@[ki].visual_y,
        ) by {
            assert(starts@[0] == min_y && starts@[0] <= g.keys@[ki].visual_y);
        }
    }
    let mut done = false;
    while !done
        invariant
            starts@.len() >= 1,
            last == starts@.last(),
            starts_sorted(starts@),
            forall|r: int|
                0 <= r < starts@.len() ==> start_is_key_y(g.keys@, #[trigger] starts@[r]),
            forall|ki: int|
                0 <= ki < n && (#[trigger] g.keys@[ki]).visual_y as int <= last as int
                    + ROW_CLUSTER_TOLERANCE as int ==> covered(starts@, g.keys@[ki].visual_y),
            done ==> forall|ki: int|
                0 <= ki < n ==> (#[trigger] g.keys@[ki]).visual_y as int <= last as int
                    + ROW_CLUSTER_TOLERANCE as int,
        decreases 65536 - last as int + (if done {
            0int
        } else {
            1int
        }),
    {
        let mut cand: u16 = 0;
        let mut have_cand = false;
        let mut j: usize = 0;
        while j < n
            invariant
                j <= n,
                have_cand ==> cand as int > last as int + ROW_CLUSTER_TOLERANCE as int,
                have_cand ==> start_is_key_y(g.keys@, cand),
                have_cand ==> forall|kj: int|
                    0 <= kj < j && (#[trigger] g.keys@[kj]).visual_y as int > last as int
                        + ROW_CLUSTER_TOLERANCE as int ==> g.keys@[kj].visual_y >= cand,
                !have_cand ==> forall|kj: int|
                    0 <= kj < j ==> (#[trigger] g.keys@[kj]).visual_y as int <= last as int
                        + ROW_CLUSTER_TOLERANCE as int,
            decreases n - j,
        {
            let y = g.keys[j].visual_y;
            if (y as u32) > (last as u32) + (ROW_CLUSTER_TOLERANCE as u32) {
                if !have_cand || y < cand {
                    cand = y;
                    have_cand = true;
                }
            }
            j = j + 1;
        }
        if have_cand {
            let ghost old_starts = starts@;
            let ghost old_last = last;
            starts.push(cand);
            last = cand;
            proof {
                assert forall|ki: int|
                    0 <= ki < n && (#[trigger] g.keys@[ki]).visual_y as int <= last as int
                        + ROW_CLUSTER_TOLERANCE as int implies covered(
                    starts@,
                    g.keys@[ki].visual_y,
                ) by {
                    let y = g.keys@[ki].visual_y;
                    if y as int <= old_last as int + ROW_CLUSTER_TOLERANCE as int {
                        assert(covered(old_starts, y));
                        let r = choose|r: int|
                            0 <= r < old_starts.len() && (#[trigger] old_starts[r]) <= y && y as int
                                <= old_starts[r] as int + ROW_CLUSTER_TOLERANCE as int;
                        assert(starts@[r] == old_starts[r]);
                    } else {
                        let r = starts@.len() - 1;
                        assert(starts@[r] == cand);
                        assert(y >= cand);
                    }
                }
            }
        } else {
            done = true;
        }
    }
    starts
}

/// The visual row index of every key, as positions in the cluster
/// starts.
#[verifier::loop_isolation(false)]
#[verifier::spinoff_prover]
fn row_indices(g: &KeyboardGeometry, starts: &Vec<u16>) -> (ridx: Vec<usize>)
    requires
        starts@.len() >= 1,
        starts_sorted(starts@),
        forall|ki: int|
            0 <= ki < g.keys@.len() ==> #[trigger] covered(starts@, g.keys@[ki].visual_y),
    ensures
        ridx@.len() == g.keys@.len(),
        forall|i: int|
            0 <= i < g.keys@.len() ==> (#[trigger] ridx@[i]) == row_of(
                starts@,
                g.keys@[i].visual_y,
            ),
        forall|i: int|
            0 <= i < g.keys@.len() ==> (#[trigger] ridx@[i]) < starts@.len()
                && starts@[ridx@[i] as int] <= g.keys@[i].visual_y && g.keys@[i].visual_y as int
                <= starts@[ridx@[i] as int] as int + ROW_CLUSTER_TOLERANCE as int,
{
    let n = g.keys.len();
    proof {
        assert forall|ki: int| 0 <= ki < n implies {
            let r = row_of(starts@, g.keys@[ki].visual_y);
            &&& 0 <= r < starts@.len()
            &&& starts@[r] <= (#[trigger] g.keys@[ki]).visual_y
            &&& g.keys@[ki].visual_y as int <= starts@[r] as int + ROW_CLUSTER_TOLERANCE as int
        } by {
            let y = g.keys@[ki].visual_y;
            assert(covered(starts@, y));
            let r0 = choose|r: int|
                0 <= r < starts@.len() && (#[trigger] starts@[r]) <= y && y as int <= starts@[r]
                    as int + ROW_CLUSTER_TOLERANCE as int;
            lemma_row_of_unique(starts@, y, r0);
        }
    }
    let mut ridx: Vec<usize> = Vec::new();
    let mut i: usize = 0;
    while i < n
        invariant
            i <= n,
            ridx@.len() == i,
            forall|j: int|
                0 <= j < i ==> (#[trigger] ridx@[j]) == row_of(starts@, g.keys@[j].visual_y),
        decreases n - i,
    {
        let r = row_of_exec(starts, g.keys[i].visual_y);
        ridx.push(r);
        i = i + 1;
    }
    ridx
}

/// Whether the key at index `a` comes before the one at index `b` in
/// the grid: a lower visual row, or the same row and a lower column
/// order.
pub open spec fn idx_lt(keys: Seq<KeyGeometry>, ridx: Seq<usize>, a: int, b: int) -> bool {
    ||| ridx[a] < ridx[b]
    ||| (ridx[a] == ridx[b] && col_lt(keys[a], keys[b]))
}

/// Sorts the key indices into grid order by selection, smallest
/// first.
#[verifier::loop_isolation(false)]
#[verifier::rlimit(60)]
#[verifier::spinoff_prover]
fn sort_indices(g: &KeyboardGeometry, ridx: &Vec<usize>) -> (perm: Vec<usize>)
    requires
        geometry_wf(*g),
        ridx@.len() == g.keys@.len(),
    ensures
        perm@.len() == g.keys@.len(),
        forall|s: int| 0 <= s < perm@.len() ==> (#[trigger] perm@[s]) < g.keys@.len(),
        forall|s1: int, s2: int|
            0 <= s1 < s2 < perm@.len() ==> (#[trigger] perm@[s1]) != (#[trigger] perm@[s2]),
        forall|ki: int| 0 <= ki < g.keys@.len() ==> #[trigger] perm_has(perm@, ki),
        forall|s1: int, s2: int|
            0 <= s1 < s2 < perm@.len() ==> idx_lt(
                g.keys@,
                ridx@,
                (#[trigger] perm@[s1]) as int,
                (#[trigger] perm@[s2]) as int,
            ),
{
    let n = g.keys.len();
    let mut placed: Vec<bool> = Vec::new();
    let mut i: usize = 0;
    while i < n
        invariant
            i <= n,
            placed@.len() == i,
            forall|ki: int| 0 <= ki < i ==> !(#[trigger] placed@[ki]),
            count_true(placed@) == 0,
        decreases n - i,
    {
        proof {
            assert(placed@.push(false).drop_last() =~= placed@);
        }
        placed.push(false);
        i = i + 1;
    }
    let mut perm: Vec<usize> = Vec::new();
    while perm.len() < n
        invariant
            placed@.len() == n,
            perm@.len() <= n,
            count_true(placed@) == perm@.len(),
            forall|s: int| 0 <= s < perm@.len() ==> (#[trigger] perm@[s]) < n,
            forall|s: int| 0 <= s < perm@.len() ==> placed@[(#[trigger] perm@[s]) as int],
            forall|ki: int|
                0 <= ki < n && (#[trigger] placed@[ki]) ==> exists|s: int|
                    0 <= s < perm@.len() && (#[trigger] perm@[s]) == ki,
            forall|s1: int, s2: int|
                0 <= s1 < s2 < perm@.len() ==> (#[trigger] perm@[s1]) != (#[trigger] perm@[s2]),
            forall|s1: int, s2: int|
                0 <= s1 < s2 < perm@.len() ==> idx_lt(
                    g.keys@,
                    ridx@,
                    (#[trigger] perm@[s1]) as int,
                    (#[trigger] perm@[s2]) as int,
                ),
            forall|s: int, ki: int|
                0 <= s < perm@.len() && 0 <= ki < n && !(#[trigger] placed@[ki]) ==> idx_lt(
                    g.keys@,
                    ridx@,
                    (#[trigger] perm@[s]) as int,
                    ki,
                ),
        decreases n - perm@.len(),
    {
        proof {
            lemma_count_true_bounds(placed@);
        }
        let mut best: usize = 0;
        let mut have = false;
        let mut j: usize = 0;
        while j < n
            invariant
                j <= n,
                have ==> best < n && !placed@[best as int],
                have ==> forall|kj: int|
                    0 <= kj < j && !(#[trigger] placed@[kj]) ==> !idx_lt(
                        g.keys@,
                        ridx@,
                        kj,
                        best as int,
                    ),
                !have ==> forall|kj: int| 0 <= kj < j ==> (#[trigger] placed@[kj]),
            decreases n - j,
        {
            if !placed[j] {
                if !have {
                    best = j;
                    have = true;
                } else if ridx[j] < ridx[best] || (ridx[j] == ridx[best] && col_lt_exec(
                    &g.keys[j],
                    &g.keys[best],
                )) {
                    best = j;
                }
            }
            j = j + 1;
        }
        proof {
            if !have {
                let w = choose|w: int| 0 <= w < n && !placed@[w];
                assert(false);
            }
            // The selected least index precedes every other unplaced
            // index: the orders on rows and columns are total, since
            // distinct keys have distinct matrix positions.
            assert forall|ki: int|
                0 <= ki < n && !placed@[ki] && ki != best as int implies idx_lt(
                g.keys@,
                ridx@,
                best as int,
                ki,
            ) by {
                if ki < best as int {
                    assert(g.keys@[ki].matrix_position != g.keys@[best as int].matrix_position);
                } else {
                    assert(g.keys@[best as int].matrix_position != g.keys@[ki].matrix_position);
                }
            }
        }
        let ghost old_placed = placed@;
        let ghost old_perm = perm@;
        placed.set(best, true);
        perm.push(best);
        proof {
            lemma_count_true_set(old_placed, best as int);
            assert forall|ki: int|
                0 <= ki < n && (#[trigger] placed@[ki]) implies exists|s: int|
                0 <= s < perm@.len() && (#[trigger] perm@[s]) == ki by {
                if ki == best as int {
                    assert(perm@[perm@.len() - 1] == best);
                } else {
                    let s = choose|s: int| 0 <= s < old_perm.len() && (#[trigger] old_perm[s]) == ki;
                    assert(perm@[s] == ki);
                }
            }
        }
    }
    proof {
        lemma_count_true_bounds(placed@);
        assert forall|ki: int| 0 <= ki < g.keys@.len() implies perm_has(perm@, ki) by {
            assert(placed@[ki]);
            let s = choose|s: int| 0 <= s < perm@.len() && (#[trigger] perm@[s]) == ki;
            assert(perm@[s] as int == ki);
        }
    }
    perm
}

/// Splits the sorted key indices into visual rows: a key opens a new
/// row exactly when its visual row continues the grid.
#[verifier::loop_isolation(false)]
#[verifier::rlimit(60)]
#[verifier::spinoff_prover]
fn assemble_rows(g: &KeyboardGeometry, nridx: usize, ridx: &Vec<usize>, perm: &Vec<usize>) -> (rows:
    Vec<Vec<usize>>)
    requires
        g.keys@.len() >= 1,
        ridx@.len() == g.keys@.len(),
        nridx >= 1,
        forall|ki: int| 0 <= ki < ridx@.len() ==> (#[trigger] ridx@[ki]) < nridx,
        forall|r: int| 0 <= r < nridx ==> #[trigger] row_inhabited(ridx@, r),
        perm@.len() == g.keys@.len(),
        forall|s: int| 0 <= s < perm@.len() ==> (#[trigger] perm@[s]) < g.keys@.len(),
        forall|s1: int, s2: int|
            0 <= s1 < s2 < perm@.len() ==> (#[trigger] perm@[s1]) != (#[trigger] perm@[s2]),
        forall|ki: int| 0 <= ki < g.keys@.len() ==> #[trigger] perm_has(perm@, ki),
        forall|s1: int, s2: int|
            0 <= s1 < s2 < perm@.len() ==> idx_lt(
                g.keys@,
                ridx@,
                (#[trigger] perm@[s1]) as int,
                (#[trigger] perm@[s2]) as int,
            ),
    ensures
        1 <= rows@.len() <= g.keys@.len(),
        forall|r: int|
            0 <= r < rows@.len() ==> 1 <= (#[trigger] rows@[r]@).len() <= g.keys@.len(),
        forall|r: int, c: int|
            0 <= r < rows@.len() && 0 <= c < rows@[r]@.len() ==> (#[trigger] rows@[r]@[c])
                < g.keys@.len(),
        forall|r: int, c: int|
            0 <= r < rows@.len() && 0 <= c < rows@[r]@.len() ==> ridx@[(#[trigger] rows@[r]@[c]) as int]
                == r,
        forall|r: int, c1: int, c2: int|
            0 <= r < rows@.len() && 0 <= c1 < c2 < rows@[r]@.len() ==> col_lt(
                g.keys@[(#[trigger] rows@[r]@[c1]) as int],
                g.keys@[(#[trigger] rows@[r]@[c2]) as int],
            ),
        forall|r1: int, c1: int, r2: int, c2: int|
            0 <= r1 < rows@.len() && 0 <= c1 < rows@[r1]@.len() && 0 <= r2 < rows@.len() && 0 <= c2
                < rows@[r2]@.len() && !(r1 == r2 && c1 == c2) ==> (#[trigger] rows@[r1]@[c1]) != (
            #[trigger] rows@[r2]@[c2]),
        forall|ki: int| 0 <= ki < g.keys@.len() ==> #[trigger] grid_has(rows@, ki),
{
    let n = g.keys.len();
    let mut rows: Vec<Vec<usize>> = Vec::new();
    let mut s: usize = 0;
    while s < n
        invariant
            s <= n,
            rows@.len() <= s,
            s >= 1 ==> rows@.len() >= 1,
            forall|r: int|
                0 <= r < rows@.len() ==> 1 <= (#[trigger] rows@[r]@).len() <= s,
            forall|r: int, c: int|
                0 <= r < rows@.len() && 0 <= c < rows@[r]@.len() ==> (#[trigger] rows@[r]@[c]) < n,
            forall|r: int, c: int|
                0 <= r < rows@.len() && 0 <= c < rows@[r]@.len()
                    ==> ridx@[(#[trigger] rows@[r]@[c]) as int] == r,
            forall|r: int, c1: int, c2: int|
                0 <= r < rows@.len() && 0 <= c1 < c2 < rows@[r]@.len() ==> col_lt(
                    g.keys@[(#[trigger] rows@[r]@[c1]) as int],
                    g.keys@[(#[trigger] rows@[r]@[c2]) as int],
                ),
            forall|r: int, c: int|
                0 <= r < rows@.len() && 0 <= c < rows@[r]@.len() ==> exists|t: int|
                    0 <= t < s && perm@[t] == (#[trigger] rows@[r]@[c]),
            forall|t: int|
                0 <= t < s ==> exists|r: int, c: int|
                    0 <= r < rows@.len() && 0 <= c < rows@[r]@.len() && rows@[r]@[c] == (
                    #[trigger] perm@[t]),
            forall|t: int|
                s <= t < n ==> ridx@[(#[trigger] perm@[t]) as int] as int >= rows@.len() - 1,
        decreases n - s,
    {
        let ki = perm[s];
        let rb = ridx[ki];
        proof {
            // The next key belongs to the last open row or starts the
            // next one: the first key of visual row `rows.len()` is
            // still unprocessed, so the next key cannot lie beyond it.
            if rb as int > rows@.len() {
                assert(row_inhabited(ridx@, rows@.len() as int));
                let wk = choose|wk: int|
                    0 <= wk < ridx@.len() && (#[trigger] ridx@[wk]) as int == rows@.len();
                assert(perm_has(perm@, wk));
                let sw = choose|t: int|
                    0 <= t < perm@.len() && (#[trigger] perm@[t]) as int == wk;
                if sw < s {
                    let (r, c) = choose|r: int, c: int|
                        0 <= r < rows@.len() && 0 <= c < rows@[r]@.len() && rows@[r]@[c] == (
                        perm@[sw]);
                    assert(false);
                } else {
                    assert(sw > s);
                    assert(idx_lt(g.keys@, ridx@, perm@[s as int] as int, perm@[sw] as int));
                    assert(false);
                }
            }
        }
        let ghost old_rows = rows@;
        if rows.len() == 0 || rb == rows.len() {
            proof {
                if rows@.len() == 0 {
                    assert(rb as int >= rows@.len() - 1);
                    assert(rb == 0);
                }
            }
            let mut new_row: Vec<usize> = Vec::new();
            new_row.push(ki);
            rows.push(new_row);
        } else {
            proof {
                assert(rb as int == rows@.len() - 1);
            }
            let mut last_row = match rows.pop() {
                Some(v) => v,
                None => Vec::new(),  // unreachable: the grid is non-empty here
            };
            last_row.push(ki);
            rows.push(last_row);
            proof {
                assert(rows@ =~= old_rows.update(old_rows.len() - 1, rows@.last()));
                assert(rows@.last()@ =~= old_rows.last()@.push(ki));
                // The appended key follows every key already in the
                // row, and shares its visual row, so it extends the
                // column order.
                assert forall|c1: int| 0 <= c1 < rows@.last()@.len() - 1 implies col_lt(
                    g.keys@[rows@.last()@[c1] as int],
                    g.keys@[ki as int],
                ) by {
                    let e = old_rows.last()@[c1];
                    let t = choose|t: int| 0 <= t < s && perm@[t] == e;
                    assert(idx_lt(g.keys@, ridx@, perm@[t] as int, perm@[s as int] as int));
                }
            }
        }
        proof {
            assert forall|t: int| 0 <= t < s + 1 implies exists|r: int, c: int|
                0 <= r < rows@.len() && 0 <= c < rows@[r]@.len() && rows@[r]@[c] == (
                #[trigger] perm@[t]) by {
                if t == s {
                    let r = rows@.len() - 1;
                    let c = rows@[r]@.len() - 1;
                    assert(rows@[r]@[c] == perm@[t]);
                } else {
                    let (r, c) = choose|r: int, c: int|
                        0 <= r < old_rows.len() && 0 <= c < old_rows[r]@.len() && old_rows[r]@[c]
                            == (perm@[t]);
                    assert(rows@[r]@[c] == perm@[t]);
                }
            }
        }
        s = s + 1;
    }
    proof {
        assert forall|r1: int, c1: int, r2: int, c2: int|
            0 <= r1 < rows@.len() && 0 <= c1 < rows@[r1]@.len() && 0 <= r2 < rows@.len() && 0 <= c2
                < rows@[r2]@.len() && !(r1 == r2 && c1 == c2) implies (#[trigger] rows@[r1]@[c1])
            != (#[trigger] rows@[r2]@[c2]) by {
            if rows@[r1]@[c1] == rows@[r2]@[c2] {
                if r1 != r2 {
                    assert(ridx@[rows@[r1]@[c1] as int] == r1);
                    assert(false);
                } else if c1 < c2 {
                    assert(col_lt(
                        g.keys@[rows@[r1]@[c1] as int],
                        g.keys@[rows@[r2]@[c2] as int],
                    ));
                    assert(false);
                } else {
                    assert(col_lt(
                        g.keys@[rows@[r2]@[c2] as int],
                        g.keys@[rows@[r1]@[c1] as int],
                    ));
                    assert(false);
                }
            }
        }
        assert forall|ki: int| 0 <= ki < g.keys@.len() implies grid_has(rows@, ki) by {
            assert(perm_has(perm@, ki));
            let t = choose|t: int| 0 <= t < perm@.len() && (#[trigger] perm@[t]) as int == ki;
            let (r, c) = choose|r: int, c: int|
                0 <= r < rows@.len() && 0 <= c < rows@[r]@.len() && rows@[r]@[c] == (perm@[t]);
            assert(rows@[r]@[c] as int == ki);
        }
    }
    rows
}

/// Derives the visual mapping of a geometry.
///
/// The resulting grid holds every key of the geometry exactly once;
/// within a row, columns ascend by `visual_x` with ties broken by
/// matrix position; rows ascend by `visual_y`, and keys within the
/// clustering tolerance of a row's first key share its row.
#[verifier::loop_isolation(false)]
#[verifier::rlimit(60)]
#[verifier::spinoff_prover]
pub fn build_visual_mapping(g: &KeyboardGeometry) -> (m: VisualLayoutMapping)
    requires
        geometry_wf(*g),
        g.keys@.len() <= 256,
    ensures
        mapping_matches_geometry(m, *g),
        mapping_ordered(m),
        m.rows@.len() <= 256,
        forall|r: int| 0 <= r < m.rows@.len() ==> (#[trigger] m.rows@[r]@).len() <= 256,
{
    let n = g.keys.len();
    if n == 0 {
        return VisualLayoutMapping { rows: Vec::new() };
    }
    let starts = cluster_starts(g);
    let ridx = row_indices(g, &starts);
    proof {
        // Every visual row in range is inhabited: its cluster start
        // is some key's height.
        assert forall|r: int| 0 <= r < starts@.len() implies row_inhabited(ridx@, r) by {
            assert(start_is_key_y(g.keys@, starts@[r]));
            let wk = choose|ki: int|
                0 <= ki < g.keys@.len() && (#[trigger] g.keys@[ki]).visual_y == starts@[r];
            lemma_row_of_unique(starts@, g.keys@[wk].visual_y, r);
            assert(ridx@[wk] as int == r);
        }
    }
    let perm = sort_indices(g, &ridx);
    let grid = assemble_rows(g, starts.len(), &ridx, &perm);
    // Copy the keys into the grid shape.
    let mut rows: Vec<Vec<KeyGeometry>> = Vec::new();
    let nr = grid.len();
    let mut r: usize = 0;
    while r < nr
        invariant
            r <= nr == grid@.len(),
            rows@.len() == r,
            forall|a: int| 0 <= a < r ==> (#[trigger] rows@[a]@).len() == grid@[a]@.len(),
            forall|a: int, c: int|
                0 <= a < r && 0 <= c < grid@[a]@.len() ==> (#[trigger] rows@[a]@[c])
                    == g.keys@[grid@[a]@[c] as int],
        decreases nr - r,
    {
        let nc = grid[r].len();
        let mut row: Vec<KeyGeometry> = Vec::new();
        let mut c: usize = 0;
        while c < nc
            invariant
                c <= nc == grid@[r as int]@.len(),
                r < grid@.len(),
                row@.len() == c,
                forall|b: int|
                    0 <= b < c ==> (#[trigger] row@[b]) == g.keys@[grid@[r as int]@[b] as int],
            decreases nc - c,
        {
            row.push(g.keys[grid[r][c]]);
            c = c + 1;
        }
        rows.push(row);
        r = r + 1;
    }
    let m = VisualLayoutMapping { rows };
    proof {
        assert forall|r1: int, c1: int| valid_rc(m.rows@, r1, c1) implies is_some_key(
            g.keys@,
            #[trigger] m.rows@[r1]@[c1],
        ) by {
            let ki = grid@[r1]@[c1] as int;
            assert(g.keys@[ki] == m.rows@[r1]@[c1]);
        }
        assert forall|ki: int| 0 <= ki < g.keys@.len() implies mapping_has_key(
            m.rows@,
            #[trigger] g.keys@[ki],
        ) by {
            assert(grid_has(grid@, ki));
            let (r1, c1) = choose|r1: int, c1: int|
                0 <= r1 < grid@.len() && 0 <= c1 < grid@[r1]@.len() && (#[trigger] grid@[r1]@[c1])
                    as int == ki;
            assert(valid_rc(m.rows@, r1, c1) && m.rows@[r1]@[c1] == g.keys@[ki]);
        }
        assert forall|r1: int, c1: int, r2: int, c2: int|
            valid_rc(m.rows@, r1, c1) && valid_rc(m.rows@, r2, c2) && !(r1 == r2 && c1 == c2)
                implies (#[trigger] m.rows@[r1]@[c1]).matrix_position != (
        #[trigger] m.rows@[r2]@[c2]).matrix_position by {
            let i1 = grid@[r1]@[c1] as int;
            let i2 = grid@[r2]@[c2] as int;
            assert(i1 != i2);
            if i1 < i2 {
                assert(g.keys@[i1].matrix_position != g.keys@[i2].matrix_position);
            } else {
                assert(g.keys@[i2].matrix_position != g.keys@[i1].matrix_position);
            }
        }
        assert forall|r1: int, c1: int, c2: int|
            0 <= r1 < m.rows@.len() && 0 <= c1 < c2 < m.rows@[r1]@.len() implies col_lt(
            #[trigger] m.rows@[r1]@[c1],
            #[trigger] m.rows@[r1]@[c2],
        ) by {
            assert(m.rows@[r1]@[c1] == g.keys@[grid@[r1]@[c1] as int]);
            assert(m.rows@[r1]@[c2] == g.keys@[grid@[r1]@[c2] as int]);
        }
        assert forall|r1: int, c1: int, r2: int, c2: int|
            valid_rc(m.rows@, r1, c1) && valid_rc(m.rows@, r2, c2) && r1 < r2 implies (
        #[trigger] m.rows@[r1]@[c1]).visual_y < (#[trigger] m.rows@[r2]@[c2]).visual_y by {
            let i1 = grid@[r1]@[c1] as int;
            let i2 = grid@[r2]@[c2] as int;
            assert(ridx@[i1] == r1 && ridx@[i2] == r2);
            assert(starts@[r1] <= g.keys@[i1].visual_y);
            assert(g.keys@[i1].visual_y as int <= starts@[r1] as int
                + ROW_CLUSTER_TOLERANCE as int);
            assert(starts@[r2] as int > starts@[r1] as int + ROW_CLUSTER_TOLERANCE as int);
            assert(starts@[r2] <= g.keys@[i2].visual_y);
        }
    }
    m
}

/// On a mapping that matches a well formed geometry, the grid entry
/// that shares a geometry key's matrix position is that key itself, so
/// `resolve(position_for(k))` gives back `k`.
pub proof fn lemma_mapping_round_trip(
    m: VisualLayoutMapping,
    g: KeyboardGeometry,
    k: KeyGeometry,
    p: Position,
)
    requires
        geometry_wf(g),
        mapping_matches_geometry(m, g),
        g.keys@.contains(k),
        spec_resolve(m, p) matches Some(e) && e.matrix_position == k.matrix_position,
    ensures
        spec_resolve(m, p) == Some(k),
{
    let e = spec_resolve(m, p)->Some_0;
    assert(valid_rc(m.rows@, p.row as int, p.col as int));
    assert(is_some_key(g.keys@, e));
    let ki = choose|ki: int|
        0 <= ki < g.keys@.len() && (#[trigger] g.keys@[ki]) == m.rows@[p.row as int]@[p.col as int];
    let kj = choose|kj: int| 0 <= kj < g.keys@.len() && g.keys@[kj] == k;
    if ki != kj {
        assert(g.keys@[ki].matrix_position != g.keys@[kj].matrix_position);
        assert(false);
    }
}

} // verus!
