//! The trail field: a dense row-major scalar field with per-tick
//! diffusion/evaporation and deposition.
//!
//! Intensities are fixed-point integers: a cell holds its intensity scaled by
//! whatever unit the configuration chose (the caller picks the scale; the
//! field only sums, divides by nine, thresholds and overwrites).
//!
//! The 3x3 neighborhood deliberately excludes candidates whose flat index
//! falls outside the field or lands on the wrong row: neighbors above the
//! first row and below the last row add nothing, and horizontal
//! neighbors that would wrap to a different row are dropped. This asymmetric
//! edge handling is part of the field's observable behavior and is kept
//! exactly as stated here.

use vstd::prelude::*;
use crate::grid::WorldDimensions;

verus! {

/// Upper bound on any cell intensity; nine cells of this intensity still sum
/// without overflowing a `u64`.
pub const INTENSITY_CAP: u64 = 0x0100_0000_0000_0000;

/// The scalar trail field, one intensity per cell, row-major.
pub struct TrailMap {
    pub trail: Vec<u64>,
}

/// A field is well formed for a world when it has one cell per grid point and
/// every intensity is at most `INTENSITY_CAP`.
pub open spec fn field_wf(f: Seq<u64>, dim: WorldDimensions) -> bool {
    &&& f.len() == dim.cells()
    &&& forall|i: int| 0 <= i < f.len() ==> f[i] <= INTENSITY_CAP
}

/// Contribution of candidate index `i` to the neighborhood of cell `c`: the
/// cell's value when `i` is inside the field and lies exactly `delta` rows
/// below `c`'s row, and zero otherwise.
pub open spec fn neighbor_value(f: Seq<u64>, c: int, i: int, delta: int, w: int) -> int {
    if 0 <= i < f.len() && i / w == c / w + delta {
        f[i] as int
    } else {
        0
    }
}

/// Sum of the 3x3 neighborhood of cell `c` under the edge-exclusion policy:
/// nine candidates, each included only when its row is exactly one above, the
/// same as, or one below the row of `c`.
pub open spec fn neighborhood_sum(f: Seq<u64>, c: int, w: int) -> int {
    neighbor_value(f, c, c - 1 - w, -1, w) + neighbor_value(f, c, c - w, -1, w) + neighbor_value(f, c, c + 1 - w, -1, w)
        + neighbor_value(f, c, c - 1, 0, w) + neighbor_value(f, c, c, 0, w) + neighbor_value(f, c, c + 1, 0, w)
        + neighbor_value(f, c, c - 1 + w, 1, w) + neighbor_value(f, c, c + w, 1, w) + neighbor_value(f, c, c + 1 + w, 1, w)
}

/// Reads one candidate cell of a 3x3 neighborhood, or zero when the candidate
/// is excluded.
fn neighbor_cell(trail: &Vec<u64>, index: usize, i: i64, delta: i64, dim: &WorldDimensions)
    -> (r: u64)
    requires
        dim.valid(),
        field_wf(trail@, *dim),
        index < trail@.len(),
        -1 <= delta <= 1,
    ensures
        r == neighbor_value(trail@, index as int, i as int, delta as int, dim.width as int),
        r <= INTENSITY_CAP,
{
    let w = dim.width as i64;
    let n = trail.len() as i64;
    let row = index as i64 / w;
    if i >= 0 && i < n && i / w == row + delta {
        trail[i as usize]
    } else {
        0
    }
}

/// Sum of the 3x3 neighborhood centered on the cell with flat index `index`,
/// under the edge-exclusion policy.
pub fn readings_3x3(trail: &Vec<u64>, index: usize, dim: &WorldDimensions) -> (r: u64)
    requires
        dim.valid(),
        field_wf(trail@, *dim),
        index < trail@.len(),
    ensures
        r == neighborhood_sum(trail@, index as int, dim.width as int),
{
    let w = dim.width as i64;
    let c = index as i64;
    let mut sum: u64 = 0;
    sum = sum + neighbor_cell(trail, index, c - 1 - w, -1, dim);
    sum = sum + neighbor_cell(trail, index, c - w, -1, dim);
    sum = sum + neighbor_cell(trail, index, c + 1 - w, -1, dim);
    sum = sum + neighbor_cell(trail, index, c - 1, 0, dim);
    sum = sum + neighbor_cell(trail, index, c, 0, dim);
    sum = sum + neighbor_cell(trail, index, c + 1, 0, dim);
    sum = sum + neighbor_cell(trail, index, c - 1 + w, 1, dim);
    sum = sum + neighbor_cell(trail, index, c + w, 1, dim);
    sum = sum + neighbor_cell(trail, index, c + 1 + w, 1, dim);
    sum
}

/// The 3x3 neighborhood sum divided by nine.
pub fn read_neighborhood_average(trail: &Vec<u64>, index: usize, dim: &WorldDimensions)
    -> (r: u64)
    requires
        dim.valid(),
        field_wf(trail@, *dim),
        index < trail@.len(),
    ensures
        r == neighborhood_sum(trail@, index as int, dim.width as int) / 9,
{
    readings_3x3(trail, index, dim) / 9
}

/// Value of cell `c` after one diffusion/evaporation step over field `f`:
/// the 3x3 neighborhood sum divided by nine, kept when it exceeds the
/// evaporation threshold and evaporated to zero otherwise.
pub open spec fn diffused_cell(f: Seq<u64>, c: int, w: int, threshold: u64) -> u64 {
    let r = neighborhood_sum(f, c, w) / 9;
    if r > threshold {
        r as u64
    } else {
        0
    }
}

/// The whole field after one diffusion/evaporation step.
pub open spec fn diffused(f: Seq<u64>, w: int, threshold: u64) -> Seq<u64> {
    Seq::new(f.len(), |c: int| diffused_cell(f, c, w, threshold))
}

/// Flat index of an agent position.
pub open spec fn position_index(p: (i32, i32), w: int) -> int {
    p.1 * w + p.0
}

/// A position lies on the grid.
pub open spec fn position_in_bounds(p: (i32, i32), dim: WorldDimensions) -> bool {
    &&& 0 <= p.0 < dim.width
    &&& 0 <= p.1 < dim.height
}

/// The field after depositing `intensity` at every position of `ps`, in
/// order. The deposited value is the same everywhere, so the order cannot be
/// observed.
pub open spec fn deposited(f: Seq<u64>, ps: Seq<(i32, i32)>, w: int, intensity: u64)
    -> Seq<u64>
    decreases ps.len(),
{
    if ps.len() == 0 {
        f
    } else {
        deposited(f, ps.drop_last(), w, intensity).update(
            position_index(ps.last(), w),
            intensity,
        )
    }
}

impl TrailMap {
    /// A fresh all-zero field with one cell per grid point.
    pub fn new(dim: &WorldDimensions) -> (r: TrailMap)
        requires
            dim.valid(),
        ensures
            field_wf(r.trail@, *dim),
            forall|i: int| 0 <= i < r.trail@.len() ==> r.trail@[i] == 0,
    {
        let n = (dim.width as usize) * (dim.height as usize);
        proof {
            assert(dim.width * dim.height == (dim.width as usize) * (dim.height as usize))
                by (nonlinear_arith)
                requires
                    1 <= dim.width,
                    1 <= dim.height,
            ;
        }
        let mut trail: Vec<u64> = Vec::new();
        let mut i: usize = 0;
        while i < n
            invariant
                i <= n,
                trail@.len() == i,
                forall|j: int| 0 <= j < i ==> trail@[j] == 0,
            decreases n - i,
        {
            trail.push(0);
            i = i + 1;
        }
        TrailMap { trail }
    }

    /// One diffusion/evaporation step, computed from a snapshot of the field
    /// as it stood before the step, so no cell reads a half-updated neighbor.
    pub fn diffuse_and_evaporate(&mut self, dim: &WorldDimensions, threshold: u64)
        requires
            dim.valid(),
            field_wf(old(self).trail@, *dim),
        ensures
            final(self).trail@ == diffused(old(self).trail@, dim.width as int, threshold),
            field_wf(final(self).trail@, *dim),
    {
        let ghost f0 = self.trail@;
        let snapshot = copy_field(&self.trail);
        let n = self.trail.len();
        let mut i: usize = 0;
        while i < n
            invariant
                i <= n,
                dim.valid(),
                snapshot@ == f0,
                field_wf(f0, *dim),
                self.trail@.len() == n,
                n == f0.len(),
                forall|j: int| 0 <= j < i
                    ==> self.trail@[j] == diffused_cell(f0, j, dim.width as int, threshold),
                forall|j: int| i <= j < n ==> self.trail@[j] == f0[j],
            decreases n - i,
        {
            let s = readings_3x3(&snapshot, i, dim);
            let v = s / 9;
            proof {
                vstd::arithmetic::div_mod::lemma_div_is_ordered(
                    s as int, 9 * INTENSITY_CAP, 9);
                vstd::arithmetic::div_mod::lemma_div_multiples_vanish(
                    INTENSITY_CAP as int, 9);
            }
            if v > threshold {
                self.trail.set(i, v);
            } else {
                self.trail.set(i, 0);
            }
            i = i + 1;
        }
        proof {
            assert(self.trail@ =~= diffused(f0, dim.width as int, threshold));
        }
    }

    /// Deposits a fixed intensity at every given agent position, overwriting
    /// whatever diffusion left there.
    pub fn deposit(
        &mut self,
        positions: &Vec<(i32, i32)>,
        dim: &WorldDimensions,
        intensity: u64,
    )
        requires
            dim.valid(),
            field_wf(old(self).trail@, *dim),
            intensity <= INTENSITY_CAP,
            forall|j: int| 0 <= j < positions@.len()
                ==> position_in_bounds(#[trigger] positions@[j], *dim),
        ensures
            final(self).trail@ == deposited(
                old(self).trail@, positions@, dim.width as int, intensity),
            field_wf(final(self).trail@, *dim),
    {
        let ghost f0 = self.trail@;
        let ghost ps = positions@;
        let m = positions.len();
        let mut k: usize = 0;
        while k < m
            invariant
                k <= m,
                dim.valid(),
                m == ps.len(),
                positions@ == ps,
                intensity <= INTENSITY_CAP,
                forall|j: int| 0 <= j < ps.len()
                    ==> position_in_bounds(#[trigger] ps[j], *dim),
                field_wf(f0, *dim),
                self.trail@ == deposited(f0, ps.take(k as int), dim.width as int, intensity),
                self.trail@.len() == f0.len(),
                forall|i: int| 0 <= i < self.trail@.len()
                    ==> self.trail@[i] <= INTENSITY_CAP,
            decreases m - k,
        {
            let p = positions[k];
            let idx = crate::grid::to_index(p.0, p.1, dim);
            self.trail.set(idx, intensity);
            proof {
                let wi = dim.width as int;
                assert(ps.take(k + 1).drop_last() =~= ps.take(k as int));
                assert(ps.take(k + 1).last() == ps[k as int]);
                assert(self.trail@ =~= deposited(f0, ps.take(k + 1), wi, intensity));
            }
            k = k + 1;
        }
        proof {
            assert(ps.take(m as int) =~= ps);
        }
    }
}

/// A fresh copy of the field's cells.
fn copy_field(trail: &Vec<u64>) -> (r: Vec<u64>)
    ensures
        r@ == trail@,
{
    let n = trail.len();
    let mut out: Vec<u64> = Vec::new();
    let mut i: usize = 0;
    while i < n
        invariant
            i <= n,
            n == trail@.len(),
            out@ =~= trail@.take(i as int),
        decreases n - i,
    {
        out.push(trail[i]);
        i = i + 1;
    }
    proof {
        assert(out@ =~= trail@);
    }
    out
}

/// One full field update for a tick: diffusion/evaporation from the pre-tick
/// snapshot, then deposition at the agents' post-move positions.
pub fn trail_map(
    map: &mut TrailMap,
    positions: &Vec<(i32, i32)>,
    dim: &WorldDimensions,
    threshold: u64,
    intensity: u64,
)
    requires
        dim.valid(),
        field_wf(old(map).trail@, *dim),
        intensity <= INTENSITY_CAP,
        forall|j: int| 0 <= j < positions@.len()
            ==> position_in_bounds(#[trigger] positions@[j], *dim),
    ensures
        final(map).trail@ == deposited(
            diffused(old(map).trail@, dim.width as int, threshold),
            positions@,
            dim.width as int,
            intensity,
        ),
        field_wf(final(map).trail@, *dim),
{
    map.diffuse_and_evaporate(dim, threshold);
    map.deposit(positions, dim, intensity);
}

/// After deposition a cell holds the deposit intensity when some position of
/// the list maps to it, and its prior value otherwise; the field keeps its
/// length.
pub proof fn lemma_deposited_cell(
    f: Seq<u64>,
    ps: Seq<(i32, i32)>,
    w: int,
    intensity: u64,
    c: int,
)
    requires
        0 <= c < f.len(),
        forall|j: int| 0 <= j < ps.len()
            ==> 0 <= #[trigger] position_index(ps[j], w) < f.len(),
    ensures
        deposited(f, ps, w, intensity).len() == f.len(),
        (exists|j: int| 0 <= j < ps.len() && #[trigger] position_index(ps[j], w) == c)
            ==> deposited(f, ps, w, intensity)[c] == intensity,
        !(exists|j: int| 0 <= j < ps.len() && #[trigger] position_index(ps[j], w) == c)
            ==> deposited(f, ps, w, intensity)[c] == f[c],
    decreases ps.len(),
{
    if ps.len() == 0 {
    } else {
        let head = ps.drop_last();
        assert forall|j: int| 0 <= j < head.len()
            implies 0 <= #[trigger] position_index(head[j], w) < f.len() by {
            assert(head[j] == ps[j]);
            assert(0 <= position_index(ps[j], w) < f.len());
        }
        lemma_deposited_cell(f, head, w, intensity, c);
        assert(0 <= position_index(ps[ps.len() - 1], w) < f.len());
        assert(ps.last() == ps[ps.len() - 1]);
        if position_index(ps.last(), w) == c {
            assert(position_index(ps[ps.len() - 1], w) == c);
        } else {
            assert forall|j: int| 0 <= j < head.len()
                && #[trigger] position_index(head[j], w) == c
                implies exists|j2: int| 0 <= j2 < ps.len()
                    && #[trigger] position_index(ps[j2], w) == c by {
                assert(ps[j] == head[j]);
            }
            if exists|j: int| 0 <= j < ps.len() && #[trigger] position_index(ps[j], w) == c {
                let j = choose|j: int| 0 <= j < ps.len()
                    && #[trigger] position_index(ps[j], w) == c;
                assert(j < ps.len() - 1);
                assert(position_index(head[j], w) == c);
            }
        }
    }
}

/// Deposition is idempotent: depositing at a position already deposited in
/// the same pass leaves the field exactly as it was.
pub proof fn lemma_deposit_idempotent(
    f: Seq<u64>,
    ps: Seq<(i32, i32)>,
    p: (i32, i32),
    w: int,
    intensity: u64,
)
    requires
        ps.contains(p),
        0 <= position_index(p, w) < f.len(),
        forall|j: int| 0 <= j < ps.len()
            ==> 0 <= #[trigger] position_index(ps[j], w) < f.len(),
    ensures
        deposited(f, ps.push(p), w, intensity) == deposited(f, ps, w, intensity),
{
    let c = position_index(p, w);
    let base = deposited(f, ps, w, intensity);
    assert(ps.push(p).drop_last() =~= ps);
    assert(ps.push(p).last() == p);
    let j = choose|j: int| 0 <= j < ps.len() && ps[j] == p;
    assert(position_index(ps[j], w) == c);
    lemma_deposited_cell(f, ps, w, intensity, c);
    assert forall|i: int| 0 <= i < ps.push(p).len()
        implies 0 <= #[trigger] position_index(ps.push(p)[i], w) < f.len() by {
        if i < ps.len() {
            assert(ps.push(p)[i] == ps[i]);
            assert(0 <= position_index(ps[i], w) < f.len());
        } else {
            assert(ps.push(p)[i] == p);
        }
    }
    lemma_deposited_cell(f, ps.push(p), w, intensity, c);
    assert(base[c] == intensity);
    assert(deposited(f, ps.push(p), w, intensity) =~= base);
}

/// The value of `f` at `i`, indices outside the field counting as zero.
pub open spec fn cell_or_zero(f: Seq<u64>, i: int) -> int {
    if 0 <= i < f.len() {
        f[i] as int
    } else {
        0
    }
}

/// Sum of the cells with index below `k`; indices past the end add zero.
pub open spec fn prefix_sum(f: Seq<u64>, k: int) -> int
    decreases k,
{
    if k <= 0 {
        0
    } else {
        prefix_sum(f, k - 1) + cell_or_zero(f, k - 1)
    }
}

/// Total mass of the field: the sum of every cell.
pub open spec fn field_sum(f: Seq<u64>) -> int {
    prefix_sum(f, f.len() as int)
}

proof fn lemma_prefix_sum_nonneg(f: Seq<u64>, k: int)
    ensures
        0 <= prefix_sum(f, k),
    decreases k,
{
    if k > 0 {
        lemma_prefix_sum_nonneg(f, k - 1);
    }
}

proof fn lemma_prefix_sum_step(f: Seq<u64>, m: int)
    ensures
        prefix_sum(f, m + 1) == prefix_sum(f, m) + cell_or_zero(f, m),
{
}

proof fn lemma_prefix_sum_monotone(f: Seq<u64>, a: int, b: int)
    requires
        a <= b,
    ensures
        prefix_sum(f, a) <= prefix_sum(f, b),
    decreases b - a,
{
    if a < b {
        lemma_prefix_sum_monotone(f, a, b - 1);
    }
}

proof fn lemma_prefix_sum_capped(f: Seq<u64>, k: int)
    requires
        k >= f.len(),
    ensures
        prefix_sum(f, k) == field_sum(f),
    decreases k - f.len(),
{
    if k > f.len() {
        lemma_prefix_sum_capped(f, k - 1);
    }
}

/// Sum of three consecutive cells centered at `m`.
spec fn triple(f: Seq<u64>, m: int) -> int {
    cell_or_zero(f, m - 1) + cell_or_zero(f, m) + cell_or_zero(f, m + 1)
}

/// Sum over the cells `c` below `k` of the three cells centered at `c + s`.
spec fn triple_prefix(f: Seq<u64>, s: int, k: int) -> int
    decreases k,
{
    if k <= 0 {
        0
    } else {
        triple_prefix(f, s, k - 1) + triple(f, k - 1 + s)
    }
}

/// Every cell lands in at most three of the shifted windows, so the shifted
/// window sums are bounded by three times the mass plus a boundary term.
proof fn lemma_triple_prefix_bound(f: Seq<u64>, s: int, k: int)
    requires
        k >= 0,
    ensures
        triple_prefix(f, s, k) <= 3 * prefix_sum(f, k + s - 1)
            + 2 * cell_or_zero(f, k + s - 1) + cell_or_zero(f, k + s),
    decreases k,
{
    if k == 0 {
        lemma_prefix_sum_nonneg(f, s - 1);
    } else {
        lemma_triple_prefix_bound(f, s, k - 1);
        lemma_prefix_sum_step(f, k + s - 2);
    }
}

/// Sum over the cells below `k` of their diffused values.
spec fn diffused_prefix(f: Seq<u64>, w: int, threshold: u64, k: int) -> int
    decreases k,
{
    if k <= 0 {
        0
    } else {
        diffused_prefix(f, w, threshold, k - 1) + diffused_cell(f, k - 1, w, threshold)
    }
}

/// Nine times one diffused cell is at most the three 3-cell windows its
/// neighborhood draws from.
proof fn lemma_diffused_cell_le(f: Seq<u64>, c: int, w: int, threshold: u64)
    requires
        1 <= w,
    ensures
        9 * (diffused_cell(f, c, w, threshold) as int)
            <= triple(f, c - w) + triple(f, c) + triple(f, c + w),
{
    let nsum = neighborhood_sum(f, c, w);
    assert(nsum <= triple(f, c - w) + triple(f, c) + triple(f, c + w));
    assert(nsum <= 9 * (u64::MAX as int));
    vstd::arithmetic::div_mod::lemma_div_is_ordered(nsum, 9 * (u64::MAX as int), 9);
    vstd::arithmetic::div_mod::lemma_div_multiples_vanish(u64::MAX as int, 9);
    vstd::arithmetic::div_mod::lemma_fundamental_div_mod(nsum, 9);
    vstd::arithmetic::div_mod::lemma_mod_division_less_than_divisor(nsum, 9);
    vstd::arithmetic::div_mod::lemma_div_pos_is_pos(nsum, 9);
}

proof fn lemma_diffused_prefix_bound(f: Seq<u64>, w: int, threshold: u64, k: int)
    requires
        1 <= w,
        k >= 0,
    ensures
        9 * diffused_prefix(f, w, threshold, k) <= triple_prefix(f, -w, k)
            + triple_prefix(f, 0, k) + triple_prefix(f, w, k),
    decreases k,
{
    if k > 0 {
        lemma_diffused_prefix_bound(f, w, threshold, k - 1);
        lemma_diffused_cell_le(f, k - 1, w, threshold);
    }
}

proof fn lemma_diffused_prefix_is_prefix_sum(f: Seq<u64>, w: int, threshold: u64, k: int)
    requires
        0 <= k <= f.len(),
    ensures
        prefix_sum(diffused(f, w, threshold), k) == diffused_prefix(f, w, threshold, k),
    decreases k,
{
    if k > 0 {
        lemma_diffused_prefix_is_prefix_sum(f, w, threshold, k - 1);
        assert(cell_or_zero(diffused(f, w, threshold), k - 1)
            == diffused_cell(f, k - 1, w, threshold) as int);
    }
}

/// Diffusion only redistributes and evaporation only removes: one
/// diffusion/evaporation step never increases the total mass of the field.
pub proof fn lemma_diffusion_mass_bounded(f: Seq<u64>, w: int, threshold: u64)
    requires
        1 <= w,
    ensures
        field_sum(diffused(f, w, threshold)) <= field_sum(f),
{
    let n = f.len() as int;
    assert(diffused(f, w, threshold).len() == n);
    lemma_diffused_prefix_is_prefix_sum(f, w, threshold, n);
    lemma_diffused_prefix_bound(f, w, threshold, n);
    lemma_triple_prefix_bound(f, -w, n);
    lemma_triple_prefix_bound(f, 0, n);
    lemma_triple_prefix_bound(f, w, n);
    lemma_prefix_sum_capped(f, n + w - 1);
    lemma_prefix_sum_step(f, n - 1);
    assert(cell_or_zero(f, n) == 0);
    assert(cell_or_zero(f, n + w - 1) == 0);
    assert(cell_or_zero(f, n + w) == 0);
    lemma_prefix_sum_step(f, n - w - 1);
    lemma_prefix_sum_step(f, n - w);
    lemma_prefix_sum_monotone(f, n - w + 1, n);
    assert(9 * field_sum(diffused(f, w, threshold)) <= 9 * field_sum(f));
}

} // verus!
