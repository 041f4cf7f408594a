//! Cursor traversals over the spatial hash: a full row-major walk over every
//! cell, and a clipped square "region" walk around a cell, used as the
//! broad-phase neighbor query.

use vstd::prelude::*;
use crate::fixed::{ONE, fx_in_range, spec_fx_add, spec_fx_mul, spec_fx_sub};
use crate::vector_2::{Vector2, spec_vsub, spec_length_squared};
use crate::spatial_hash::{SpatialHash, MAX_GRID, pos_in_grid, spec_cell_coord};

verus! {

/// A cursor over a rectangular window of cells, visited row-major. A fresh
/// cursor stands "before" the first cell; each `next` advances it, and
/// `cell` reads the bucket under it.
pub struct SpatialHashIter<'a> {
    pub spatial_hash: &'a SpatialHash,
    pub x_start: usize,
    pub x_end: usize,
    pub y_start: usize,
    pub y_end: usize,
    pub x: usize,
    pub y: usize,
    pub started: bool,
}

impl<'a> SpatialHashIter<'a> {
    pub open spec fn wf(&self) -> bool {
        &&& self.spatial_hash.wf()
        &&& self.x_start < self.x_end <= self.spatial_hash.x_size
        &&& self.y_start < self.y_end <= self.spatial_hash.y_size
        &&& (self.started ==> self.x_start <= self.x < self.x_end && self.y_start <= self.y
            <= self.y_end)
        &&& (!self.started ==> self.x == self.x_start && self.y == self.y_start)
    }

    /// The cursor stands on a cell (it has been advanced at least once and
    /// is not exhausted).
    pub open spec fn valid(&self) -> bool {
        self.started && self.y < self.y_end
    }

    /// Flat bucket index of the cell under the cursor.
    pub open spec fn spec_cur_cell(&self) -> int {
        self.x + self.y * self.spatial_hash.y_size
    }

    /// A fresh full traversal: the window is the whole grid and the first
    /// `next` lands on cell `(0, 0)`.
    pub fn new(spatial_hash: &'a SpatialHash) -> (r: SpatialHashIter<'a>)
        requires
            spatial_hash.wf(),
        ensures
            r.wf(),
            r.spatial_hash == spatial_hash,
            r.x_start == 0 && r.x_end == spatial_hash.x_size,
            r.y_start == 0 && r.y_end == spatial_hash.y_size,
            !r.started,
    {
        SpatialHashIter {
            spatial_hash,
            x_start: 0,
            x_end: spatial_hash.x_size,
            y_start: 0,
            y_end: spatial_hash.y_size,
            x: 0,
            y: 0,
            started: false,
        }
    }

    /// A fresh traversal over the square window of `radius` cells around the
    /// cell the given cursor stands on, clipped to the grid. The window
    /// includes the center cell itself.
    pub fn new_region(spatial_hash_iter: &'a SpatialHashIter<'a>, radius: usize) -> (r:
        SpatialHashIter<'a>)
        requires
            spatial_hash_iter.wf(),
            spatial_hash_iter.valid(),
            radius <= MAX_GRID,
        ensures
            r.wf(),
            r.spatial_hash == spatial_hash_iter.spatial_hash,
            r.x_start == if spatial_hash_iter.x < radius {
                0usize
            } else {
                (spatial_hash_iter.x - radius) as usize
            },
            r.x_end == vstd::math::min(
                r.spatial_hash.x_size as int,
                spatial_hash_iter.x + radius + 1,
            ),
            r.y_start == if spatial_hash_iter.y < radius {
                0usize
            } else {
                (spatial_hash_iter.y - radius) as usize
            },
            r.y_end == vstd::math::min(
                r.spatial_hash.y_size as int,
                spatial_hash_iter.y + radius + 1,
            ),
            !r.started,
    {
        let spatial_hash = spatial_hash_iter.spatial_hash;
        let x_start = if spatial_hash_iter.x < radius {
            0
        } else {
            spatial_hash_iter.x - radius
        };
        let x_end = if spatial_hash.x_size < spatial_hash_iter.x + radius + 1 {
            spatial_hash.x_size
        } else {
            spatial_hash_iter.x + radius + 1
        };
        let y_start = if spatial_hash_iter.y < radius {
            0
        } else {
            spatial_hash_iter.y - radius
        };
        let y_end = if spatial_hash.y_size < spatial_hash_iter.y + radius + 1 {
            spatial_hash.y_size
        } else {
            spatial_hash_iter.y + radius + 1
        };
        SpatialHashIter {
            spatial_hash,
            x_start,
            x_end,
            y_start,
            y_end,
            x: x_start,
            y: y_start,
            started: false,
        }
    }

    /// Advance to the next cell of the window, row-major; `false` means the
    /// window is exhausted and the cursor no longer stands on a cell.
    pub fn next(&mut self) -> (more: bool)
        requires
            old(self).wf(),
        ensures
            final(self).wf(),
            final(self).spatial_hash == old(self).spatial_hash,
            final(self).x_start == old(self).x_start,
            final(self).x_end == old(self).x_end,
            final(self).y_start == old(self).y_start,
            final(self).y_end == old(self).y_end,
            more == final(self).valid(),
            !old(self).started ==> final(self).started && final(self).x == old(self).x_start
                && final(self).y == old(self).y_start && more,
            old(self).started && old(self).y >= old(self).y_end ==> *final(self) == *old(self)
                && !more,
            old(self).started && old(self).y < old(self).y_end && old(self).x + 1 < old(
                self,
            ).x_end ==> final(self).x == old(self).x + 1 && final(self).y == old(self).y && more,
            old(self).started && old(self).y < old(self).y_end && old(self).x + 1 == old(
                self,
            ).x_end ==> final(self).x == old(self).x_start && final(self).y == old(self).y + 1,
    {
        if !self.started {
            self.started = true;
            return true;
        }
        if self.y >= self.y_end {
            return false;
        }
        if self.x + 1 < self.x_end {
            self.x = self.x + 1;
            return true;
        }
        self.x = self.x_start;
        self.y = self.y + 1;
        self.y < self.y_end
    }

    /// The bucket under the cursor.
    pub fn cell(&self) -> (r: &Vec<usize>)
        requires
            self.wf(),
            self.valid(),
        ensures
            0 <= self.spec_cur_cell() < self.spatial_hash.cells_view().len(),
            r@ == self.spatial_hash.cells_view()[self.spec_cur_cell()],
    {
        proof {
            lemma_coords_index_bound(
                self.x as int,
                self.y as int,
                self.spatial_hash.x_size as int,
                self.spatial_hash.y_size as int,
            );
        }
        let idx = self.x + self.y * self.spatial_hash.y_size;
        &self.spatial_hash.cells[idx]
    }
}

/// The bucket entries of row `y`, columns `x0 .. x`, concatenated in column
/// order.
pub open spec fn spec_row_cands(
    cells: Seq<Seq<usize>>,
    y: int,
    y_size: int,
    x0: int,
    x: int,
) -> Seq<usize>
    decreases x - x0,
{
    if x <= x0 {
        Seq::empty()
    } else {
        spec_row_cands(cells, y, y_size, x0, x - 1) + cells[(x - 1) + y * y_size]
    }
}

/// The bucket entries of the window `[x0, x1) x [y0, y)`, concatenated
/// row-major: everything a region traversal up to row `y` hands out.
pub open spec fn spec_win_cands(
    cells: Seq<Seq<usize>>,
    x0: int,
    x1: int,
    y0: int,
    y: int,
    y_size: int,
) -> Seq<usize>
    decreases y - y0,
{
    if y <= y0 {
        Seq::empty()
    } else {
        spec_win_cands(cells, x0, x1, y0, y - 1, y_size) + spec_row_cands(
            cells,
            y - 1,
            y_size,
            x0,
            x1,
        )
    }
}

/// Every entry a row scan hands out is a stored particle index (below `m`),
/// provided the scanned cells lie inside the bucket array.
pub proof fn lemma_row_cands_entries(
    cells: Seq<Seq<usize>>,
    particles: Seq<crate::particle::Particle>,
    y_size: int,
    m: int,
    y: int,
    x0: int,
    x1: int,
)
    requires
        crate::spatial_hash::entries_sound(cells, particles, y_size, m),
        forall|x: int| x0 <= x < x1 ==> 0 <= #[trigger] (x + y * y_size) < cells.len(),
    ensures
        forall|k: int|
            0 <= k < spec_row_cands(cells, y, y_size, x0, x1).len() ==> (#[trigger] spec_row_cands(
                cells,
                y,
                y_size,
                x0,
                x1,
            )[k] as int) < m,
    decreases x1 - x0,
{
    if x1 > x0 {
        lemma_row_cands_entries(cells, particles, y_size, m, y, x0, x1 - 1);
        let prev = spec_row_cands(cells, y, y_size, x0, x1 - 1);
        let cur = spec_row_cands(cells, y, y_size, x0, x1);
        let c = (x1 - 1) + y * y_size;
        assert forall|k: int| 0 <= k < cur.len() implies (#[trigger] cur[k] as int) < m by {
            if k < prev.len() {
                assert(cur[k] == prev[k]);
            } else {
                assert(cur[k] == cells[c][k - prev.len()]);
            }
        }
    }
}

/// Every entry a window scan hands out is a stored particle index (below
/// `m`), provided the scanned cells lie inside the bucket array.
pub proof fn lemma_win_cands_entries(
    cells: Seq<Seq<usize>>,
    particles: Seq<crate::particle::Particle>,
    y_size: int,
    m: int,
    x0: int,
    x1: int,
    y0: int,
    y1: int,
)
    requires
        crate::spatial_hash::entries_sound(cells, particles, y_size, m),
        forall|x: int, y: int|
            x0 <= x < x1 && y0 <= y < y1 ==> 0 <= #[trigger] (x + y * y_size) < cells.len(),
    ensures
        forall|k: int|
            0 <= k < spec_win_cands(cells, x0, x1, y0, y1, y_size).len() ==> (
            #[trigger] spec_win_cands(cells, x0, x1, y0, y1, y_size)[k] as int) < m,
    decreases y1 - y0,
{
    if y1 > y0 {
        lemma_win_cands_entries(cells, particles, y_size, m, x0, x1, y0, y1 - 1);
        lemma_row_cands_entries(cells, particles, y_size, m, y1 - 1, x0, x1);
        let prev = spec_win_cands(cells, x0, x1, y0, y1 - 1, y_size);
        let row = spec_row_cands(cells, y1 - 1, y_size, x0, x1);
        let cur = spec_win_cands(cells, x0, x1, y0, y1, y_size);
        assert forall|k: int| 0 <= k < cur.len() implies (#[trigger] cur[k] as int) < m by {
            if k < prev.len() {
                assert(cur[k] == prev[k]);
            } else {
                assert(cur[k] == row[k - prev.len()]);
            }
        }
    }
}

/// A row scan hands out everything stored in each cell it covers.
pub proof fn lemma_row_cands_superset(
    cells: Seq<Seq<usize>>,
    y: int,
    y_size: int,
    x0: int,
    x1: int,
    cx: int,
    v: usize,
)
    requires
        x0 <= cx < x1,
        cells[cx + y * y_size].contains(v),
    ensures
        spec_row_cands(cells, y, y_size, x0, x1).contains(v),
    decreases x1 - x0,
{
    let cur = spec_row_cands(cells, y, y_size, x0, x1);
    if cx == x1 - 1 {
        let prev = spec_row_cands(cells, y, y_size, x0, x1 - 1);
        let k = choose|k: int|
            0 <= k < cells[cx + y * y_size].len() && #[trigger] cells[cx + y * y_size][k] == v;
        assert(cur[prev.len() + k] == v);
    } else {
        lemma_row_cands_superset(cells, y, y_size, x0, x1 - 1, cx, v);
        let prev = spec_row_cands(cells, y, y_size, x0, x1 - 1);
        let k = choose|k: int| 0 <= k < prev.len() && prev[k] == v;
        assert(cur[k] == v);
    }
}

/// A window scan hands out everything stored in each cell it covers.
pub proof fn lemma_win_cands_superset(
    cells: Seq<Seq<usize>>,
    x0: int,
    x1: int,
    y0: int,
    y1: int,
    y_size: int,
    cx: int,
    cy: int,
    v: usize,
)
    requires
        x0 <= cx < x1,
        y0 <= cy < y1,
        cells[cx + cy * y_size].contains(v),
    ensures
        spec_win_cands(cells, x0, x1, y0, y1, y_size).contains(v),
    decreases y1 - y0,
{
    let cur = spec_win_cands(cells, x0, x1, y0, y1, y_size);
    if cy == y1 - 1 {
        lemma_row_cands_superset(cells, cy, y_size, x0, x1, cx, v);
        let prev = spec_win_cands(cells, x0, x1, y0, y1 - 1, y_size);
        let row = spec_row_cands(cells, cy, y_size, x0, x1);
        let k = choose|k: int| 0 <= k < row.len() && row[k] == v;
        assert(cur[prev.len() + k] == v);
    } else {
        lemma_win_cands_superset(cells, x0, x1, y0, y1 - 1, y_size, cx, cy, v);
        let prev = spec_win_cands(cells, x0, x1, y0, y1 - 1, y_size);
        let k = choose|k: int| 0 <= k < prev.len() && prev[k] == v;
        assert(cur[k] == v);
    }
}

/// Cell radius of the broad-phase region query: `ceil(2 * radius)` in world
/// units, so any pair closer than the contact distance shares a window (see
/// `lemma_region_complete`).
pub open spec fn spec_region_radius(radius: int) -> int {
    (radius + radius + ONE - 1) / (ONE as int)
}

pub fn region_radius(radius: i64) -> (r: usize)
    requires
        0 < radius,
        (radius as int) + (radius as int) <= crate::fixed::FX_MAX as int,
    ensures
        r == spec_region_radius(radius as int),
        r <= MAX_GRID,
{
    let r2: u64 = (radius as u64) + (radius as u64);
    (((r2 + 65535) / 65536)) as usize
}

/// Cell coordinates inside the grid index into the flat bucket array.
pub proof fn lemma_coords_index_bound(cx: int, cy: int, x_size: int, y_size: int)
    requires
        0 <= cx < x_size,
        0 <= cy < y_size,
        1 <= y_size <= x_size,
    ensures
        0 <= cx + cy * y_size < x_size * y_size,
{
    assert(cx + cy * y_size < x_size * y_size) by (nonlinear_arith)
        requires
            0 <= cx < x_size,
            0 <= cy < y_size,
            1 <= y_size <= x_size,
    ;
    assert(0 <= cx + cy * y_size) by (nonlinear_arith)
        requires
            0 <= cx,
            0 <= cy,
            1 <= y_size,
    ;
}

/// A nonnegative coordinate lies inside its cell.
pub proof fn lemma_coord_floor(a: int)
    requires
        0 <= a,
    ensures
        0 <= spec_cell_coord(a),
        spec_cell_coord(a) * (ONE as int) <= a,
        a < (spec_cell_coord(a) + 1) * (ONE as int),
{
    assert(0 <= a / (ONE as int) && (a / (ONE as int)) * (ONE as int) <= a && a < (a / (
    ONE as int) + 1) * (ONE as int)) by (nonlinear_arith)
        requires
            0 <= a,
    ;
}

/// Region completeness: two in-grid positions closer (in squared fixed-point
/// distance, as the detection pass measures it) than the squared contact
/// diameter lie at most `ceil(2 * radius)` cells apart on each axis, so a
/// region query of that radius around either one's cell visits the other's
/// cell.
pub proof fn lemma_region_complete(
    p: Vector2,
    q: Vector2,
    x_size: int,
    y_size: int,
    radius: int,
    region: int,
)
    requires
        pos_in_grid(p, x_size, y_size),
        pos_in_grid(q, x_size, y_size),
        1 <= y_size <= x_size <= MAX_GRID,
        0 < radius,
        radius + radius <= crate::fixed::FX_MAX,
        spec_length_squared(spec_vsub(q, p)) < spec_fx_mul(
            spec_fx_add(radius, radius),
            spec_fx_add(radius, radius),
        ),
        region == (radius + radius + ONE - 1) / (ONE as int),
    ensures
        spec_cell_coord(p.x as int) - region <= spec_cell_coord(q.x as int) <= spec_cell_coord(
            p.x as int,
        ) + region,
        spec_cell_coord(p.y as int) - region <= spec_cell_coord(q.y as int) <= spec_cell_coord(
            p.y as int,
        ) + region,
{
    let one = ONE as int;
    let r2 = radius + radius;
    let dx = (q.x as int) - (p.x as int);
    let dy = (q.y as int) - (p.y as int);
    // Positions are in range, so the componentwise difference is exact.
    assert(x_size * one <= MAX_GRID * one) by (nonlinear_arith)
        requires
            x_size <= MAX_GRID,
            one == 65536,
    ;
    assert(y_size * one <= MAX_GRID * one) by (nonlinear_arith)
        requires
            y_size <= MAX_GRID,
            one == 65536,
    ;
    assert(spec_fx_sub(q.x as int, p.x as int) == dx);
    assert(spec_fx_sub(q.y as int, p.y as int) == dy);
    let tx = spec_fx_mul(dx, dx);
    let ty = spec_fx_mul(dy, dy);
    let d2 = spec_length_squared(spec_vsub(q, p));
    let dsm = spec_fx_mul(r2, r2);
    assert(dx * dx >= 0 && dy * dy >= 0 && r2 * r2 >= 0) by (nonlinear_arith);
    assert(0 <= (dx * dx) / one && 0 <= (dy * dy) / one && 0 <= (r2 * r2) / one) by (
    nonlinear_arith)
        requires
            dx * dx >= 0,
            dy * dy >= 0,
            r2 * r2 >= 0,
            one == 65536,
    ;
    // The squared distance is below the saturation bound, so neither square
    // was saturated away: each addend is bounded by the total.
    assert(tx <= d2 && ty <= d2);
    assert(tx == (dx * dx) / one || d2 == crate::fixed::FX_MAX as int);
    assert(d2 < dsm && dsm <= crate::fixed::FX_MAX as int);
    assert((dx * dx) / one < (r2 * r2) / one);
    assert((dy * dy) / one < (r2 * r2) / one);
    // Floors strictly ordered means the numerators are strictly ordered.
    assert(dx * dx < r2 * r2) by (nonlinear_arith)
        requires
            (dx * dx) / one < (r2 * r2) / one,
            one == 65536,
            dx * dx >= 0,
            r2 * r2 >= 0,
    ;
    assert(dy * dy < r2 * r2) by (nonlinear_arith)
        requires
            (dy * dy) / one < (r2 * r2) / one,
            one == 65536,
            dy * dy >= 0,
            r2 * r2 >= 0,
    ;
    assert(-r2 < dx < r2) by (nonlinear_arith)
        requires
            dx * dx < r2 * r2,
            r2 > 0,
    ;
    assert(-r2 < dy < r2) by (nonlinear_arith)
        requires
            dy * dy < r2 * r2,
            r2 > 0,
    ;
    // ceil(2 radius) cells cover a span of 2 radius.
    assert(region * one >= r2 && region >= 0) by (nonlinear_arith)
        requires
            region == (r2 + one - 1) / one,
            one == 65536,
            r2 > 0,
    ;
    lemma_coord_floor(p.x as int);
    lemma_coord_floor(q.x as int);
    lemma_coord_floor(p.y as int);
    lemma_coord_floor(q.y as int);
    let pcx = spec_cell_coord(p.x as int);
    let qcx = spec_cell_coord(q.x as int);
    let pcy = spec_cell_coord(p.y as int);
    let qcy = spec_cell_coord(q.y as int);
    assert(qcx <= pcx + region) by (nonlinear_arith)
        requires
            qcx * one <= q.x as int,
            (q.x as int) < (p.x as int) + r2,
            (p.x as int) < (pcx + 1) * one,
            r2 <= region * one,
            one == 65536,
    ;
    assert(qcx >= pcx - region) by (nonlinear_arith)
        requires
            (q.x as int) < (qcx + 1) * one,
            (p.x as int) - r2 < (q.x as int),
            pcx * one <= p.x as int,
            r2 <= region * one,
            one == 65536,
    ;
    assert(qcy <= pcy + region) by (nonlinear_arith)
        requires
            qcy * one <= q.y as int,
            (q.y as int) < (p.y as int) + r2,
            (p.y as int) < (pcy + 1) * one,
            r2 <= region * one,
            one == 65536,
    ;
    assert(qcy >= pcy - region) by (nonlinear_arith)
        requires
            (q.y as int) < (qcy + 1) * one,
            (p.y as int) - r2 < (q.y as int),
            pcy * one <= p.y as int,
            r2 <= region * one,
            one == 65536,
    ;
}

} // verus!
