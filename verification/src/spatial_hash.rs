//! The uniform grid ("spatial hash") that buckets particles by position.
//!
//! One cell spans one world unit. A particle at position `pos` belongs to the
//! cell with coordinates `(floor(pos.x), floor(pos.y))`, stored in a flat
//! bucket array at index `x + y * y_size`: the row stride equals the grid
//! height, so grids at least as wide as they are tall (squares included) keep
//! every in-range position's bucket inside the array, and only such grids are
//! accepted.

use vstd::prelude::*;
use crate::fixed::{ONE, FX_MAX, fx_in_range};
use crate::vector_2::Vector2;
use crate::particle::Particle;

verus! {

/// Largest accepted grid extent: `MAX_GRID * ONE` is exactly the saturation
/// bound of the fixed-point scalars, so every in-range position is an
/// in-range scalar.
pub const MAX_GRID: usize = 16777216;

/// The cell coordinate a nonnegative fixed-point coordinate falls into.
pub open spec fn spec_cell_coord(a: int) -> int {
    a / (ONE as int)
}

/// Both coordinates inside the half-open box `[0, x_size) x [0, y_size)`, in
/// world units.
pub open spec fn pos_in_grid(pos: Vector2, x_size: int, y_size: int) -> bool {
    &&& 0 <= pos.x
    &&& (pos.x as int) < x_size * (ONE as int)
    &&& 0 <= pos.y
    &&& (pos.y as int) < y_size * (ONE as int)
}

/// Flat bucket index of a position, with row stride `y_size`.
pub open spec fn spec_cell_index_at(pos: Vector2, y_size: int) -> int {
    spec_cell_coord(pos.x as int) + spec_cell_coord(pos.y as int) * y_size
}

pub struct SpatialHash {
    pub x_size: usize,
    pub y_size: usize,
    /// Bucket array of length `x_size * y_size`; each bucket holds indices
    /// into the owning particle array.
    pub cells: Vec<Vec<usize>>,
}

/// Total number of entries stored across all buckets.
pub open spec fn total_count(cells: Seq<Seq<usize>>) -> nat
    decreases cells.len(),
{
    if cells.len() == 0 {
        0
    } else {
        cells.last().len() + total_count(cells.drop_last())
    }
}

/// One bucket gains one entry at the end.
pub open spec fn spec_insert(cells: Seq<Seq<usize>>, c: int, i: usize) -> Seq<Seq<usize>> {
    cells.update(c, cells[c].push(i))
}

/// Every bucket entry is an index below `m`, stored in the bucket its
/// particle's position maps to.
pub open spec fn entries_sound(
    cells: Seq<Seq<usize>>,
    particles: Seq<Particle>,
    y_size: int,
    m: int,
) -> bool {
    forall|c: int, k: int|
        0 <= c < cells.len() && 0 <= k < cells[c].len() ==> (#[trigger] cells[c][k]) < m
            && spec_cell_index_at(particles[cells[c][k] as int].pos, y_size) == c
}

/// Every index below `m` is present in the bucket its position maps to.
pub open spec fn entries_complete(
    cells: Seq<Seq<usize>>,
    particles: Seq<Particle>,
    y_size: int,
    m: int,
) -> bool {
    forall|i: int| #![trigger particles[i]]
        0 <= i < m ==> {
            &&& 0 <= spec_cell_index_at(particles[i].pos, y_size) < cells.len()
            &&& cells[spec_cell_index_at(particles[i].pos, y_size)].contains(i as usize)
        }
}

/// Within each bucket the entries are strictly increasing, so no index is
/// stored twice.
pub open spec fn cells_increasing(cells: Seq<Seq<usize>>) -> bool {
    forall|c: int, k1: int, k2: int| #![trigger cells[c][k1], cells[c][k2]]
        0 <= c < cells.len() && 0 <= k1 < k2 < cells[c].len() ==> cells[c][k1] < cells[c][k2]
}

/// The grid holds the particle indices below `m`, each exactly once, in the
/// bucket of its position.
pub open spec fn consistent_upto(
    cells: Seq<Seq<usize>>,
    particles: Seq<Particle>,
    y_size: int,
    m: int,
) -> bool {
    &&& entries_sound(cells, particles, y_size, m)
    &&& entries_complete(cells, particles, y_size, m)
    &&& cells_increasing(cells)
}

impl SpatialHash {
    pub open spec fn wf(&self) -> bool {
        &&& 1 <= self.y_size
        &&& self.y_size <= self.x_size
        &&& self.x_size <= MAX_GRID
        &&& self.cells.len() == self.x_size * self.y_size
    }

    /// The bucket array as a sequence of sequences of particle indices.
    pub open spec fn cells_view(&self) -> Seq<Seq<usize>> {
        Seq::new(self.cells.len() as nat, |c: int| self.cells[c]@)
    }

    pub open spec fn spec_cell_index(&self, pos: Vector2) -> int {
        spec_cell_index_at(pos, self.y_size as int)
    }

    /// The grid holds exactly the indices of `particles`, each in the bucket
    /// of its position.
    pub open spec fn consistent_with(&self, particles: Seq<Particle>) -> bool {
        consistent_upto(self.cells_view(), particles, self.y_size as int, particles.len() as int)
    }
}

/// Positions inside the grid have in-range coordinates, and their cell index
/// is inside the bucket array.
pub proof fn lemma_cell_index_bounds(pos: Vector2, x_size: int, y_size: int)
    requires
        pos_in_grid(pos, x_size, y_size),
        1 <= y_size <= x_size <= MAX_GRID,
    ensures
        fx_in_range(pos.x as int),
        fx_in_range(pos.y as int),
        0 <= spec_cell_coord(pos.x as int) < x_size,
        0 <= spec_cell_coord(pos.y as int) < y_size,
        0 <= spec_cell_index_at(pos, y_size) < x_size * y_size,
{
    assert(x_size * (ONE as int) <= MAX_GRID * (ONE as int)) by (nonlinear_arith)
        requires
            x_size <= MAX_GRID,
    ;
    assert((FX_MAX as int) == (MAX_GRID as int) * (ONE as int));
    assert(0 <= (pos.x as int) / (ONE as int) < x_size) by (nonlinear_arith)
        requires
            0 <= pos.x as int,
            (pos.x as int) < x_size * (ONE as int),
            x_size >= 1,
    ;
    assert(0 <= (pos.y as int) / (ONE as int) < y_size) by (nonlinear_arith)
        requires
            0 <= pos.y as int,
            (pos.y as int) < y_size * (ONE as int),
            y_size >= 1,
    ;
    let cx = spec_cell_coord(pos.x as int);
    let cy = spec_cell_coord(pos.y as int);
    assert(cx + cy * y_size < x_size * y_size) by (nonlinear_arith)
        requires
            0 <= cx < x_size,
            0 <= cy < y_size,
            1 <= y_size <= x_size,
    ;
    assert(0 <= cx + cy * y_size) by (nonlinear_arith)
        requires
            0 <= cx,
            0 <= cy,
            1 <= y_size,
    ;
}

/// On a square grid the flat bucket index determines the cell coordinates.
pub proof fn lemma_cell_index_injective(cx: int, cy: int, x: int, y: int, s: int)
    requires
        0 <= cx < s,
        0 <= x < s,
        0 <= cy,
        0 <= y,
        cx + cy * s == x + y * s,
        1 <= s,
    ensures
        cx == x,
        cy == y,
{
    assert(cx == x && cy == y) by (nonlinear_arith)
        requires
            0 <= cx < s,
            0 <= x < s,
            0 <= cy,
            0 <= y,
            cx + cy * s == x + y * s,
            1 <= s,
    ;
}

/// A grid with only empty buckets stores nothing.
pub proof fn lemma_total_count_empty(cells: Seq<Seq<usize>>)
    requires
        forall|c: int| 0 <= c < cells.len() ==> (#[trigger] cells[c]).len() == 0,
    ensures
        total_count(cells) == 0,
    decreases cells.len(),
{
    if cells.len() > 0 {
        lemma_total_count_empty(cells.drop_last());
    }
}

/// Replacing one bucket changes the total by the difference in bucket
/// length.
pub proof fn lemma_total_count_update(cells: Seq<Seq<usize>>, c: int, v: Seq<usize>)
    requires
        0 <= c < cells.len(),
    ensures
        total_count(cells.update(c, v)) == total_count(cells) + v.len() - cells[c].len(),
    decreases cells.len(),
{
    let u = cells.update(c, v);
    if c == cells.len() - 1 {
        assert(u.drop_last() =~= cells.drop_last());
        assert(u.last() == v);
    } else {
        assert(u.drop_last() =~= cells.drop_last().update(c, v));
        lemma_total_count_update(cells.drop_last(), c, v);
        assert(u.last() == cells.last());
    }
}

/// An all-empty grid is consistent with no particles stored.
pub proof fn lemma_consistent_empty(cells: Seq<Seq<usize>>, particles: Seq<Particle>, y_size: int)
    requires
        forall|c: int| 0 <= c < cells.len() ==> (#[trigger] cells[c]).len() == 0,
    ensures
        consistent_upto(cells, particles, y_size, 0),
{
}

/// Inserting index `m` into the bucket of its position extends consistency
/// from the first `m` indices to the first `m + 1`.
pub proof fn lemma_consistent_insert(
    cells: Seq<Seq<usize>>,
    particles: Seq<Particle>,
    y_size: int,
    m: int,
)
    requires
        consistent_upto(cells, particles, y_size, m),
        0 <= m < particles.len(),
        m <= usize::MAX,
        0 <= spec_cell_index_at(particles[m].pos, y_size) < cells.len(),
    ensures
        consistent_upto(
            spec_insert(cells, spec_cell_index_at(particles[m].pos, y_size), m as usize),
            particles,
            y_size,
            m + 1,
        ),
{
    let ci = spec_cell_index_at(particles[m].pos, y_size);
    let u = spec_insert(cells, ci, m as usize);
    assert forall|c: int, k: int|
        0 <= c < u.len() && 0 <= k < u[c].len() implies (#[trigger] u[c][k]) < m + 1
        && spec_cell_index_at(particles[u[c][k] as int].pos, y_size) == c by {
        if c == ci && k == cells[c].len() {
            assert(u[c][k] == m as usize);
        } else {
            assert(u[c][k] == cells[c][k]);
            assert(cells[c][k] < m);
        }
    }
    assert forall|i: int| #![trigger particles[i]] 0 <= i < m + 1 implies {
        &&& 0 <= spec_cell_index_at(particles[i].pos, y_size) < u.len()
        &&& u[spec_cell_index_at(particles[i].pos, y_size)].contains(i as usize)
    } by {
        let c = spec_cell_index_at(particles[i].pos, y_size);
        if i < m {
            assert(cells[c].contains(i as usize));
            let k = choose|k: int| 0 <= k < cells[c].len() && cells[c][k] == i as usize;
            assert(u[c][k] == i as usize);
            assert(u[c].contains(i as usize));
        } else {
            assert(u[ci][cells[ci].len() as int] == m as usize);
            assert(u[ci].contains(m as usize));
        }
    }
    assert forall|c: int, k1: int, k2: int| #![trigger u[c][k1], u[c][k2]]
        0 <= c < u.len() && 0 <= k1 < k2 < u[c].len() implies u[c][k1] < u[c][k2] by {
        if c == ci && k2 == cells[c].len() {
            assert(u[c][k1] == cells[c][k1]);
            assert(cells[c][k1] < m);
            assert(u[c][k2] == m as usize);
        } else {
            assert(u[c][k1] == cells[c][k1]);
            assert(u[c][k2] == cells[c][k2]);
            assert(cells[c][k1] < cells[c][k2]);
        }
    }
}

/// Consistency over the first `m` indices reads only those particles'
/// positions.
pub proof fn lemma_consistent_agree(
    cells: Seq<Seq<usize>>,
    p1: Seq<Particle>,
    p2: Seq<Particle>,
    y_size: int,
    m: int,
)
    requires
        consistent_upto(cells, p1, y_size, m),
        m <= p1.len(),
        m <= p2.len(),
        forall|i: int| 0 <= i < m ==> (#[trigger] p2[i]).pos == p1[i].pos,
    ensures
        consistent_upto(cells, p2, y_size, m),
{
    assert forall|c: int, k: int|
        0 <= c < cells.len() && 0 <= k < cells[c].len() implies (#[trigger] cells[c][k]) < m
        && spec_cell_index_at(p2[cells[c][k] as int].pos, y_size) == c by {
        assert(cells[c][k] < m);
        assert(p2[cells[c][k] as int].pos == p1[cells[c][k] as int].pos);
    }
    assert forall|i: int| #![trigger p2[i]] 0 <= i < m implies {
        &&& 0 <= spec_cell_index_at(p2[i].pos, y_size) < cells.len()
        &&& cells[spec_cell_index_at(p2[i].pos, y_size)].contains(i as usize)
    } by {
        assert(p1[i].pos == p2[i].pos);
    }
}

/// The cell coordinate of a nonnegative in-range coordinate.
pub fn cell_coord(a: i64) -> (c: usize)
    requires
        0 <= a,
        fx_in_range(a as int),
    ensures
        c == spec_cell_coord(a as int),
        c <= MAX_GRID,
{
    ((a as u64) / 65536) as usize
}

impl SpatialHash {
    pub fn new(x_size: usize, y_size: usize) -> (r: SpatialHash)
        requires
            1 <= y_size <= x_size <= MAX_GRID,
            (x_size as int) * (y_size as int) <= usize::MAX as int,
        ensures
            r.wf(),
            r.x_size == x_size,
            r.y_size == y_size,
            forall|c: int| 0 <= c < r.cells_view().len() ==> (#[trigger] r.cells_view()[c]).len()
                == 0,
            total_count(r.cells_view()) == 0,
    {
        let total_size = x_size * y_size;
        let mut cells: Vec<Vec<usize>> = Vec::new();
        let mut k: usize = 0;
        while k < total_size
            invariant
                k <= total_size,
                cells.len() == k,
                forall|c: int| 0 <= c < k ==> (#[trigger] cells[c])@.len() == 0,
            decreases total_size - k,
        {
            cells.push(Vec::new());
            k = k + 1;
        }
        let r = SpatialHash { x_size, y_size, cells };
        proof {
            lemma_total_count_empty(r.cells_view());
        }
        r
    }

    /// Empty every bucket, keeping the bucket array (and each bucket's
    /// backing storage) allocated.
    pub fn clear(&mut self)
        ensures
            final(self).x_size == old(self).x_size,
            final(self).y_size == old(self).y_size,
            final(self).cells.len() == old(self).cells.len(),
            forall|c: int|
                0 <= c < final(self).cells_view().len()
                    ==> (#[trigger] final(self).cells_view()[c]).len() == 0,
            total_count(final(self).cells_view()) == 0,
            old(self).wf() ==> final(self).wf(),
    {
        let n = self.cells.len();
        let mut k: usize = 0;
        while k < n
            invariant
                k <= n,
                self.cells.len() == n,
                self.x_size == old(self).x_size,
                self.y_size == old(self).y_size,
                forall|c: int| 0 <= c < k ==> (#[trigger] self.cells[c])@.len() == 0,
            decreases n - k,
        {
            let cell = &mut self.cells[k];
            cell.clear();
            k = k + 1;
        }
        proof {
            lemma_total_count_empty(self.cells_view());
        }
    }

    /// Bucket index of an in-grid position; always inside the bucket array.
    pub fn cell_index(&self, pos: Vector2) -> (idx: usize)
        requires
            self.wf(),
            pos_in_grid(pos, self.x_size as int, self.y_size as int),
        ensures
            idx == self.spec_cell_index(pos),
            idx < self.cells.len(),
    {
        proof {
            lemma_cell_index_bounds(pos, self.x_size as int, self.y_size as int);
        }
        let cx = cell_coord(pos.x);
        let cy = cell_coord(pos.y);
        cx + cy * self.y_size
    }

    /// Store particle index `index`, located at `pos`, in the bucket of
    /// `pos`.
    pub fn add_particle(&mut self, index: usize, pos: Vector2)
        requires
            old(self).wf(),
            pos_in_grid(pos, old(self).x_size as int, old(self).y_size as int),
        ensures
            final(self).wf(),
            final(self).x_size == old(self).x_size,
            final(self).y_size == old(self).y_size,
            final(self).cells_view() == spec_insert(
                old(self).cells_view(),
                old(self).spec_cell_index(pos),
                index,
            ),
            total_count(final(self).cells_view()) == total_count(old(self).cells_view()) + 1,
    {
        let idx = self.cell_index(pos);
        let cell = &mut self.cells[idx];
        cell.push(index);
        proof {
            assert(final(self).cells_view() =~~= spec_insert(
                old(self).cells_view(),
                old(self).spec_cell_index(pos),
                index,
            ));
            lemma_total_count_update(
                old(self).cells_view(),
                old(self).spec_cell_index(pos),
                final(self).cells_view()[old(self).spec_cell_index(pos)],
            );
        }
    }

    /// Store indices `0 .. particles.len()`, each in the bucket of its
    /// particle's position. Starting from empty buckets this makes the grid
    /// consistent with the particle array, holding exactly
    /// `particles.len()` entries in total.
    pub fn add_particles(&mut self, particles: &Vec<Particle>)
        requires
            old(self).wf(),
            forall|i: int|
                0 <= i < particles@.len() ==> pos_in_grid(
                    (#[trigger] particles@[i]).pos,
                    old(self).x_size as int,
                    old(self).y_size as int,
                ),
            forall|c: int|
                0 <= c < old(self).cells_view().len()
                    ==> (#[trigger] old(self).cells_view()[c]).len() == 0,
        ensures
            final(self).wf(),
            final(self).x_size == old(self).x_size,
            final(self).y_size == old(self).y_size,
            final(self).consistent_with(particles@),
            total_count(final(self).cells_view()) == particles@.len(),
    {
        proof {
            lemma_consistent_empty(self.cells_view(), particles@, self.y_size as int);
            lemma_total_count_empty(self.cells_view());
        }
        let n = particles.len();
        let mut i: usize = 0;
        while i < n
            invariant
                i <= n,
                n == particles@.len(),
                self.wf(),
                self.x_size == old(self).x_size,
                self.y_size == old(self).y_size,
                forall|j: int|
                    0 <= j < n ==> pos_in_grid(
                        (#[trigger] particles@[j]).pos,
                        self.x_size as int,
                        self.y_size as int,
                    ),
                consistent_upto(self.cells_view(), particles@, self.y_size as int, i as int),
                total_count(self.cells_view()) == i,
            decreases n - i,
        {
            proof {
                lemma_cell_index_bounds(
                    particles@[i as int].pos,
                    self.x_size as int,
                    self.y_size as int,
                );
                lemma_consistent_insert(
                    self.cells_view(),
                    particles@,
                    self.y_size as int,
                    i as int,
                );
            }
            let pos = particles[i].pos;
            self.add_particle(i, pos);
            i = i + 1;
        }
    }
}

} // verus!
