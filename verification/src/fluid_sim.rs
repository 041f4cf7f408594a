//! The simulation driver: owns the particle array, the spatial hash, the
//! static rectangles and the tunable properties, and advances the system one
//! frame at a time.

use vstd::prelude::*;
use rand::Rng;
use crate::fixed::{ONE, fx_in_range, spec_fx_add, spec_fx_mul, fx_add, fx_mul};
use crate::vector_2::{Vector2, vec_in_range, vec2, spec_vscale, v_scale};
use crate::particle::{
    Particle, Contact, contacts_wf, poss_of, vels_of, spec_contacts_from, spec_resolve_particle,
    spec_move_pos, set_contacts, set_pos_vel,
};
use crate::spatial_hash::{
    SpatialHash, MAX_GRID, pos_in_grid, total_count, spec_cell_coord, spec_cell_index_at,
    consistent_upto, lemma_cell_index_bounds, lemma_cell_index_injective,
    lemma_consistent_agree, lemma_consistent_insert, lemma_consistent_empty,
};
use crate::spatial_hash_iter::{SpatialHashIter, spec_win_cands, spec_region_radius};
use crate::rect::{Rect, rect_wf, spec_collide_result};
use crate::shape::Shape;

verus! {

/// Simulation-wide tunables, in fixed point. The owning caller may set them
/// between frames; `update` requires them to be in range.
#[derive(Clone, Copy, PartialEq, Eq, Structural, Debug)]
pub struct Properties {
    /// Kept for callers that tune it; the contact transfer itself uses the
    /// fixed retention factor `CONTACT_RETENTION`.
    pub collision_energy_loss: i64,
    /// Scale of the repulsion kick applied per contact.
    pub elasticity: i64,
    /// Post-step velocity multiplier.
    pub damping: i64,
    /// Velocity multiplier applied when a boundary reflection occurred.
    pub collision_damping: i64,
    pub gravity: Vector2,
    /// Uniform particle radius.
    pub radius: i64,
    /// Squared contact distance, `(2 radius)^2`; pairs at least this far
    /// apart (in squared fixed-point distance) never interact.
    pub dist_squared_max: i64,
}

/// Fraction of the removed normal velocity handed to the other particle of
/// a contact: 0.9, rounded down to fixed point.
pub const CONTACT_RETENTION: i64 = 58982;

pub open spec fn props_wf(p: Properties) -> bool {
    &&& fx_in_range(p.collision_energy_loss as int)
    &&& fx_in_range(p.elasticity as int)
    &&& fx_in_range(p.damping as int)
    &&& fx_in_range(p.collision_damping as int)
    &&& vec_in_range(p.gravity)
    &&& 0 < p.radius
    &&& (p.radius as int) + (p.radius as int) <= crate::fixed::FX_MAX as int
    &&& fx_in_range(p.dist_squared_max as int)
}

/// The default property set: unit radius, unit factors, downward gravity of
/// 0.3 units (rounded down to fixed point).
pub open spec fn spec_default_properties() -> Properties {
    Properties {
        collision_energy_loss: ONE,
        elasticity: ONE,
        damping: ONE,
        collision_damping: ONE,
        gravity: Vector2 { x: 0, y: 19660 },
        radius: ONE,
        dist_squared_max: spec_fx_mul(
            spec_fx_add(ONE as int, ONE as int),
            spec_fx_add(ONE as int, ONE as int),
        ) as i64,
    }
}

pub struct FluidSim {
    pub spatial_hash: SpatialHash,
    pub particles: Vec<Particle>,
    pub properties: Properties,
    pub rects: Vec<Rect>,
}

#[verifier::external_type_specification]
#[verifier::external_body]
pub struct ExThreadRng(rand::rngs::ThreadRng);

/// Relies on rand::thread_rng: a handle to the thread-local random number
/// generator.
#[verifier::external_body]
fn new_rng() -> rand::rngs::ThreadRng {
    rand::thread_rng()
}

/// Relies on rand::Rng::gen_range over the half-open range `0..bound`: the
/// drawn value is below the bound; nothing else is assumed of it.
#[verifier::external_body]
fn rand_below(rng: &mut rand::rngs::ThreadRng, bound: u64) -> (r: u64)
    requires
        bound > 0,
    ensures
        r < bound,
{
    rng.gen_range(0..bound)
}

impl FluidSim {
    /// Every particle inside the domain with an in-range velocity and a
    /// well-formed contact list, and the grid consistent with the particle
    /// array.
    pub open spec fn wf(&self) -> bool {
        &&& self.spatial_hash.wf()
        &&& self.spatial_hash.x_size == self.spatial_hash.y_size
        &&& forall|i: int|
            0 <= i < self.particles@.len() ==> {
                &&& pos_in_grid(
                    (#[trigger] self.particles@[i]).pos,
                    self.spatial_hash.x_size as int,
                    self.spatial_hash.y_size as int,
                )
                &&& vec_in_range(self.particles@[i].vel)
                &&& contacts_wf(self.particles@[i].contacts@, i, self.particles@.len() as int)
            }
        &&& self.spatial_hash.consistent_with(self.particles@)
        &&& forall|k: int| 0 <= k < self.rects@.len() ==> rect_wf(#[trigger] self.rects@[k])
    }

    /// An empty simulation over an `x_size` by `y_size` grid with the
    /// default properties. The domain is square: the flat bucket index
    /// `x + y * y_size` identifies a cell uniquely only then, and the frame
    /// update relies on that.
    pub fn new(x_size: usize, y_size: usize) -> (r: FluidSim)
        requires
            1 <= y_size,
            y_size == x_size,
            x_size <= MAX_GRID,
            (x_size as int) * (y_size as int) <= usize::MAX as int,
        ensures
            r.wf(),
            r.spatial_hash.x_size == x_size,
            r.spatial_hash.y_size == y_size,
            r.particles@.len() == 0,
            r.rects@.len() == 0,
            r.properties == spec_default_properties(),
            props_wf(r.properties),
    {
        let radius: i64 = ONE;
        let two_r = fx_add(radius, radius);
        let sim = FluidSim {
            spatial_hash: SpatialHash::new(x_size, y_size),
            properties: Properties {
                collision_energy_loss: ONE,
                elasticity: ONE,
                damping: ONE,
                collision_damping: ONE,
                radius,
                dist_squared_max: fx_mul(two_r, two_r),
                gravity: vec2(0, 19660),
            },
            particles: Vec::new(),
            rects: Vec::new(),
        };
        proof {
            crate::spatial_hash::lemma_consistent_empty(
                sim.spatial_hash.cells_view(),
                sim.particles@,
                sim.spatial_hash.y_size as int,
            );
        }
        sim
    }

    /// Fresh particles placed uniformly at random inside the domain, at
    /// rest. Placement draws from the thread-local generator; every outcome
    /// lies inside the grid.
    pub fn generate_random_particles(&self, count: usize) -> (r: Vec<Particle>)
        requires
            self.spatial_hash.wf(),
        ensures
            r@.len() == count,
            forall|i: int|
                0 <= i < r@.len() ==> {
                    &&& pos_in_grid(
                        (#[trigger] r@[i]).pos,
                        self.spatial_hash.x_size as int,
                        self.spatial_hash.y_size as int,
                    )
                    &&& r@[i].vel == (Vector2 { x: 0, y: 0 })
                    &&& r@[i].contacts@.len() == 0
                },
    {
        let x_bound: u64 = (self.spatial_hash.x_size as u64) * 65536;
        let y_bound: u64 = (self.spatial_hash.y_size as u64) * 65536;
        let mut rng = new_rng();
        let mut particles: Vec<Particle> = Vec::new();
        let mut b: usize = 0;
        while b < count
            invariant
                b <= count,
                particles@.len() == b,
                x_bound == (self.spatial_hash.x_size as int) * (ONE as int),
                y_bound == (self.spatial_hash.y_size as int) * (ONE as int),
                0 < x_bound <= crate::fixed::FX_MAX as int,
                0 < y_bound <= crate::fixed::FX_MAX as int,
                forall|i: int|
                    0 <= i < particles@.len() ==> {
                        &&& pos_in_grid(
                            (#[trigger] particles@[i]).pos,
                            self.spatial_hash.x_size as int,
                            self.spatial_hash.y_size as int,
                        )
                        &&& particles@[i].vel == (Vector2 { x: 0, y: 0 })
                        &&& particles@[i].contacts@.len() == 0
                    },
            decreases count - b,
        {
            let pt_x = rand_below(&mut rng, x_bound) as i64;
            let pt_y = rand_below(&mut rng, y_bound) as i64;
            particles.push(Particle::new(vec2(pt_x, pt_y)));
            b = b + 1;
        }
        particles
    }

    /// Append the given particles (position and velocity; contact lists are
    /// frame-scoped and start empty) and rebuild the grid from scratch.
    pub fn add_particles(&mut self, particles: &Vec<Particle>)
        requires
            old(self).wf(),
            forall|i: int|
                0 <= i < particles@.len() ==> pos_in_grid(
                    (#[trigger] particles@[i]).pos,
                    old(self).spatial_hash.x_size as int,
                    old(self).spatial_hash.y_size as int,
                ) && vec_in_range(particles@[i].vel),
        ensures
            final(self).wf(),
            final(self).spatial_hash.x_size == old(self).spatial_hash.x_size,
            final(self).spatial_hash.y_size == old(self).spatial_hash.y_size,
            final(self).properties == old(self).properties,
            final(self).rects == old(self).rects,
            final(self).particles@.len() == old(self).particles@.len() + particles@.len(),
            forall|i: int|
                0 <= i < old(self).particles@.len() ==> {
                    &&& (#[trigger] final(self).particles@[i]).pos == old(self).particles@[i].pos
                    &&& final(self).particles@[i].vel == old(self).particles@[i].vel
                },
            forall|i: int|
                old(self).particles@.len() <= i < final(self).particles@.len() ==> {
                    &&& (#[trigger] final(self).particles@[i]).pos == particles@[i - old(
                        self,
                    ).particles@.len()].pos
                    &&& final(self).particles@[i].vel == particles@[i - old(
                        self,
                    ).particles@.len()].vel
                    &&& final(self).particles@[i].contacts@.len() == 0
                },
            total_count(final(self).spatial_hash.cells_view()) == final(self).particles@.len(),
    {
        let n = particles.len();
        let mut i: usize = 0;
        while i < n
            invariant
                i <= n,
                n == particles@.len(),
                self.spatial_hash == old(self).spatial_hash,
                self.properties == old(self).properties,
                self.rects == old(self).rects,
                self.particles@.len() == old(self).particles@.len() + i,
                forall|j: int|
                    0 <= j < n ==> pos_in_grid(
                        (#[trigger] particles@[j]).pos,
                        self.spatial_hash.x_size as int,
                        self.spatial_hash.y_size as int,
                    ) && vec_in_range(particles@[j].vel),
                forall|j: int|
                    0 <= j < old(self).particles@.len() ==> (#[trigger] self.particles@[j]) == old(
                        self,
                    ).particles@[j],
                forall|j: int|
                    old(self).particles@.len() <= j < self.particles@.len() ==> {
                        &&& (#[trigger] self.particles@[j]).pos == particles@[j - old(
                            self,
                        ).particles@.len()].pos
                        &&& self.particles@[j].vel == particles@[j - old(self).particles@.len()].vel
                        &&& self.particles@[j].contacts@.len() == 0
                    },
                forall|j: int|
                    0 <= j < self.particles@.len() ==> pos_in_grid(
                        (#[trigger] self.particles@[j]).pos,
                        self.spatial_hash.x_size as int,
                        self.spatial_hash.y_size as int,
                    ) && vec_in_range(self.particles@[j].vel) && contacts_wf(
                        self.particles@[j].contacts@,
                        j,
                        self.particles@.len() as int,
                    ),
            decreases n - i,
        {
            let p = &particles[i];
            self.particles.push(Particle::with_vel(p.pos, p.vel));
            i = i + 1;
        }
        self.spatial_hash_particles();
    }

    /// Rebuild the grid membership from the current particle positions:
    /// empty every bucket, then insert every particle index at its cell.
    pub fn spatial_hash_particles(&mut self)
        requires
            old(self).spatial_hash.wf(),
            forall|i: int|
                0 <= i < old(self).particles@.len() ==> pos_in_grid(
                    (#[trigger] old(self).particles@[i]).pos,
                    old(self).spatial_hash.x_size as int,
                    old(self).spatial_hash.y_size as int,
                ),
        ensures
            final(self).particles == old(self).particles,
            final(self).properties == old(self).properties,
            final(self).rects == old(self).rects,
            final(self).spatial_hash.wf(),
            final(self).spatial_hash.x_size == old(self).spatial_hash.x_size,
            final(self).spatial_hash.y_size == old(self).spatial_hash.y_size,
            final(self).spatial_hash.consistent_with(final(self).particles@),
            total_count(final(self).spatial_hash.cells_view()) == final(self).particles@.len(),
    {
        self.spatial_hash.clear();
        self.spatial_hash.add_particles(&self.particles);
    }

    /// The particle array keeps its length, every position and velocity;
    /// only contact lists may differ. The grid, properties and rectangles
    /// are those of `pre`.
    pub open spec fn detect_frame(pre: FluidSim, cur: FluidSim) -> bool {
        &&& cur.spatial_hash == pre.spatial_hash
        &&& cur.properties == pre.properties
        &&& cur.rects == pre.rects
        &&& cur.particles@.len() == pre.particles@.len()
        &&& forall|j: int|
            0 <= j < pre.particles@.len() ==> {
                &&& (#[trigger] cur.particles@[j]).pos == pre.particles@[j].pos
                &&& cur.particles@[j].vel == pre.particles@[j].vel
                &&& contacts_wf(cur.particles@[j].contacts@, j, pre.particles@.len() as int)
            }
    }

    /// Advance the simulation one frame, in three passes exactly as the
    /// frame spec functions describe: record every particle's contacts over
    /// the populated grid (`spec_frame_contacts`; read-only on positions and
    /// the grid), clear the grid and resolve contacts and gravity into
    /// velocities in index order (`spec_update_vels`), then collide each
    /// particle against the rectangles, integrate with boundary reflection,
    /// damp, and re-insert it into the grid (`spec_update_particle`).
    pub fn update(&mut self, dt: i64)
        requires
            old(self).wf(),
            props_wf(old(self).properties),
            fx_in_range(dt as int),
        ensures
            final(self).wf(),
            final(self).spatial_hash.x_size == old(self).spatial_hash.x_size,
            final(self).spatial_hash.y_size == old(self).spatial_hash.y_size,
            final(self).properties == old(self).properties,
            final(self).rects == old(self).rects,
            final(self).particles@.len() == old(self).particles@.len(),
            forall|i: int|
                0 <= i < final(self).particles@.len() ==> {
                    &&& (#[trigger] final(self).particles@[i]).contacts@ == old(
                        self,
                    ).spec_frame_contacts(i)
                    &&& final(self).particles@[i].pos == old(self).spec_update_particle(
                        i,
                        dt as int,
                    ).0
                    &&& final(self).particles@[i].vel == old(self).spec_update_particle(
                        i,
                        dt as int,
                    ).1
                },
            total_count(final(self).spatial_hash.cells_view()) == final(self).particles@.len(),
    {
        let n = self.particles.len();
        let ghost ng = n as int;
        let ghost s = self.spatial_hash.y_size as int;
        let ghost cells0 = self.spatial_hash.cells_view();
        proof {
            assert forall|j: int| 0 <= j < ng implies vec_in_range(
                (#[trigger] self.particles@[j]).pos,
            ) by {
                lemma_cell_index_bounds(
                    self.particles@[j].pos,
                    self.spatial_hash.x_size as int,
                    s,
                );
            }
        }
        // Pass 1: contact detection.
        let mut cell_it = SpatialHashIter::new(&self.spatial_hash);
        loop
            invariant_except_break
                Self::detect_frame(*old(self), *self),
                old(self).wf(),
                props_wf(old(self).properties),
                fx_in_range(dt as int),
                ng == self.particles@.len(),
                ng <= usize::MAX as int,
                s == self.spatial_hash.y_size as int,
                cells0 == self.spatial_hash.cells_view(),
                forall|j: int|
                    0 <= j < ng ==> vec_in_range((#[trigger] self.particles@[j]).pos),
                consistent_upto(cells0, self.particles@, s, ng),
                cell_it.wf(),
                *cell_it.spatial_hash == self.spatial_hash,
                cell_it.x_start == 0 && cell_it.x_end == self.spatial_hash.x_size,
                cell_it.y_start == 0 && cell_it.y_end == self.spatial_hash.y_size,
                cell_it.started ==> cell_it.valid() && (forall|j: int|
                    0 <= j < ng && cell_before(
                        spec_cell_coord(self.particles@[j].pos.x as int),
                        spec_cell_coord(self.particles@[j].pos.y as int),
                        cell_it.x as int,
                        cell_it.y as int,
                    ) ==> (#[trigger] self.particles@[j]).contacts@ == old(
                        self,
                    ).spec_frame_contacts(j)),
            ensures
                Self::detect_frame(*old(self), *self),
                ng == self.particles@.len(),
                cells0 == self.spatial_hash.cells_view(),
                forall|j: int|
                    0 <= j < ng ==> vec_in_range((#[trigger] self.particles@[j]).pos),
                consistent_upto(cells0, self.particles@, s, ng),
                forall|j: int|
                    0 <= j < ng ==> (#[trigger] self.particles@[j]).contacts@ == old(
                        self,
                    ).spec_frame_contacts(j),
            decreases
                    (if cell_it.started {
                        0int
                    } else {
                        1int
                    }),
                    self.spatial_hash.y_size - cell_it.y,
                    self.spatial_hash.x_size - cell_it.x,
        {
            let ghost pre = cell_it;
            let more = cell_it.next();
            if !more {
                proof {
                    assert(pre.started);
                    assert(pre.x as int == s - 1 && pre.y as int == s - 1);
                    assert forall|j: int| 0 <= j < ng implies (#[trigger] self.particles@[j]).contacts@
                        == old(self).spec_frame_contacts(j) by {
                        lemma_cell_index_bounds(
                            self.particles@[j].pos,
                            self.spatial_hash.x_size as int,
                            s,
                        );
                        assert(cell_before(
                            spec_cell_coord(self.particles@[j].pos.x as int),
                            spec_cell_coord(self.particles@[j].pos.y as int),
                            pre.x as int,
                            pre.y as int,
                        ));
                    }
                }
                break;
            }
            proof {
                assert forall|j: int|
                    0 <= j < ng && cell_strictly_before(
                        spec_cell_coord(self.particles@[j].pos.x as int),
                        spec_cell_coord(self.particles@[j].pos.y as int),
                        cell_it.x as int,
                        cell_it.y as int,
                    ) implies (#[trigger] self.particles@[j]).contacts@ == old(
                    self,
                ).spec_frame_contacts(j) by {
                    lemma_cell_index_bounds(
                        self.particles@[j].pos,
                        self.spatial_hash.x_size as int,
                        s,
                    );
                    if pre.started {
                        assert(cell_before(
                            spec_cell_coord(self.particles@[j].pos.x as int),
                            spec_cell_coord(self.particles@[j].pos.y as int),
                            pre.x as int,
                            pre.y as int,
                        ));
                    }
                }
            }
            let cell = cell_it.cell();
            let m = cell.len();
            let mut k: usize = 0;
            while k < m
                invariant
                    Self::detect_frame(*old(self), *self),
                    old(self).wf(),
                    props_wf(old(self).properties),
                    fx_in_range(dt as int),
                    ng == self.particles@.len(),
                    ng <= usize::MAX as int,
                    s == self.spatial_hash.y_size as int,
                    cells0 == self.spatial_hash.cells_view(),
                    forall|j: int|
                        0 <= j < ng ==> vec_in_range((#[trigger] self.particles@[j]).pos),
                    consistent_upto(cells0, self.particles@, s, ng),
                    cell_it.wf(),
                    cell_it.valid(),
                    *cell_it.spatial_hash == self.spatial_hash,
                    cell_it.x_start == 0 && cell_it.x_end == self.spatial_hash.x_size,
                    cell_it.y_start == 0 && cell_it.y_end == self.spatial_hash.y_size,
                    0 <= cell_it.spec_cur_cell() < cells0.len(),
                    cell@ == cells0[cell_it.spec_cur_cell()],
                    k <= m,
                    m == cell@.len(),
                    forall|j: int|
                        0 <= j < ng && (cell_strictly_before(
                            spec_cell_coord(self.particles@[j].pos.x as int),
                            spec_cell_coord(self.particles@[j].pos.y as int),
                            cell_it.x as int,
                            cell_it.y as int,
                        ) || (spec_cell_coord(self.particles@[j].pos.x as int) == cell_it.x as int
                            && spec_cell_coord(self.particles@[j].pos.y as int) == cell_it.y as int
                            && cell@.take(k as int).contains(j as usize))) ==> (
                        #[trigger] self.particles@[j]).contacts@ == old(self).spec_frame_contacts(
                            j,
                        ),
                decreases m - k,
            {
                let q = cell[k];
                proof {
                    assert(cells0[cell_it.spec_cur_cell()][k as int] == q);
                    assert((q as int) < ng);
                    lemma_cell_index_bounds(
                        self.particles@[q as int].pos,
                        self.spatial_hash.x_size as int,
                        s,
                    );
                    lemma_cell_index_injective(
                        spec_cell_coord(self.particles@[q as int].pos.x as int),
                        spec_cell_coord(self.particles@[q as int].pos.y as int),
                        cell_it.x as int,
                        cell_it.y as int,
                        s,
                    );
                }
                let ghost pre_particles = self.particles@;
                let contacts = Particle::check_particle_collisions(
                    &self.particles,
                    q,
                    &cell_it,
                    &self.properties,
                );
                let ghost new_contacts = contacts@;
                set_contacts(&mut self.particles, q, contacts);
                proof {
                    assert(poss_of(pre_particles) =~= poss_of(old(self).particles@));
                    assert(poss_of(self.particles@) =~= poss_of(old(self).particles@));
                    assert(new_contacts == old(self).spec_frame_contacts(q as int));
                    lemma_consistent_agree(cells0, pre_particles, self.particles@, s, ng);
                    assert(cell@.take(k as int + 1) =~= cell@.take(k as int).push(q));
                    assert forall|j: int|
                        0 <= j < ng && (cell_strictly_before(
                            spec_cell_coord(self.particles@[j].pos.x as int),
                            spec_cell_coord(self.particles@[j].pos.y as int),
                            cell_it.x as int,
                            cell_it.y as int,
                        ) || (spec_cell_coord(self.particles@[j].pos.x as int) == cell_it.x as int
                            && spec_cell_coord(self.particles@[j].pos.y as int) == cell_it.y as int
                            && cell@.take(k as int + 1).contains(j as usize))) implies (
                        #[trigger] self.particles@[j]).contacts@ == old(self).spec_frame_contacts(
                            j,
                        ) by {
                        if j == q as int {
                            assert(self.particles@[j].contacts@ == new_contacts);
                        } else {
                            assert(self.particles@[j] == pre_particles[j]);
                            let cxj = spec_cell_coord(pre_particles[j].pos.x as int);
                            let cyj = spec_cell_coord(pre_particles[j].pos.y as int);
                            if cell_strictly_before(cxj, cyj, cell_it.x as int, cell_it.y as int) {
                                assert(pre_particles[j].contacts@ == old(self).spec_frame_contacts(
                                    j,
                                ));
                            } else {
                                assert(cell@.take(k as int + 1).contains(j as usize));
                                let idx = choose|idx: int|
                                    0 <= idx < cell@.take(k as int + 1).len() && #[trigger] cell@.take(
                                        k as int + 1,
                                    )[idx] == j as usize;
                                assert(cell@.take(k as int + 1)[idx] == cell@[idx]);
                                assert(cell@.take(k as int + 1)[k as int] == cell@[k as int]);
                                assert(cell@[k as int] == q);
                                assert((j as usize) as int == j);
                                assert(idx != k as int);
                                assert(cell@.take(k as int)[idx] == j as usize);
                                assert(cell@.take(k as int).contains(j as usize));
                                assert(pre_particles[j].contacts@ == old(self).spec_frame_contacts(
                                    j,
                                ));
                            }
                        }
                    }
                }
                k = k + 1;
            }
            proof {
                assert(cell@.take(m as int) =~= cell@);
                assert forall|j: int|
                    0 <= j < ng && cell_before(
                        spec_cell_coord(self.particles@[j].pos.x as int),
                        spec_cell_coord(self.particles@[j].pos.y as int),
                        cell_it.x as int,
                        cell_it.y as int,
                    ) implies (#[trigger] self.particles@[j]).contacts@ == old(
                    self,
                ).spec_frame_contacts(j) by {
                    let cxj = spec_cell_coord(self.particles@[j].pos.x as int);
                    let cyj = spec_cell_coord(self.particles@[j].pos.y as int);
                    lemma_cell_index_bounds(
                        self.particles@[j].pos,
                        self.spatial_hash.x_size as int,
                        s,
                    );
                    if cxj == cell_it.x as int && cyj == cell_it.y as int {
                        assert(spec_cell_index_at(self.particles@[j].pos, s)
                            == cell_it.spec_cur_cell());
                        assert(cells0[cell_it.spec_cur_cell()].contains(j as usize));
                    }
                }
            }
        }
        // Pass 2: clear the grid, then resolve velocities in index order.
        self.spatial_hash.clear();
        let ghost contacts_all = Seq::new(ng as nat, |i: int| old(self).spec_frame_contacts(i));
        let ghost vels0 = vels_of(self.particles@);
        proof {
            assert(vels0 =~= vels_of(old(self).particles@));
        }
        let mut i: usize = 0;
        while i < n
            invariant
                n == ng,
                old(self).wf(),
                props_wf(old(self).properties),
                fx_in_range(dt as int),
                i <= n,
                self.particles@.len() == ng,
                self.properties == old(self).properties,
                self.rects == old(self).rects,
                self.spatial_hash.wf(),
                self.spatial_hash.x_size == old(self).spatial_hash.x_size,
                self.spatial_hash.y_size == old(self).spatial_hash.y_size,
                forall|c: int|
                    0 <= c < self.spatial_hash.cells_view().len() ==> (
                    #[trigger] self.spatial_hash.cells_view()[c]).len() == 0,
                total_count(self.spatial_hash.cells_view()) == 0,
                forall|j: int|
                    0 <= j < ng ==> {
                        &&& (#[trigger] self.particles@[j]).pos == old(self).particles@[j].pos
                        &&& self.particles@[j].contacts@ == contacts_all[j]
                        &&& contacts_wf(self.particles@[j].contacts@, j, ng)
                        &&& vec_in_range(self.particles@[j].vel)
                        &&& vec_in_range(self.particles@[j].pos)
                    },
                contacts_all == Seq::new(ng as nat, |i: int| old(self).spec_frame_contacts(i)),
                vels_of(self.particles@) == spec_resolve_all(
                    vels0,
                    contacts_all,
                    old(self).properties.elasticity as int,
                    old(self).properties.gravity,
                    dt as int,
                    i as int,
                ),
                vels0 == vels_of(old(self).particles@),
            decreases n - i,
        {
            Particle::update_velocity(&mut self.particles, i, &self.properties, dt);
            proof {
                assert(spec_resolve_all(
                    vels0,
                    contacts_all,
                    old(self).properties.elasticity as int,
                    old(self).properties.gravity,
                    dt as int,
                    i as int + 1,
                ) == spec_resolve_particle(
                    spec_resolve_all(
                        vels0,
                        contacts_all,
                        old(self).properties.elasticity as int,
                        old(self).properties.gravity,
                        dt as int,
                        i as int,
                    ),
                    i as int,
                    contacts_all[i as int],
                    old(self).properties.elasticity as int,
                    old(self).properties.gravity,
                    dt as int,
                ));
            }
            i = i + 1;
        }
        let ghost vels1 = old(self).spec_update_vels(dt as int);
        proof {
            assert(contacts_all =~= Seq::new(
                old(self).particles@.len(),
                |i: int| old(self).spec_frame_contacts(i),
            ));
            assert(vels_of(self.particles@) == vels1);
            assert forall|j: int| 0 <= j < ng implies (#[trigger] self.particles@[j]).vel
                == vels1[j] by {
                assert(vels_of(self.particles@)[j] == self.particles@[j].vel);
            }
        }
        // Pass 3: rectangles, integration with boundary reflection, damping,
        // and re-insertion into the now-empty grid.
        let mut i: usize = 0;
        while i < n
            invariant
                n == ng,
                old(self).wf(),
                props_wf(old(self).properties),
                fx_in_range(dt as int),
                i <= n,
                self.particles@.len() == ng,
                self.properties == old(self).properties,
                self.rects == old(self).rects,
                self.spatial_hash.wf(),
                self.spatial_hash.x_size == old(self).spatial_hash.x_size,
                self.spatial_hash.y_size == old(self).spatial_hash.y_size,
                s == self.spatial_hash.y_size as int,
                vels1 == old(self).spec_update_vels(dt as int),
                forall|j: int|
                    0 <= j < ng ==> {
                        &&& (#[trigger] self.particles@[j]).contacts@ == contacts_all[j]
                        &&& contacts_wf(self.particles@[j].contacts@, j, ng)
                        &&& vec_in_range(self.particles@[j].vel)
                        &&& vec_in_range(self.particles@[j].pos)
                    },
                contacts_all == Seq::new(ng as nat, |i: int| old(self).spec_frame_contacts(i)),
                forall|j: int|
                    i <= j < ng ==> (#[trigger] self.particles@[j]).pos == old(
                        self,
                    ).particles@[j].pos && self.particles@[j].vel == vels1[j],
                forall|j: int|
                    0 <= j < i ==> {
                        &&& (#[trigger] self.particles@[j]).pos == old(self).spec_update_particle(
                            j,
                            dt as int,
                        ).0
                        &&& self.particles@[j].vel == old(self).spec_update_particle(
                            j,
                            dt as int,
                        ).1
                        &&& pos_in_grid(
                            self.particles@[j].pos,
                            self.spatial_hash.x_size as int,
                            s,
                        )
                    },
                consistent_upto(self.spatial_hash.cells_view(), self.particles@, s, i as int),
                total_count(self.spatial_hash.cells_view()) == i,
            decreases n - i,
        {
            let pos_i = self.particles[i].pos;
            let vel_i = self.particles[i].vel;
            let mut tmp = Particle::with_vel(pos_i, vel_i);
            let nr = self.rects.len();
            let mut k: usize = 0;
            while k < nr
                invariant
                    k <= nr,
                    nr == self.rects@.len(),
                    props_wf(self.properties),
                    forall|c: int| 0 <= c < self.rects@.len() ==> rect_wf(#[trigger] self.rects@[c]),
                    vec_in_range(tmp.pos),
                    vec_in_range(tmp.vel),
                    (tmp.pos, tmp.vel) == spec_rects_fold(
                        self.rects@,
                        pos_i,
                        vel_i,
                        self.properties.radius as int,
                        k as int,
                    ),
                decreases nr - k,
            {
                let rect = &self.rects[k];
                rect.collide_with(&mut tmp, &self.properties);
                k = k + 1;
            }
            tmp.move_pos(&self.spatial_hash, &self.properties, dt);
            let v3 = v_scale(tmp.vel, self.properties.damping);
            proof {
                assert(old(self).spec_update_particle(i as int, dt as int) == (tmp.pos, v3));
            }
            let ghost pre_particles = self.particles@;
            set_pos_vel(&mut self.particles, i, tmp.pos, v3);
            proof {
                lemma_cell_index_bounds(tmp.pos, self.spatial_hash.x_size as int, s);
                lemma_consistent_agree(
                    self.spatial_hash.cells_view(),
                    pre_particles,
                    self.particles@,
                    s,
                    i as int,
                );
                lemma_consistent_insert(
                    self.spatial_hash.cells_view(),
                    self.particles@,
                    s,
                    i as int,
                );
            }
            let newpos = self.particles[i].pos;
            self.spatial_hash.add_particle(i, newpos);
            i = i + 1;
        }
        proof {
            assert(self.spatial_hash.consistent_with(self.particles@));
        }
    }

    /// The contacts the detection pass records for particle `i` this frame:
    /// the scan of the region window around `i`'s cell, over the current
    /// grid and positions.
    pub open spec fn spec_frame_contacts(&self, i: int) -> Seq<Contact> {
        let cells = self.spatial_hash.cells_view();
        let xs = self.spatial_hash.x_size as int;
        let ys = self.spatial_hash.y_size as int;
        let pos = self.particles@[i].pos;
        let cx = spec_cell_coord(pos.x as int);
        let cy = spec_cell_coord(pos.y as int);
        let r = spec_region_radius(self.properties.radius as int);
        spec_contacts_from(
            poss_of(self.particles@),
            i,
            spec_win_cands(
                cells,
                vstd::math::max(0, cx - r),
                vstd::math::min(xs, cx + r + 1),
                vstd::math::max(0, cy - r),
                vstd::math::min(ys, cy + r + 1),
                ys,
            ),
            self.properties.dist_squared_max as int,
        )
    }

    /// The velocities after the resolution pass: every particle's contacts
    /// resolved in index order, gravity included.
    pub open spec fn spec_update_vels(&self, dt: int) -> Seq<Vector2> {
        spec_resolve_all(
            vels_of(self.particles@),
            Seq::new(self.particles@.len(), |i: int| self.spec_frame_contacts(i)),
            self.properties.elasticity as int,
            self.properties.gravity,
            dt,
            self.particles@.len() as int,
        )
    }

    /// The position and velocity particle `i` ends the frame with: the
    /// resolved velocity, folded through every static rectangle in order,
    /// integrated with boundary reflection, then damped.
    pub open spec fn spec_update_particle(&self, i: int, dt: int) -> (Vector2, Vector2) {
        let vel1 = self.spec_update_vels(dt)[i];
        let rv = spec_rects_fold(
            self.rects@,
            self.particles@[i].pos,
            vel1,
            self.properties.radius as int,
            self.rects@.len() as int,
        );
        let mv = spec_move_pos(
            rv.0,
            rv.1,
            self.spatial_hash.x_size as int,
            self.spatial_hash.y_size as int,
            self.properties.collision_damping as int,
            dt,
        );
        (mv.0, spec_vscale(mv.1, self.properties.damping as int))
    }
}

/// The velocity-resolution pass over the first `i` particles, in index
/// order; transfers onto later particles are seen by their own resolution.
pub open spec fn spec_resolve_all(
    vels: Seq<Vector2>,
    contacts_all: Seq<Seq<Contact>>,
    elasticity: int,
    gravity: Vector2,
    dt: int,
    i: int,
) -> Seq<Vector2>
    decreases i,
{
    if i <= 0 {
        vels
    } else {
        spec_resolve_particle(
            spec_resolve_all(vels, contacts_all, elasticity, gravity, dt, i - 1),
            i - 1,
            contacts_all[i - 1],
            elasticity,
            gravity,
            dt,
        )
    }
}

/// A particle folded through the first `k` rectangles in order.
pub open spec fn spec_rects_fold(
    rects: Seq<Rect>,
    pos: Vector2,
    vel: Vector2,
    radius: int,
    k: int,
) -> (Vector2, Vector2)
    decreases k,
{
    if k <= 0 {
        (pos, vel)
    } else {
        let prev = spec_rects_fold(rects, pos, vel, radius, k - 1);
        spec_collide_result(rects[k - 1], prev.0, prev.1, radius)
    }
}

/// Grid consistency: in a well-formed simulation, every particle is stored
/// in the bucket its floored position maps to, and every stored index is a
/// live particle stored at its own bucket.
pub proof fn lemma_grid_consistency(sim: FluidSim, i: int)
    requires
        sim.wf(),
        0 <= i < sim.particles@.len(),
    ensures
        0 <= sim.spatial_hash.spec_cell_index(sim.particles@[i].pos)
            < sim.spatial_hash.cells_view().len(),
        sim.spatial_hash.cells_view()[sim.spatial_hash.spec_cell_index(
            sim.particles@[i].pos,
        )].contains(i as usize),
        forall|c: int, k: int|
            0 <= c < sim.spatial_hash.cells_view().len() && 0 <= k
                < sim.spatial_hash.cells_view()[c].len() ==> {
                &&& (#[trigger] sim.spatial_hash.cells_view()[c][k] as int)
                    < sim.particles@.len()
                &&& sim.spatial_hash.spec_cell_index(
                    sim.particles@[sim.spatial_hash.cells_view()[c][k] as int].pos,
                ) == c
            },
{
}

/// Detection completeness: whenever the squared contact distance is at most
/// `(2 radius)^2` (as the derived `dist_squared_max` always is), any two
/// overlapping particles record contacts against each other — the region
/// window is never too small to see the pair.
pub proof fn lemma_detection_complete(sim: FluidSim, i: int, j: int)
    requires
        sim.wf(),
        0 <= i < sim.particles@.len(),
        0 <= j < sim.particles@.len(),
        i != j,
        0 < sim.properties.radius,
        (sim.properties.radius as int) + (sim.properties.radius as int)
            <= crate::fixed::FX_MAX as int,
        sim.properties.dist_squared_max as int <= spec_fx_mul(
            spec_fx_add(sim.properties.radius as int, sim.properties.radius as int),
            spec_fx_add(sim.properties.radius as int, sim.properties.radius as int),
        ),
        crate::particle::spec_overlaps(
            sim.particles@[i].pos,
            sim.particles@[j].pos,
            sim.properties.dist_squared_max as int,
        ),
    ensures
        sim.spec_frame_contacts(i).contains(
            crate::particle::spec_mk_contact(
                sim.particles@[i].pos,
                sim.particles@[j].pos,
                j as usize,
            ),
        ),
{
    let cells = sim.spatial_hash.cells_view();
    let xs = sim.spatial_hash.x_size as int;
    let s = sim.spatial_hash.y_size as int;
    let pi = sim.particles@[i].pos;
    let pj = sim.particles@[j].pos;
    let radius = sim.properties.radius as int;
    let dsm = sim.properties.dist_squared_max as int;
    let r = spec_region_radius(radius);
    let cxi = spec_cell_coord(pi.x as int);
    let cyi = spec_cell_coord(pi.y as int);
    let cxj = spec_cell_coord(pj.x as int);
    let cyj = spec_cell_coord(pj.y as int);
    let x0 = vstd::math::max(0, cxi - r);
    let x1 = vstd::math::min(xs, cxi + r + 1);
    let y0 = vstd::math::max(0, cyi - r);
    let y1 = vstd::math::min(s, cyi + r + 1);
    crate::spatial_hash_iter::lemma_region_complete(pi, pj, xs, s, radius, r);
    lemma_cell_index_bounds(pj, xs, s);
    assert(x0 <= cxj < x1);
    assert(y0 <= cyj < y1);
    assert(cells[cxj + cyj * s].contains(j as usize));
    crate::spatial_hash_iter::lemma_win_cands_superset(
        cells,
        x0,
        x1,
        y0,
        y1,
        s,
        cxj,
        cyj,
        j as usize,
    );
    assert(poss_of(sim.particles@)[i] == pi);
    vstd::std_specs::vec::axiom_spec_len(&sim.particles);
    assert((j as usize) as int == j);
    assert(poss_of(sim.particles@)[j as usize as int] == pj);
    crate::particle::lemma_contacts_from_complete(
        poss_of(sim.particles@),
        i,
        spec_win_cands(cells, x0, x1, y0, y1, s),
        dsm,
        j as usize,
    );
}

/// No self-collision: a single particle alone in the grid records no
/// contacts, wherever it stands.
pub proof fn lemma_no_self_collision(sim: FluidSim)
    requires
        sim.wf(),
        sim.particles@.len() == 1,
    ensures
        sim.spec_frame_contacts(0).len() == 0,
{
    let cells = sim.spatial_hash.cells_view();
    let xs = sim.spatial_hash.x_size as int;
    let s = sim.spatial_hash.y_size as int;
    let pos = sim.particles@[0].pos;
    let cx = spec_cell_coord(pos.x as int);
    let cy = spec_cell_coord(pos.y as int);
    let r = spec_region_radius(sim.properties.radius as int);
    let x0 = vstd::math::max(0, cx - r);
    let x1 = vstd::math::min(xs, cx + r + 1);
    let y0 = vstd::math::max(0, cy - r);
    let y1 = vstd::math::min(s, cy + r + 1);
    assert forall|x: int, y: int| x0 <= x < x1 && y0 <= y < y1 implies 0 <= #[trigger] (x + y
        * s) < cells.len() by {
        crate::spatial_hash_iter::lemma_coords_index_bound(x, y, xs, s);
    }
    crate::spatial_hash_iter::lemma_win_cands_entries(
        cells,
        sim.particles@,
        s,
        1,
        x0,
        x1,
        y0,
        y1,
    );
    let cand = spec_win_cands(cells, x0, x1, y0, y1, s);
    assert(forall|k: int| 0 <= k < cand.len() ==> (#[trigger] cand[k] as int) == 0);
    crate::particle::lemma_contacts_from_self(poss_of(sim.particles@), 0, cand, sim.properties.dist_squared_max as int);
}

/// Row-major order on cell coordinates: `(cx, cy)` is at or before
/// `(x, y)`.
pub open spec fn cell_before(cx: int, cy: int, x: int, y: int) -> bool {
    cy < y || (cy == y && cx <= x)
}

/// Row-major order, strictly.
pub open spec fn cell_strictly_before(cx: int, cy: int, x: int, y: int) -> bool {
    cy < y || (cy == y && cx < x)
}

} // verus!
