//! Particles and their frame-scoped contacts.
//!
//! Particles live in one owned array; the spatial hash and contact records
//! refer to them by index into that array, so no aliasing references are ever
//! held while the array is mutated.

use vstd::prelude::*;
use crate::fixed::{ONE, fx_in_range, spec_clamp, spec_fx_div, spec_fx_sqrt, fx_div, fx_sqrt};
use crate::vector_2::{
    Vector2, vec_in_range, spec_vadd, spec_vsub, spec_vscale, spec_length_squared, v_add, v_sub,
    v_scale, length_squared, vec2,
};
use crate::spatial_hash::{SpatialHash, entries_sound};
use crate::spatial_hash_iter::{
    SpatialHashIter, spec_row_cands, spec_win_cands, spec_region_radius, region_radius,
};
use crate::fluid_sim::{Properties, props_wf, CONTACT_RETENTION};
use crate::vector_2::{spec_project, project};
use crate::fixed::{HALF, spec_fx_mul, fx_mul};

verus! {

/// A detected overlap with another particle, valid for one frame only.
#[derive(Clone, Copy, PartialEq, Eq, Structural, Debug)]
pub struct Contact {
    /// Unit vector from this particle toward the other one.
    pub normal: Vector2,
    /// Distance between the two centers at detection time.
    pub depth: i64,
    /// Index of the other particle in the owning array.
    pub other: usize,
}

#[derive(Clone, Debug)]
pub struct Particle {
    pub pos: Vector2,
    pub vel: Vector2,
    /// This frame's contacts; cleared and repopulated by every detection
    /// pass.
    pub contacts: Vec<Contact>,
}

pub open spec fn contact_in_range(c: Contact) -> bool {
    vec_in_range(c.normal) && crate::fixed::fx_in_range(c.depth as int)
}

/// Overwrite one particle's velocity, leaving everything else in place.
pub fn set_vel(particles: &mut Vec<Particle>, j: usize, v: Vector2)
    requires
        j < old(particles)@.len(),
    ensures
        final(particles)@.len() == old(particles)@.len(),
        forall|k: int|
            0 <= k < old(particles)@.len() && k != j ==> (#[trigger] final(particles)@[k]) == old(
                particles,
            )@[k],
        final(particles)@[j as int].pos == old(particles)@[j as int].pos,
        final(particles)@[j as int].vel == v,
        final(particles)@[j as int].contacts == old(particles)@[j as int].contacts,
{
    let p = &mut particles[j];
    p.vel = v;
}

/// Overwrite one particle's contact list, leaving everything else in place.
pub fn set_contacts(particles: &mut Vec<Particle>, j: usize, contacts: Vec<Contact>)
    requires
        j < old(particles)@.len(),
    ensures
        final(particles)@.len() == old(particles)@.len(),
        forall|k: int|
            0 <= k < old(particles)@.len() && k != j ==> (#[trigger] final(particles)@[k]) == old(
                particles,
            )@[k],
        final(particles)@[j as int].pos == old(particles)@[j as int].pos,
        final(particles)@[j as int].vel == old(particles)@[j as int].vel,
        final(particles)@[j as int].contacts == contacts,
{
    let p = &mut particles[j];
    p.contacts = contacts;
}

/// Overwrite one particle's position and velocity, leaving its contact list
/// and every other particle in place.
pub fn set_pos_vel(particles: &mut Vec<Particle>, j: usize, pos: Vector2, v: Vector2)
    requires
        j < old(particles)@.len(),
    ensures
        final(particles)@.len() == old(particles)@.len(),
        forall|k: int|
            0 <= k < old(particles)@.len() && k != j ==> (#[trigger] final(particles)@[k]) == old(
                particles,
            )@[k],
        final(particles)@[j as int].pos == pos,
        final(particles)@[j as int].vel == v,
        final(particles)@[j as int].contacts == old(particles)@[j as int].contacts,
{
    let p = &mut particles[j];
    p.pos = pos;
    p.vel = v;
}

/// Well-formed contact list for particle `i` of an array of `n` particles:
/// in-range fields, a valid other index, and never a self-contact.
pub open spec fn contacts_wf(contacts: Seq<Contact>, i: int, n: int) -> bool {
    forall|k: int|
        0 <= k < contacts.len() ==> contact_in_range(#[trigger] contacts[k]) && (contacts[k].other
            as int) < n && (contacts[k].other as int) != i
}

/// One integration step with boundary reflection: advance the position by
/// `vel * dt`; a step that would leave the domain on some axis negates that
/// axis' velocity instead, applies the collision damping factor, and
/// advances with the corrected velocity. The final position is clamped into
/// the domain as a last resort, so re-insertion into the grid is always
/// possible even for a step longer than the whole domain.
pub open spec fn spec_move_pos(
    pos: Vector2,
    vel: Vector2,
    x_size: int,
    y_size: int,
    collision_damping: int,
    dt: int,
) -> (Vector2, Vector2) {
    let pt = spec_vadd(pos, spec_vscale(vel, dt));
    let refl_x = pt.x < 0 || (pt.x as int) >= x_size * (ONE as int);
    let refl_y = pt.y < 0 || (pt.y as int) >= y_size * (ONE as int);
    let vel1 = Vector2 {
        x: if refl_x {
            (-(vel.x as int)) as i64
        } else {
            vel.x
        },
        y: if refl_y {
            (-(vel.y as int)) as i64
        } else {
            vel.y
        },
    };
    if refl_x || refl_y {
        let vel2 = spec_vscale(vel1, collision_damping);
        let pt2 = spec_vadd(pos, spec_vscale(vel2, dt));
        (spec_clamp_to_grid(pt2, x_size, y_size), vel2)
    } else {
        (spec_clamp_to_grid(pt, x_size, y_size), vel1)
    }
}

/// Componentwise clamp into the half-open domain box.
pub open spec fn spec_clamp_to_grid(pt: Vector2, x_size: int, y_size: int) -> Vector2 {
    Vector2 {
        x: spec_clamp(pt.x as int, 0, x_size * (ONE as int) - 1) as i64,
        y: spec_clamp(pt.y as int, 0, y_size * (ONE as int) - 1) as i64,
    }
}

/// Two distinct centers whose squared fixed-point distance is positive and
/// below the squared contact distance.
pub open spec fn spec_overlaps(pp: Vector2, qp: Vector2, dsm: int) -> bool {
    let d2 = spec_length_squared(spec_vsub(qp, pp));
    0 < d2 && d2 < dsm
}

/// The contact particle `p` records against particle `q`: unit normal from
/// `p` toward `q` and the center distance.
pub open spec fn spec_mk_contact(pp: Vector2, qp: Vector2, q: usize) -> Contact {
    let delta = spec_vsub(qp, pp);
    let dist = spec_fx_sqrt(spec_length_squared(delta));
    Contact {
        normal: Vector2 {
            x: spec_fx_div(delta.x as int, dist) as i64,
            y: spec_fx_div(delta.y as int, dist) as i64,
        },
        depth: dist as i64,
        other: q,
    }
}

/// The velocities of a particle array.
pub open spec fn vels_of(particles: Seq<Particle>) -> Seq<Vector2> {
    particles.map_values(|p: Particle| p.vel)
}

/// The positions of a particle array.
pub open spec fn poss_of(particles: Seq<Particle>) -> Seq<Vector2> {
    particles.map_values(|p: Particle| p.pos)
}

/// One contact resolved for particle `i`, in two steps over the velocity
/// array. First the impulse transfer: `i`'s velocity is decomposed along
/// the contact tangent (perpendicular to the normal); the tangential part
/// stays, the normal part is removed and handed to the other particle
/// scaled by the retention factor. Then the repulsion kick: `i`'s velocity
/// loses `delta * (1 / (depth / 2)) * elasticity` along the line of
/// centers, where `delta` is the normal scaled back up by the depth.
pub open spec fn spec_apply_contact(
    vels: Seq<Vector2>,
    i: int,
    c: Contact,
    elasticity: int,
) -> Seq<Vector2> {
    let v = vels[i];
    let tangent = Vector2 { x: (-(c.normal.y as int)) as i64, y: c.normal.x };
    let projected = spec_project(v, tangent);
    let transfer = spec_vsub(v, projected);
    let scaled = spec_vscale(transfer, CONTACT_RETENTION as int);
    let vels1 = vels.update(i, projected);
    let vels2 = vels1.update(c.other as int, spec_vadd(vels1[c.other as int], scaled));
    let delta = Vector2 {
        x: spec_fx_mul(c.normal.x as int, c.depth as int) as i64,
        y: spec_fx_mul(c.normal.y as int, c.depth as int) as i64,
    };
    let vel_mag = spec_fx_div(ONE as int, spec_fx_mul(c.depth as int, HALF as int));
    let kick = Vector2 {
        x: spec_fx_mul(spec_fx_mul(delta.x as int, vel_mag), elasticity) as i64,
        y: spec_fx_mul(spec_fx_mul(delta.y as int, vel_mag), elasticity) as i64,
    };
    vels2.update(i, spec_vsub(vels2[i], kick))
}

/// The contacts of particle `i` resolved in order.
pub open spec fn spec_apply_contacts(
    vels: Seq<Vector2>,
    i: int,
    cs: Seq<Contact>,
    elasticity: int,
) -> Seq<Vector2>
    decreases cs.len(),
{
    if cs.len() == 0 {
        vels
    } else {
        spec_apply_contact(
            spec_apply_contacts(vels, i, cs.drop_last(), elasticity),
            i,
            cs.last(),
            elasticity,
        )
    }
}

/// The whole velocity-resolution step for particle `i`: its contacts in
/// order, then gravity scaled by the time step.
pub open spec fn spec_resolve_particle(
    vels: Seq<Vector2>,
    i: int,
    cs: Seq<Contact>,
    elasticity: int,
    gravity: Vector2,
    dt: int,
) -> Seq<Vector2> {
    let v1 = spec_apply_contacts(vels, i, cs, elasticity);
    v1.update(i, spec_vadd(v1[i], spec_vscale(gravity, dt)))
}

/// A scan whose candidates are all the particle itself records nothing.
pub proof fn lemma_contacts_from_self(poss: Seq<Vector2>, p: int, cand: Seq<usize>, dsm: int)
    requires
        forall|k: int| 0 <= k < cand.len() ==> (#[trigger] cand[k] as int) == p,
    ensures
        spec_contacts_from(poss, p, cand, dsm).len() == 0,
    decreases cand.len(),
{
    if cand.len() > 0 {
        assert(forall|k: int|
            0 <= k < cand.drop_last().len() ==> (#[trigger] cand.drop_last()[k] as int) == p);
        lemma_contacts_from_self(poss, p, cand.drop_last(), dsm);
    }
}

/// A scan whose candidates include an overlapping particle `q` records a
/// contact against `q`.
pub proof fn lemma_contacts_from_complete(
    poss: Seq<Vector2>,
    p: int,
    cand: Seq<usize>,
    dsm: int,
    q: usize,
)
    requires
        cand.contains(q),
        q as int != p,
        spec_overlaps(poss[p], poss[q as int], dsm),
    ensures
        spec_contacts_from(poss, p, cand, dsm).contains(spec_mk_contact(poss[p], poss[q as int], q)),
    decreases cand.len(),
{
    let cur = spec_contacts_from(poss, p, cand, dsm);
    let rest = spec_contacts_from(poss, p, cand.drop_last(), dsm);
    if cand.last() == q {
        if cand.last() as int != p && spec_overlaps(poss[p], poss[cand.last() as int], dsm) {
            assert(cur.last() == spec_mk_contact(poss[p], poss[q as int], q));
        }
    } else {
        let k = choose|k: int| 0 <= k < cand.len() && cand[k] == q;
        assert(cand.drop_last()[k] == q);
        assert(cand.drop_last().contains(q));
        lemma_contacts_from_complete(poss, p, cand.drop_last(), dsm, q);
        let c = spec_mk_contact(poss[p], poss[q as int], q);
        let m = choose|m: int| 0 <= m < rest.len() && rest[m] == c;
        assert(cur[m] == c);
    }
}

/// Boundary reflection without collision damping is exact: a step that
/// leaves the domain through the low-y wall alone comes back with the y
/// velocity negated, the x velocity untouched, and a nonnegative y
/// position.
pub proof fn lemma_boundary_reflection(
    pos: Vector2,
    vel: Vector2,
    x_size: int,
    y_size: int,
    dt: int,
)
    requires
        vec_in_range(pos),
        vec_in_range(vel),
        fx_in_range(dt),
        1 <= x_size,
        1 <= y_size,
    ensures
        ({
            let pt = spec_vadd(pos, spec_vscale(vel, dt));
            let refl_x = pt.x < 0 || (pt.x as int) >= x_size * (ONE as int);
            let mv = spec_move_pos(pos, vel, x_size, y_size, ONE as int, dt);
            pt.y < 0 && !refl_x ==> mv.1.y as int == -(vel.y as int) && mv.1.x == vel.x && mv.0.y
                >= 0
        }),
{
    let pt = spec_vadd(pos, spec_vscale(vel, dt));
    let refl_x = pt.x < 0 || (pt.x as int) >= x_size * (ONE as int);
    if pt.y < 0 && !refl_x {
        crate::fixed::lemma_fx_mul_one(vel.x as int);
        crate::fixed::lemma_fx_mul_one(-(vel.y as int));
    }
}

/// The contacts particle `p` records while scanning the candidate indices
/// `cand` in order: one per candidate that is not `p` itself and overlaps
/// it.
pub open spec fn spec_contacts_from(
    poss: Seq<Vector2>,
    p: int,
    cand: Seq<usize>,
    dsm: int,
) -> Seq<Contact>
    decreases cand.len(),
{
    if cand.len() == 0 {
        Seq::empty()
    } else {
        let rest = spec_contacts_from(poss, p, cand.drop_last(), dsm);
        let q = cand.last();
        if q as int != p && spec_overlaps(poss[p], poss[q as int], dsm) {
            rest.push(spec_mk_contact(poss[p], poss[q as int], q))
        } else {
            rest
        }
    }
}

impl Particle {
    pub fn new(pos: Vector2) -> (r: Particle)
        ensures
            r.pos == pos,
            r.vel == (Vector2 { x: 0, y: 0 }),
            r.contacts@.len() == 0,
    {
        Particle { pos, vel: Vector2 { x: 0, y: 0 }, contacts: Vec::new() }
    }

    pub fn with_vel(pos: Vector2, vel: Vector2) -> (r: Particle)
        ensures
            r.pos == pos,
            r.vel == vel,
            r.contacts@.len() == 0,
    {
        Particle { pos, vel, contacts: Vec::new() }
    }

    /// The broad-phase contact scan for particle `p`, standing at the cell
    /// the given cursor is on: walk the region window of `ceil(2 * radius)`
    /// cells around that cell and record one contact per other overlapping
    /// particle found, in traversal order. The scan reads the grid and the
    /// particle array and mutates nothing; the caller stores the returned
    /// list on the particle, which keeps the whole detection pass free of
    /// aliasing.
    pub fn check_particle_collisions(
        particles: &Vec<Particle>,
        p: usize,
        cell_it: &SpatialHashIter,
        properties: &Properties,
    ) -> (contacts: Vec<Contact>)
        requires
            cell_it.wf(),
            cell_it.valid(),
            entries_sound(
                cell_it.spatial_hash.cells_view(),
                particles@,
                cell_it.spatial_hash.y_size as int,
                particles@.len() as int,
            ),
            p < particles@.len(),
            forall|j: int|
                0 <= j < particles@.len() ==> vec_in_range((#[trigger] particles@[j]).pos),
            props_wf(*properties),
        ensures
            ({
                let r = spec_region_radius(properties.radius as int);
                contacts@ == spec_contacts_from(
                    poss_of(particles@),
                    p as int,
                    spec_win_cands(
                        cell_it.spatial_hash.cells_view(),
                        vstd::math::max(0, cell_it.x - r),
                        vstd::math::min(cell_it.spatial_hash.x_size as int, cell_it.x + r + 1),
                        vstd::math::max(0, cell_it.y - r),
                        vstd::math::min(cell_it.spatial_hash.y_size as int, cell_it.y + r + 1),
                        cell_it.spatial_hash.y_size as int,
                    ),
                    properties.dist_squared_max as int,
                )
            }),
            contacts_wf(contacts@, p as int, particles@.len() as int),
    {
        let region = region_radius(properties.radius);
        let mut col_cell_it = SpatialHashIter::new_region(cell_it, region);
        let ghost cells = cell_it.spatial_hash.cells_view();
        let ghost ysz = cell_it.spatial_hash.y_size as int;
        let ghost x0 = col_cell_it.x_start as int;
        let ghost x1 = col_cell_it.x_end as int;
        let ghost y0 = col_cell_it.y_start as int;
        let ghost y1 = col_cell_it.y_end as int;
        let ghost dsm = properties.dist_squared_max as int;
        let mut contacts: Vec<Contact> = Vec::new();
        let ghost mut cand: Seq<usize> = Seq::empty();
        loop
            invariant_except_break
                col_cell_it.wf(),
                col_cell_it.spatial_hash == cell_it.spatial_hash,
                col_cell_it.x_start == x0 && col_cell_it.x_end == x1,
                col_cell_it.y_start == y0 && col_cell_it.y_end == y1,
                cells == cell_it.spatial_hash.cells_view(),
                ysz == cell_it.spatial_hash.y_size as int,
                entries_sound(cells, particles@, ysz, particles@.len() as int),
                p < particles@.len(),
                forall|j: int|
                    0 <= j < particles@.len() ==> vec_in_range((#[trigger] particles@[j]).pos),
                props_wf(*properties),
                dsm == properties.dist_squared_max as int,
                !col_cell_it.started ==> cand == Seq::<usize>::empty(),
                col_cell_it.started ==> col_cell_it.valid() && cand == spec_win_cands(
                    cells,
                    x0,
                    x1,
                    y0,
                    col_cell_it.y as int,
                    ysz,
                ) + spec_row_cands(cells, col_cell_it.y as int, ysz, x0, col_cell_it.x as int + 1),
                contacts@ == spec_contacts_from(poss_of(particles@), p as int, cand, dsm),
                contacts_wf(contacts@, p as int, particles@.len() as int),
            ensures
                contacts@ == spec_contacts_from(
                    poss_of(particles@),
                    p as int,
                    spec_win_cands(cells, x0, x1, y0, y1, ysz),
                    dsm,
                ),
                contacts_wf(contacts@, p as int, particles@.len() as int),
            decreases
                    (if col_cell_it.started {
                        0int
                    } else {
                        1int
                    }),
                    y1 - col_cell_it.y,
                    x1 - col_cell_it.x,
        {
            let ghost pre = col_cell_it;
            let more = col_cell_it.next();
            if !more {
                proof {
                    assert(pre.started);
                    assert(pre.x + 1 == x1 && pre.y + 1 == y1);
                    assert(spec_win_cands(cells, x0, x1, y0, y1, ysz) == spec_win_cands(
                        cells,
                        x0,
                        x1,
                        y0,
                        y1 - 1,
                        ysz,
                    ) + spec_row_cands(cells, y1 - 1, ysz, x0, x1));
                    assert(cand == spec_win_cands(cells, x0, x1, y0, y1, ysz));
                }
                break;
            }
            let ghost cand0 = cand;
            let col_cell = col_cell_it.cell();
            let m = col_cell.len();
            let mut k: usize = 0;
            while k < m
                invariant
                    k <= m,
                    m == col_cell@.len(),
                    col_cell_it.wf(),
                    col_cell_it.valid(),
                    0 <= col_cell_it.spec_cur_cell() < cells.len(),
                    col_cell@ == cells[col_cell_it.spec_cur_cell()],
                    cells == cell_it.spatial_hash.cells_view(),
                    ysz == cell_it.spatial_hash.y_size as int,
                    entries_sound(cells, particles@, ysz, particles@.len() as int),
                    p < particles@.len(),
                    forall|j: int|
                        0 <= j < particles@.len() ==> vec_in_range((#[trigger] particles@[j]).pos),
                    props_wf(*properties),
                    dsm == properties.dist_squared_max as int,
                    cand == cand0 + col_cell@.take(k as int),
                    contacts@ == spec_contacts_from(poss_of(particles@), p as int, cand, dsm),
                    contacts_wf(contacts@, p as int, particles@.len() as int),
                decreases m - k,
            {
                let q = col_cell[k];
                proof {
                    assert(cells[col_cell_it.spec_cur_cell()][k as int] == q);
                    assert((q as int) < particles@.len());
                }
                if q != p {
                    let delta = v_sub(particles[q].pos, particles[p].pos);
                    let d2 = length_squared(delta);
                    if d2 > 0 && d2 < properties.dist_squared_max {
                        let dist = fx_sqrt(d2);
                        let normal = vec2(fx_div(delta.x, dist), fx_div(delta.y, dist));
                        contacts.push(Contact { normal, depth: dist, other: q });
                        proof {
                            assert(poss_of(particles@)[p as int] == particles@[p as int].pos);
                            assert(poss_of(particles@)[q as int] == particles@[q as int].pos);
                            assert(spec_overlaps(
                                poss_of(particles@)[p as int],
                                poss_of(particles@)[q as int],
                                dsm,
                            ));
                            assert(contacts@.last() == spec_mk_contact(
                                poss_of(particles@)[p as int],
                                poss_of(particles@)[q as int],
                                q,
                            ));
                        }
                    }
                }
                proof {
                    let c2 = cand.push(q);
                    assert(c2.drop_last() =~= cand);
                    assert(c2.last() == q);
                    assert(cand0 + col_cell@.take(k as int + 1) =~= c2);
                    cand = c2;
                }
                k = k + 1;
            }
            proof {
                assert(col_cell@.take(m as int) =~= col_cell@);
                assert(cand == cand0 + cells[col_cell_it.spec_cur_cell()]);
                let cy = col_cell_it.y as int;
                let cx = col_cell_it.x as int;
                if !pre.started {
                    assert(cx == x0 && cy == y0);
                    assert(spec_win_cands(cells, x0, x1, y0, y0, ysz) == Seq::<usize>::empty());
                    assert(spec_row_cands(cells, cy, ysz, x0, x0 + 1) == spec_row_cands(
                        cells,
                        cy,
                        ysz,
                        x0,
                        x0,
                    ) + cells[x0 + cy * ysz]);
                    assert(cand =~= spec_win_cands(cells, x0, x1, y0, cy, ysz) + spec_row_cands(
                        cells,
                        cy,
                        ysz,
                        x0,
                        cx + 1,
                    ));
                } else if pre.x + 1 < x1 {
                    assert(cx == pre.x + 1 && cy == pre.y);
                    assert(spec_row_cands(cells, cy, ysz, x0, cx + 1) == spec_row_cands(
                        cells,
                        cy,
                        ysz,
                        x0,
                        cx,
                    ) + cells[cx + cy * ysz]);
                    assert(cand =~= spec_win_cands(cells, x0, x1, y0, cy, ysz) + spec_row_cands(
                        cells,
                        cy,
                        ysz,
                        x0,
                        cx + 1,
                    ));
                } else {
                    assert(cx == x0 && cy == pre.y + 1);
                    assert(spec_win_cands(cells, x0, x1, y0, cy, ysz) == spec_win_cands(
                        cells,
                        x0,
                        x1,
                        y0,
                        pre.y as int,
                        ysz,
                    ) + spec_row_cands(cells, pre.y as int, ysz, x0, x1));
                    assert(spec_row_cands(cells, cy, ysz, x0, x0 + 1) == spec_row_cands(
                        cells,
                        cy,
                        ysz,
                        x0,
                        x0,
                    ) + cells[x0 + cy * ysz]);
                    assert(cand =~= spec_win_cands(cells, x0, x1, y0, cy, ysz) + spec_row_cands(
                        cells,
                        cy,
                        ysz,
                        x0,
                        cx + 1,
                    ));
                }
            }
        }
        contacts
    }

    /// Resolve particle `i`'s recorded contacts into the velocity array,
    /// exactly as `spec_resolve_particle` describes: per contact, the
    /// impulse transfer onto the other particle and the repulsion kick, then
    /// gravity. Positions and contact lists are untouched.
    pub fn update_velocity(
        particles: &mut Vec<Particle>,
        i: usize,
        properties: &Properties,
        dt: i64,
    )
        requires
            i < old(particles)@.len(),
            contacts_wf(old(particles)@[i as int].contacts@, i as int, old(particles)@.len() as int),
            forall|j: int|
                0 <= j < old(particles)@.len() ==> vec_in_range(
                    (#[trigger] old(particles)@[j]).vel,
                ),
            props_wf(*properties),
            fx_in_range(dt as int),
        ensures
            final(particles)@.len() == old(particles)@.len(),
            forall|j: int|
                0 <= j < old(particles)@.len() ==> {
                    &&& (#[trigger] final(particles)@[j]).pos == old(particles)@[j].pos
                    &&& final(particles)@[j].contacts == old(particles)@[j].contacts
                },
            vels_of(final(particles)@) == spec_resolve_particle(
                vels_of(old(particles)@),
                i as int,
                old(particles)@[i as int].contacts@,
                properties.elasticity as int,
                properties.gravity,
                dt as int,
            ),
            forall|j: int|
                0 <= j < final(particles)@.len() ==> vec_in_range(
                    (#[trigger] final(particles)@[j]).vel,
                ),
    {
        let ghost vels0 = vels_of(particles@);
        let ghost cs = particles@[i as int].contacts@;
        let ghost n = particles@.len() as int;
        let contacts_len = particles[i].contacts.len();
        let mut k: usize = 0;
        while k < contacts_len
            invariant
                i < particles@.len(),
                particles@.len() as int == n,
                k <= contacts_len,
                contacts_len == cs.len(),
                cs == particles@[i as int].contacts@,
                contacts_wf(cs, i as int, n),
                forall|j: int|
                    0 <= j < particles@.len() ==> {
                        &&& (#[trigger] particles@[j]).pos == old(particles)@[j].pos
                        &&& particles@[j].contacts == old(particles)@[j].contacts
                    },
                vels_of(particles@) == spec_apply_contacts(
                    vels0,
                    i as int,
                    cs.take(k as int),
                    properties.elasticity as int,
                ),
                forall|j: int|
                    0 <= j < particles@.len() ==> vec_in_range((#[trigger] particles@[j]).vel),
                props_wf(*properties),
            decreases contacts_len - k,
        {
            let ghost vels_pre = vels_of(particles@);
            let c = particles[i].contacts[k];
            let v = particles[i].vel;
            let tangent = vec2(-c.normal.y, c.normal.x);
            let projected = project(v, tangent);
            let transfer = v_sub(v, projected);
            let scaled = v_scale(transfer, CONTACT_RETENTION);
            set_vel(particles, i, projected);
            let other_v = particles[c.other].vel;
            set_vel(particles, c.other, v_add(other_v, scaled));
            let delta = vec2(fx_mul(c.normal.x, c.depth), fx_mul(c.normal.y, c.depth));
            let vel_mag = fx_div(ONE, fx_mul(c.depth, HALF));
            let kick = vec2(
                fx_mul(fx_mul(delta.x, vel_mag), properties.elasticity),
                fx_mul(fx_mul(delta.y, vel_mag), properties.elasticity),
            );
            let vi = particles[i].vel;
            set_vel(particles, i, v_sub(vi, kick));
            proof {
                assert(vels_of(particles@) =~= spec_apply_contact(
                    vels_pre,
                    i as int,
                    c,
                    properties.elasticity as int,
                ));
                assert(cs.take(k as int + 1).drop_last() =~= cs.take(k as int));
                assert(cs.take(k as int + 1).last() == c);
                assert(vels_of(particles@) == spec_apply_contacts(
                    vels0,
                    i as int,
                    cs.take(k as int + 1),
                    properties.elasticity as int,
                ));
            }
            k = k + 1;
        }
        let vg = v_add(particles[i].vel, v_scale(properties.gravity, dt));
        set_vel(particles, i, vg);
        proof {
            assert(cs.take(cs.len() as int) =~= cs);
            assert(vels_of(particles@) =~= spec_resolve_particle(
                vels0,
                i as int,
                cs,
                properties.elasticity as int,
                properties.gravity,
                dt as int,
            ));
        }
    }

    /// Advance this particle by one time step and reflect it off the domain
    /// boundary, exactly as `spec_move_pos` describes. The new position is
    /// always inside the grid.
    pub fn move_pos(&mut self, spatial_hash: &SpatialHash, properties: &Properties, dt: i64)
        requires
            vec_in_range(old(self).pos),
            vec_in_range(old(self).vel),
            props_wf(*properties),
            fx_in_range(dt as int),
            spatial_hash.wf(),
        ensures
            ({
                let (p, v) = spec_move_pos(
                    old(self).pos,
                    old(self).vel,
                    spatial_hash.x_size as int,
                    spatial_hash.y_size as int,
                    properties.collision_damping as int,
                    dt as int,
                );
                final(self).pos == p && final(self).vel == v
            }),
            final(self).contacts == old(self).contacts,
            crate::spatial_hash::pos_in_grid(
                final(self).pos,
                spatial_hash.x_size as int,
                spatial_hash.y_size as int,
            ),
            vec_in_range(final(self).vel),
    {
        let xs_one: i64 = (spatial_hash.x_size as i64) * 65536;
        let ys_one: i64 = (spatial_hash.y_size as i64) * 65536;
        let pt = v_add(self.pos, v_scale(self.vel, dt));
        let refl_x = pt.x < 0 || pt.x >= xs_one;
        let refl_y = pt.y < 0 || pt.y >= ys_one;
        let mut vx = self.vel.x;
        let mut vy = self.vel.y;
        if refl_x {
            vx = -vx;
        }
        if refl_y {
            vy = -vy;
        }
        let vel1 = Vector2 { x: vx, y: vy };
        if refl_x || refl_y {
            let vel2 = v_scale(vel1, properties.collision_damping);
            let pt2 = v_add(self.pos, v_scale(vel2, dt));
            self.pos = Vector2 {
                x: crate::fixed::fx_clamp(pt2.x, 0, xs_one - 1),
                y: crate::fixed::fx_clamp(pt2.y, 0, ys_one - 1),
            };
            self.vel = vel2;
        } else {
            self.pos = Vector2 {
                x: crate::fixed::fx_clamp(pt.x, 0, xs_one - 1),
                y: crate::fixed::fx_clamp(pt.y, 0, ys_one - 1),
            };
            self.vel = vel1;
        }
    }
}

} // verus!
