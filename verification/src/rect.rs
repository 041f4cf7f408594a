//! Oriented-rectangle versus circle collision.
//!
//! The test rotates the particle into the rectangle's local frame, clamps it
//! to the half-extents to find the closest boundary point, and on overlap
//! reflects the velocity off the local contact normal (rotated back to world
//! space) and pushes the particle out along a depth-scaled vector. A
//! particle whose center coincides with the clamped point (deep
//! interpenetration) has no defined normal; the documented fallback pushes
//! it out through the nearest face, to one radius beyond it, and reflects
//! the velocity off that face's normal.

use vstd::prelude::*;
use crate::fixed::{
    ONE, HALF, spec_clamp, spec_fx_add, spec_fx_sub, spec_fx_mul, spec_fx_div, spec_fx_sqrt,
    fx_clamp, fx_add, fx_sub, fx_mul, fx_div, fx_sqrt,
};
use crate::vector_2::{
    Vector2, Rotation, vec_in_range, rot_in_range, spec_rot_neg, spec_vadd, spec_vsub,
    spec_vscale, spec_length_squared, spec_reflect, spec_rotate_vector, spec_rotate_point_around,
    v_add, v_sub, v_scale, length_squared, reflect, rotate_vector, rotate_point_around,
};
use crate::particle::Particle;
use crate::shape::Shape;
use crate::fluid_sim::Properties;

verus! {

/// A static oriented rectangle: center, extents, and rotation
/// (counterclockwise, carried as its cosine and sine).
#[derive(Clone, Copy, PartialEq, Eq, Structural, Debug)]
pub struct Rect {
    pub pos: Vector2,
    pub size: Vector2,
    pub rotation: Rotation,
}

pub open spec fn rect_wf(r: Rect) -> bool {
    &&& vec_in_range(r.pos)
    &&& vec_in_range(r.size)
    &&& r.size.x >= 0
    &&& r.size.y >= 0
    &&& rot_in_range(r.rotation)
}

/// Outward local-frame face normal and signed distance of the nearest face
/// of the box `[lo, hi]` to an interior point; ties prefer the low-x, then
/// high-x, then low-y face.
pub open spec fn spec_face_normal(local: Vector2, lo: Vector2, hi: Vector2) -> (Vector2, int) {
    let dxlo = spec_fx_sub(local.x as int, lo.x as int);
    let dxhi = spec_fx_sub(hi.x as int, local.x as int);
    let dylo = spec_fx_sub(local.y as int, lo.y as int);
    let dyhi = spec_fx_sub(hi.y as int, local.y as int);
    if dxlo <= dxhi && dxlo <= dylo && dxlo <= dyhi {
        (Vector2 { x: (-(ONE as int)) as i64, y: 0 }, dxlo)
    } else if dxhi <= dylo && dxhi <= dyhi {
        (Vector2 { x: ONE, y: 0 }, dxhi)
    } else if dylo <= dyhi {
        (Vector2 { x: 0, y: (-(ONE as int)) as i64 }, dylo)
    } else {
        (Vector2 { x: 0, y: ONE }, dyhi)
    }
}

/// The position and velocity a particle of the given radius ends with after
/// being tested against the rectangle.
pub open spec fn spec_collide_result(rect: Rect, pos: Vector2, vel: Vector2, radius: int) -> (
    Vector2,
    Vector2,
) {
    let local = spec_rotate_point_around(pos, rect.pos, spec_rot_neg(rect.rotation));
    let half = Vector2 {
        x: spec_fx_mul(rect.size.x as int, HALF as int) as i64,
        y: spec_fx_mul(rect.size.y as int, HALF as int) as i64,
    };
    let lo = spec_vsub(rect.pos, half);
    let hi = spec_vadd(rect.pos, half);
    let closest = Vector2 {
        x: spec_clamp(local.x as int, lo.x as int, hi.x as int) as i64,
        y: spec_clamp(local.y as int, lo.y as int, hi.y as int) as i64,
    };
    let dist_vec = spec_vsub(local, closest);
    let dist_sqrd = spec_length_squared(dist_vec);
    let radius_sqrd = spec_fx_mul(radius, radius);
    if dist_sqrd >= radius_sqrd {
        (pos, vel)
    } else if dist_sqrd > 0 {
        let dist = spec_fx_sqrt(dist_sqrd);
        let normal = Vector2 {
            x: spec_fx_div(dist_vec.x as int, dist) as i64,
            y: spec_fx_div(dist_vec.y as int, dist) as i64,
        };
        let unrotated_normal = spec_rotate_vector(normal, rect.rotation);
        let new_vel = spec_reflect(vel, unrotated_normal);
        let dist_to_push = spec_fx_sub(radius, dist);
        let push_vec = Vector2 {
            x: spec_fx_mul(spec_fx_mul(dist_vec.x as int, dist), dist_to_push) as i64,
            y: spec_fx_mul(spec_fx_mul(dist_vec.y as int, dist), dist_to_push) as i64,
        };
        let new_pos = spec_vadd(pos, spec_rotate_vector(push_vec, rect.rotation));
        (new_pos, new_vel)
    } else {
        let nf = spec_face_normal(local, lo, hi);
        let push_local = spec_vscale(nf.0, spec_fx_add(nf.1, radius));
        let new_pos = spec_vadd(pos, spec_rotate_vector(push_local, rect.rotation));
        let new_vel = spec_reflect(vel, spec_rotate_vector(nf.0, rect.rotation));
        (new_pos, new_vel)
    }
}

/// Rectangle push-out, axis-aligned deep-penetration case: a particle whose
/// center lies inside the rectangle, strictly nearest to the low-y face,
/// leaves the collision standing exactly one radius outside that face, with
/// the velocity component along the face normal flipped and the tangential
/// component kept. The preconditions pin down the case: zero rotation, the
/// rectangle inside the nonnegative quadrant of the representable range, a
/// radius of at least one fixed-point quantum squared, a velocity small
/// enough that doubling it cannot saturate, and the center strictly nearest
/// the low-y face.
pub proof fn lemma_rect_push_out(rect: Rect, pos: Vector2, vel: Vector2, radius: int)
    requires
        rect_wf(rect),
        rect.rotation == (Rotation { cos: ONE, sin: 0 }),
        vec_in_range(pos),
        0 <= pos.x,
        0 <= pos.y,
        0 <= rect.pos.x,
        0 <= rect.pos.y,
        256 <= radius <= crate::fixed::FX_MAX as int,
        (rect.pos.x as int) + spec_fx_mul(rect.size.x as int, HALF as int)
            <= crate::fixed::FX_MAX as int,
        (rect.pos.y as int) + spec_fx_mul(rect.size.y as int, HALF as int)
            <= crate::fixed::FX_MAX as int,
        -(crate::fixed::FX_MAX as int) / 2 <= vel.x as int <= (crate::fixed::FX_MAX as int) / 2,
        -(crate::fixed::FX_MAX as int) / 2 <= vel.y as int <= (crate::fixed::FX_MAX as int) / 2,
        ({
            let half_y = spec_fx_mul(rect.size.y as int, HALF as int);
            let half_x = spec_fx_mul(rect.size.x as int, HALF as int);
            let lo_x = (rect.pos.x as int) - half_x;
            let hi_x = (rect.pos.x as int) + half_x;
            let lo_y = (rect.pos.y as int) - half_y;
            let hi_y = (rect.pos.y as int) + half_y;
            let dxlo = (pos.x as int) - lo_x;
            let dxhi = hi_x - (pos.x as int);
            let dylo = (pos.y as int) - lo_y;
            let dyhi = hi_y - (pos.y as int);
            &&& 0 <= dylo
            &&& dylo < dxlo
            &&& dylo < dxhi
            &&& dylo < dyhi
            &&& dylo + radius <= crate::fixed::FX_MAX as int
        }),
    ensures
        ({
            let half_y = spec_fx_mul(rect.size.y as int, HALF as int);
            let lo_y = (rect.pos.y as int) - half_y;
            let r = spec_collide_result(rect, pos, vel, radius);
            &&& r.0.x == pos.x
            &&& (r.0.y as int) == lo_y - radius
            &&& (r.1.y as int) == -(vel.y as int)
            &&& r.1.x == vel.x
        }),
{
    let one = ONE as int;
    let half_x = spec_fx_mul(rect.size.x as int, HALF as int);
    let half_y = spec_fx_mul(rect.size.y as int, HALF as int);
    assert(half_x >= 0 && half_y >= 0);
    let lo_x = (rect.pos.x as int) - half_x;
    let hi_x = (rect.pos.x as int) + half_x;
    let lo_y = (rect.pos.y as int) - half_y;
    let hi_y = (rect.pos.y as int) + half_y;
    let neg = spec_rot_neg(rect.rotation);
    // Zero rotation: the local frame is the world frame.
    crate::fixed::lemma_fx_mul_one((pos.x as int) - (rect.pos.x as int));
    crate::fixed::lemma_fx_mul_one((pos.y as int) - (rect.pos.y as int));
    crate::fixed::lemma_fx_mul_zero((pos.x as int) - (rect.pos.x as int));
    crate::fixed::lemma_fx_mul_zero((pos.y as int) - (rect.pos.y as int));
    let local = spec_rotate_point_around(pos, rect.pos, neg);
    assert(local == pos);
    // The center is inside the box, so the clamp is the identity and the
    // distance vector degenerates to zero.
    let dxlo = (pos.x as int) - lo_x;
    let dxhi = hi_x - (pos.x as int);
    let dylo = (pos.y as int) - lo_y;
    let dyhi = hi_y - (pos.y as int);
    let closest = Vector2 {
        x: spec_clamp(local.x as int, spec_fx_sub(rect.pos.x as int, half_x), spec_fx_add(rect.pos.x as int, half_x)) as i64,
        y: spec_clamp(local.y as int, spec_fx_sub(rect.pos.y as int, half_y), spec_fx_add(rect.pos.y as int, half_y)) as i64,
    };
    assert(spec_fx_sub(rect.pos.x as int, half_x) == lo_x);
    assert(spec_fx_add(rect.pos.x as int, half_x) == hi_x);
    assert(spec_fx_sub(rect.pos.y as int, half_y) == lo_y);
    assert(spec_fx_add(rect.pos.y as int, half_y) == hi_y);
    assert(closest == pos);
    assert(spec_length_squared(spec_vsub(local, closest)) == 0);
    // A radius of at least one quantum squared makes the squared radius
    // positive, so this is a collision and the face fallback fires.
    assert(spec_fx_mul(radius, radius) >= 1) by (nonlinear_arith)
        requires
            256 <= radius,
    ;
    // The low-y face is the strict minimum, so the fallback picks it.
    assert(spec_face_normal(
        local,
        spec_vsub(rect.pos, Vector2 { x: half_x as i64, y: half_y as i64 }),
        spec_vadd(rect.pos, Vector2 { x: half_x as i64, y: half_y as i64 }),
    ) == (Vector2 { x: 0, y: (-one) as i64 }, dylo));
    // Push and reflection, computed exactly.
    crate::fixed::lemma_fx_mul_neg_one(dylo + radius);
    crate::fixed::lemma_fx_mul_zero(dylo + radius);
    crate::fixed::lemma_fx_mul_one(-one);
    crate::fixed::lemma_fx_mul_zero(-one);
    crate::fixed::lemma_fx_mul_zero(vel.x as int);
    crate::fixed::lemma_fx_mul_neg_one(vel.y as int);
    crate::fixed::lemma_fx_mul_neg_one(-2 * (vel.y as int));
    crate::fixed::lemma_fx_mul_zero(-2 * (vel.y as int));
    let r = spec_collide_result(rect, pos, vel, radius);
    assert(r.0.x == pos.x && (r.0.y as int) == lo_y - radius && (r.1.y as int) == -(vel.y as int)
        && r.1.x == vel.x);
}

impl Shape for Rect {
    open spec fn shape_wf(&self) -> bool {
        rect_wf(*self)
    }

    open spec fn spec_collide(&self, pos: Vector2, vel: Vector2, radius: int) -> (
        Vector2,
        Vector2,
    ) {
        spec_collide_result(*self, pos, vel, radius)
    }

    fn collide_with(&self, particle: &mut Particle, properties: &Properties) {
        let neg_rot = self.rotation.neg();
        let local = rotate_point_around(particle.pos, self.pos, neg_rot);
        let half = Vector2 { x: fx_mul(self.size.x, HALF), y: fx_mul(self.size.y, HALF) };
        proof {
            assert(half.x >= 0 && half.y >= 0);
        }
        let lo = v_sub(self.pos, half);
        let hi = v_add(self.pos, half);
        let closest = Vector2 { x: fx_clamp(local.x, lo.x, hi.x), y: fx_clamp(local.y, lo.y, hi.y) };
        let dist_vec = v_sub(local, closest);
        let dist_sqrd = length_squared(dist_vec);
        let radius_sqrd = fx_mul(properties.radius, properties.radius);
        if dist_sqrd >= radius_sqrd {
            return;
        }
        if dist_sqrd > 0 {
            let dist = fx_sqrt(dist_sqrd);
            let normal = Vector2 { x: fx_div(dist_vec.x, dist), y: fx_div(dist_vec.y, dist) };
            let unrotated_normal = rotate_vector(normal, self.rotation);
            particle.vel = reflect(particle.vel, unrotated_normal);
            let dist_to_push = fx_sub(properties.radius, dist);
            let push_vec = Vector2 {
                x: fx_mul(fx_mul(dist_vec.x, dist), dist_to_push),
                y: fx_mul(fx_mul(dist_vec.y, dist), dist_to_push),
            };
            let unrotated_push = rotate_vector(push_vec, self.rotation);
            particle.pos = v_add(particle.pos, unrotated_push);
        } else {
            let dxlo = fx_sub(local.x, lo.x);
            let dxhi = fx_sub(hi.x, local.x);
            let dylo = fx_sub(local.y, lo.y);
            let dyhi = fx_sub(hi.y, local.y);
            let n_local: Vector2;
            let fd: i64;
            if dxlo <= dxhi && dxlo <= dylo && dxlo <= dyhi {
                n_local = Vector2 { x: -ONE, y: 0 };
                fd = dxlo;
            } else if dxhi <= dylo && dxhi <= dyhi {
                n_local = Vector2 { x: ONE, y: 0 };
                fd = dxhi;
            } else if dylo <= dyhi {
                n_local = Vector2 { x: 0, y: -ONE };
                fd = dylo;
            } else {
                n_local = Vector2 { x: 0, y: ONE };
                fd = dyhi;
            }
            let push_local = v_scale(n_local, fx_add(fd, properties.radius));
            particle.pos = v_add(particle.pos, rotate_vector(push_local, self.rotation));
            particle.vel = reflect(particle.vel, rotate_vector(n_local, self.rotation));
        }
    }
}

} // verus!
