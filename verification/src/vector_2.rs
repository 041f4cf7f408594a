//! Two-component fixed-point vectors and the vector operations the
//! simulation uses: add, sub, scale, dot, squared length, reflect, project,
//! and rotation.
//!
//! A rotation is carried as the pair of the cosine and sine of its angle, in
//! fixed point; the trigonometry itself happens outside the simulation core,
//! which only ever multiplies by these two scalars.

use vstd::prelude::*;
use crate::fixed::{
    fx_in_range, spec_fx_add, spec_fx_sub, spec_fx_mul, spec_fx_div, fx_add, fx_sub, fx_mul,
    fx_div,
};

verus! {

#[derive(Clone, Copy, PartialEq, Eq, Structural, Debug)]
pub struct Vector2 {
    pub x: i64,
    pub y: i64,
}

/// A rotation angle, represented by its cosine and sine in fixed point.
#[derive(Clone, Copy, PartialEq, Eq, Structural, Debug)]
pub struct Rotation {
    pub cos: i64,
    pub sin: i64,
}

pub open spec fn vec_in_range(v: Vector2) -> bool {
    fx_in_range(v.x as int) && fx_in_range(v.y as int)
}

pub open spec fn rot_in_range(r: Rotation) -> bool {
    fx_in_range(r.cos as int) && fx_in_range(r.sin as int)
}

/// The opposite angle: same cosine, negated sine.
pub open spec fn spec_rot_neg(r: Rotation) -> Rotation {
    Rotation { cos: r.cos, sin: (-(r.sin as int)) as i64 }
}

pub open spec fn spec_vadd(a: Vector2, b: Vector2) -> Vector2 {
    Vector2 { x: spec_fx_add(a.x as int, b.x as int) as i64, y: spec_fx_add(a.y as int, b.y as int) as i64 }
}

pub open spec fn spec_vsub(a: Vector2, b: Vector2) -> Vector2 {
    Vector2 { x: spec_fx_sub(a.x as int, b.x as int) as i64, y: spec_fx_sub(a.y as int, b.y as int) as i64 }
}

/// Componentwise scaling by a fixed-point scalar.
pub open spec fn spec_vscale(v: Vector2, s: int) -> Vector2 {
    Vector2 { x: spec_fx_mul(v.x as int, s) as i64, y: spec_fx_mul(v.y as int, s) as i64 }
}

pub open spec fn spec_dot(a: Vector2, b: Vector2) -> int {
    spec_fx_add(spec_fx_mul(a.x as int, b.x as int), spec_fx_mul(a.y as int, b.y as int))
}

pub open spec fn spec_length_squared(v: Vector2) -> int {
    spec_dot(v, v)
}

/// `v - 2 (v . n) n`: the reflection of `v` off a surface with normal `n`.
pub open spec fn spec_reflect(v: Vector2, n: Vector2) -> Vector2 {
    let d = spec_dot(v, n);
    let d2 = spec_fx_add(d, d);
    Vector2 {
        x: spec_fx_sub(v.x as int, spec_fx_mul(d2, n.x as int)) as i64,
        y: spec_fx_sub(v.y as int, spec_fx_mul(d2, n.y as int)) as i64,
    }
}

/// `(a . b / b . b) b`: the projection of `a` onto `b`. A degenerate `b`
/// (with `b . b == 0`) projects to the zero vector.
pub open spec fn spec_project(a: Vector2, b: Vector2) -> Vector2 {
    let s = spec_fx_div(spec_dot(a, b), spec_dot(b, b));
    Vector2 { x: spec_fx_mul(s, b.x as int) as i64, y: spec_fx_mul(s, b.y as int) as i64 }
}

/// Counterclockwise rotation of `v` by the angle whose cosine and sine `rot`
/// holds.
pub open spec fn spec_rotate_vector(v: Vector2, rot: Rotation) -> Vector2 {
    Vector2 {
        x: spec_fx_sub(spec_fx_mul(v.x as int, rot.cos as int), spec_fx_mul(v.y as int, rot.sin as int)) as i64,
        y: spec_fx_add(spec_fx_mul(v.x as int, rot.sin as int), spec_fx_mul(v.y as int, rot.cos as int)) as i64,
    }
}

pub open spec fn spec_rotate_point_around(pt: Vector2, origin: Vector2, rot: Rotation) -> Vector2 {
    spec_vadd(origin, spec_rotate_vector(spec_vsub(pt, origin), rot))
}

impl Vector2 {
    pub fn new(x: i64, y: i64) -> (r: Vector2)
        ensures
            r == (Vector2 { x, y }),
    {
        Vector2 { x, y }
    }

    pub fn length_squared(&self) -> (r: i64)
        requires
            vec_in_range(*self),
        ensures
            r as int == spec_length_squared(*self),
            fx_in_range(r as int),
            r >= 0,
    {
        dot(*self, *self)
    }
}

impl Rotation {
    /// The zero angle.
    pub fn identity() -> (r: Rotation)
        ensures
            r.cos == crate::fixed::ONE,
            r.sin == 0,
    {
        Rotation { cos: crate::fixed::ONE, sin: 0 }
    }

    /// The opposite angle: same cosine, negated sine.
    pub fn neg(&self) -> (r: Rotation)
        requires
            rot_in_range(*self),
        ensures
            r == spec_rot_neg(*self),
            rot_in_range(r),
    {
        Rotation { cos: self.cos, sin: -self.sin }
    }
}

pub fn vec2(x: i64, y: i64) -> (r: Vector2)
    ensures
        r == (Vector2 { x, y }),
{
    Vector2 { x, y }
}

pub fn vec2_from_single(v: i64) -> (r: Vector2)
    ensures
        r == (Vector2 { x: v, y: v }),
{
    Vector2 { x: v, y: v }
}

pub fn v_add(a: Vector2, b: Vector2) -> (r: Vector2)
    requires
        vec_in_range(a),
        vec_in_range(b),
    ensures
        r == spec_vadd(a, b),
        vec_in_range(r),
{
    Vector2 { x: fx_add(a.x, b.x), y: fx_add(a.y, b.y) }
}

pub fn v_sub(a: Vector2, b: Vector2) -> (r: Vector2)
    requires
        vec_in_range(a),
        vec_in_range(b),
    ensures
        r == spec_vsub(a, b),
        vec_in_range(r),
{
    Vector2 { x: fx_sub(a.x, b.x), y: fx_sub(a.y, b.y) }
}

/// Componentwise (hadamard) product.
pub open spec fn spec_vhadamard(a: Vector2, b: Vector2) -> Vector2 {
    Vector2 {
        x: spec_fx_mul(a.x as int, b.x as int) as i64,
        y: spec_fx_mul(a.y as int, b.y as int) as i64,
    }
}

pub fn v_hadamard(a: Vector2, b: Vector2) -> (r: Vector2)
    requires
        vec_in_range(a),
        vec_in_range(b),
    ensures
        r == spec_vhadamard(a, b),
        vec_in_range(r),
{
    Vector2 { x: fx_mul(a.x, b.x), y: fx_mul(a.y, b.y) }
}

pub fn v_scale(v: Vector2, s: i64) -> (r: Vector2)
    requires
        vec_in_range(v),
        fx_in_range(s as int),
    ensures
        r == spec_vscale(v, s as int),
        vec_in_range(r),
{
    Vector2 { x: fx_mul(v.x, s), y: fx_mul(v.y, s) }
}

pub fn length_squared(v: Vector2) -> (r: i64)
    requires
        vec_in_range(v),
    ensures
        r as int == spec_length_squared(v),
        fx_in_range(r as int),
        r >= 0,
{
    dot(v, v)
}

pub fn dot(a: Vector2, b: Vector2) -> (r: i64)
    requires
        vec_in_range(a),
        vec_in_range(b),
    ensures
        r as int == spec_dot(a, b),
        fx_in_range(r as int),
        a == b ==> r >= 0,
{
    proof {
        assert((a.x as int) * (a.x as int) >= 0 && (a.y as int) * (a.y as int) >= 0)
            by (nonlinear_arith);
    }
    fx_add(fx_mul(a.x, b.x), fx_mul(a.y, b.y))
}

pub fn reflect(v: Vector2, n: Vector2) -> (r: Vector2)
    requires
        vec_in_range(v),
        vec_in_range(n),
    ensures
        r == spec_reflect(v, n),
        vec_in_range(r),
{
    let d = dot(v, n);
    let d2 = fx_add(d, d);
    Vector2 { x: fx_sub(v.x, fx_mul(d2, n.x)), y: fx_sub(v.y, fx_mul(d2, n.y)) }
}

pub fn project(a: Vector2, b: Vector2) -> (r: Vector2)
    requires
        vec_in_range(a),
        vec_in_range(b),
    ensures
        r == spec_project(a, b),
        vec_in_range(r),
{
    let s = fx_div(dot(a, b), dot(b, b));
    Vector2 { x: fx_mul(s, b.x), y: fx_mul(s, b.y) }
}

pub fn rotate_vector(v: Vector2, rot: Rotation) -> (r: Vector2)
    requires
        vec_in_range(v),
        rot_in_range(rot),
    ensures
        r == spec_rotate_vector(v, rot),
        vec_in_range(r),
{
    Vector2 {
        x: fx_sub(fx_mul(v.x, rot.cos), fx_mul(v.y, rot.sin)),
        y: fx_add(fx_mul(v.x, rot.sin), fx_mul(v.y, rot.cos)),
    }
}

pub fn rotate_point_around(pt: Vector2, origin: Vector2, rot: Rotation) -> (r: Vector2)
    requires
        vec_in_range(pt),
        vec_in_range(origin),
        rot_in_range(rot),
    ensures
        r == spec_rotate_point_around(pt, origin, rot),
        vec_in_range(r),
{
    v_add(origin, rotate_vector(v_sub(pt, origin), rot))
}

} // verus!
