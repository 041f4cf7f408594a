//! Exact-value tests for the fixed-point scalars and the vector operations.

use libphysics::fixed::{fx_add, fx_sub, fx_mul, fx_div, fx_sqrt, fx_clamp, ONE, HALF, FX_MAX};
use libphysics::vector_2::{
    Vector2, Rotation, vec2, vec2_from_single, v_add, v_sub, v_scale, v_hadamard, dot,
    length_squared, reflect, project, rotate_vector, rotate_point_around,
};

#[test]
fn add_and_sub_are_exact_in_range() {
    assert_eq!(fx_add(5, 7), 12);
    assert_eq!(fx_sub(5, 7), -2);
    assert_eq!(fx_add(3 * ONE, -ONE), 2 * ONE);
}

#[test]
fn add_saturates_at_the_bound() {
    assert_eq!(fx_add(FX_MAX, FX_MAX), FX_MAX);
    assert_eq!(fx_sub(-FX_MAX, FX_MAX), -FX_MAX);
}

#[test]
fn mul_rescales_and_truncates_toward_zero() {
    assert_eq!(fx_mul(2 * ONE, 3 * ONE), 6 * ONE);
    // -1.5 * 0.5 = -0.75 exactly.
    assert_eq!(fx_mul(-98304, HALF), -49152);
    // Tiny products truncate toward zero from both sides.
    assert_eq!(fx_mul(3, 3), 0);
    assert_eq!(fx_mul(-3, 3), 0);
    assert_eq!(fx_mul(FX_MAX, FX_MAX), FX_MAX);
}

#[test]
fn div_rescales_and_divides_by_zero_to_zero() {
    assert_eq!(fx_div(ONE, 2 * ONE), HALF);
    assert_eq!(fx_div(ONE, 16384), 4 * ONE);
    assert_eq!(fx_div(-ONE, 2 * ONE), -HALF);
    assert_eq!(fx_div(123, 0), 0);
}

#[test]
fn sqrt_exact_squares_and_rounding() {
    assert_eq!(fx_sqrt(0), 0);
    assert_eq!(fx_sqrt(4 * ONE), 2 * ONE);
    assert_eq!(fx_sqrt(ONE), ONE);
    // sqrt(2) rounds down to 92681/65536.
    assert_eq!(fx_sqrt(2 * ONE), 92681);
    assert_eq!(fx_sqrt(FX_MAX), 268435456);
}

#[test]
fn clamp_picks_the_nearer_bound() {
    assert_eq!(fx_clamp(5, 0, 10), 5);
    assert_eq!(fx_clamp(-5, 0, 10), 0);
    assert_eq!(fx_clamp(15, 0, 10), 10);
}

#[test]
fn vector_constructors() {
    assert_eq!(vec2(3, 4), Vector2 { x: 3, y: 4 });
    assert_eq!(vec2_from_single(9), Vector2 { x: 9, y: 9 });
    assert_eq!(Vector2::new(1, 2), Vector2 { x: 1, y: 2 });
}

#[test]
fn componentwise_arithmetic() {
    let a = vec2(2 * ONE, -ONE);
    let b = vec2(ONE, 3 * ONE);
    assert_eq!(v_add(a, b), vec2(3 * ONE, 2 * ONE));
    assert_eq!(v_sub(a, b), vec2(ONE, -4 * ONE));
    assert_eq!(v_scale(a, HALF), vec2(ONE, -HALF));
    assert_eq!(v_hadamard(a, b), vec2(2 * ONE, -3 * ONE));
}

#[test]
fn dot_and_length_squared() {
    assert_eq!(dot(vec2(ONE, 0), vec2(0, ONE)), 0);
    assert_eq!(dot(vec2(2 * ONE, 3 * ONE), vec2(ONE, ONE)), 5 * ONE);
    assert_eq!(length_squared(vec2(3 * ONE, 4 * ONE)), 25 * ONE);
    let v = vec2(3 * ONE, 4 * ONE);
    assert_eq!(v.length_squared(), 25 * ONE);
}

#[test]
fn reflect_flips_the_normal_component() {
    // Reflecting off a horizontal surface flips y and keeps x.
    assert_eq!(
        reflect(vec2(3 * ONE, -2 * ONE), vec2(0, ONE)),
        vec2(3 * ONE, 2 * ONE)
    );
}

#[test]
fn project_onto_an_axis() {
    assert_eq!(project(vec2(3 * ONE, 4 * ONE), vec2(ONE, 0)), vec2(3 * ONE, 0));
    // Projection onto a degenerate vector falls back to zero.
    assert_eq!(project(vec2(3 * ONE, 4 * ONE), vec2(0, 0)), vec2(0, 0));
}

#[test]
fn rotation_by_a_quarter_turn() {
    let quarter = Rotation { cos: 0, sin: ONE };
    assert_eq!(rotate_vector(vec2(ONE, 0), quarter), vec2(0, ONE));
    assert_eq!(rotate_vector(vec2(0, ONE), quarter), vec2(-ONE, 0));
    let origin = vec2(ONE, ONE);
    assert_eq!(rotate_point_around(vec2(2 * ONE, ONE), origin, quarter), vec2(ONE, 2 * ONE));
}

#[test]
fn rotation_identity_and_negation() {
    let id = Rotation::identity();
    assert_eq!(rotate_vector(vec2(123, -456), id), vec2(123, -456));
    let quarter = Rotation { cos: 0, sin: ONE };
    let back = quarter.neg();
    assert_eq!(rotate_vector(rotate_vector(vec2(ONE, 0), quarter), back), vec2(ONE, 0));
}
