//! The library's laws: properties of the physics pipeline that hold for
//! every input, stated over the same models the stage contracts use.
use vstd::prelude::*;
use crate::body::BodyModel;
use crate::forces::{
    accel_contrib, accel_sum, dist_sq, forces_model, pair_excluded, raw_force, separation,
    total_accel,
};
use crate::math::{div_q, lemma_div_q_bound, lemma_div_q_exact, lemma_div_q_neg, lemma_div_q_sign};
use crate::motion::{damp_coord, damp_model, integrate_model};
use crate::vec3::{v3_add, v3_neg, v3_norm_sq, v3_zero, V3};
use crate::wrap::{wrap_coord, wrap_model};
use crate::SCALE;

verus! {

/// The squared distance of a pair does not depend on the order of its
/// bodies, so neither does the proximity gate.
pub proof fn lemma_exclusion_symmetric(b1: BodyModel, b2: BodyModel)
    ensures
        dist_sq(b1, b2) == dist_sq(b2, b1),
        pair_excluded(b1, b2) == pair_excluded(b2, b1),
{
    let r = separation(b1, b2);
    let t = separation(b2, b1);
    assert(t == v3_neg(r));
    assert(r.x * r.x == (-r.x) * (-r.x) && r.y * r.y == (-r.y) * (-r.y) && r.z * r.z == (-r.z) * (
    -r.z)) by (nonlinear_arith);
}

/// Newton's third law: for a non-excluded pair evaluated once, the raw
/// forces on the two bodies (before mass scaling) have equal magnitude and
/// exactly opposite directions.
pub proof fn lemma_force_symmetry(b1: BodyModel, b2: BodyModel, k: int)
    requires
        !pair_excluded(b1, b2),
    ensures
        !pair_excluded(b2, b1),
        raw_force(b2, b1, k) == v3_neg(raw_force(b1, b2, k)),
{
    lemma_exclusion_symmetric(b1, b2);
    let r = separation(b1, b2);
    let l = crate::math::sqrt_floor(dist_sq(b1, b2));
    let den = l * l * l;
    let c1 = k * b1.charge * b2.charge * (SCALE as int) * (SCALE as int);
    let c2 = k * b2.charge * b1.charge * (SCALE as int) * (SCALE as int);
    assert(k * b1.charge * b2.charge * (SCALE as int) * (SCALE as int) == k * b2.charge
        * b1.charge * (SCALE as int) * (SCALE as int)) by (nonlinear_arith);
    assert(separation(b2, b1) == v3_neg(r));
    assert(den >= 1) by {
        assert(r.x * r.x >= 0 && r.y * r.y >= 0 && r.z * r.z >= 0) by (nonlinear_arith);
        crate::math::lemma_sqrt_floor_bounds(dist_sq(b1, b2));
        assert(l >= 1) by (nonlinear_arith)
            requires
                l >= 0,
                dist_sq(b1, b2) >= 1,
                dist_sq(b1, b2) < (l + 1) * (l + 1),
        ;
        assert(l * l * l >= 1) by (nonlinear_arith)
            requires
                l >= 1,
        ;
    }
    assert(c2 * (-r.x) == -(c1 * r.x) && c2 * (-r.y) == -(c1 * r.y) && c2 * (-r.z) == -(c1
        * r.z)) by (nonlinear_arith)
        requires
            c1 == c2,
    ;
    lemma_div_q_neg(c1 * r.x, den);
    lemma_div_q_neg(c1 * r.y, den);
    lemma_div_q_neg(c1 * r.z, den);
}

/// A store with zero or one bodies accumulates no force at all: every
/// acceleration is zero after a force-evaluator pass.
pub proof fn lemma_zero_pair_noop(s: Seq<BodyModel>, k: int)
    requires
        s.len() <= 1,
    ensures
        forall|i: int|
            0 <= i < s.len() ==> (#[trigger] forces_model(s, k)[i]).acceleration == v3_zero(),
{
    if s.len() == 1 {
        assert(accel_sum(s, k, 0, 0) == v3_zero());
        assert(accel_sum(s, k, 0, 1) == accel_sum(s, k, 0, 0));
        assert(forces_model(s, k)[0].acceleration == total_accel(s, k, 0));
    }
}

/// The proximity gate is effective: an excluded pair (coincident bodies,
/// or center distance below the radius sum) contributes zero acceleration
/// to both of its bodies.
pub proof fn lemma_exclusion_no_force(b1: BodyModel, b2: BodyModel, k: int)
    requires
        pair_excluded(b1, b2),
    ensures
        accel_contrib(b1, b2, k) == v3_zero(),
        accel_contrib(b2, b1, k) == v3_zero(),
{
    lemma_exclusion_symmetric(b1, b2);
}

/// One axis of the sign convention: with a non-negative coefficient both
/// the force quotient and its mass-scaled quotient point along `rx`, with
/// a non-positive coefficient against it.
proof fn lemma_axis_sign(c: int, rx: int, den: int, m: int)
    requires
        den >= 1,
        m >= 1,
    ensures
        c >= 0 ==> div_q(c * rx, den) * rx >= 0,
        c >= 0 ==> div_q(div_q(c * rx, den) * (SCALE as int), m) * rx >= 0,
        c <= 0 ==> div_q(c * rx, den) * rx <= 0,
{
    let f = div_q(c * rx, den);
    let a = div_q(f * (SCALE as int), m);
    lemma_div_q_sign(c * rx, den);
    lemma_div_q_sign(f * (SCALE as int), m);
    if rx >= 0 {
        assert(c >= 0 ==> c * rx >= 0) by (nonlinear_arith)
            requires
                rx >= 0,
        ;
        assert(c <= 0 ==> c * rx <= 0) by (nonlinear_arith)
            requires
                rx >= 0,
        ;
        assert(f >= 0 ==> f * (SCALE as int) >= 0) by (nonlinear_arith)
            requires
                (SCALE as int) >= 1,
        ;
        assert(f <= 0 ==> f * (SCALE as int) <= 0) by (nonlinear_arith)
            requires
                (SCALE as int) >= 1,
        ;
        assert(f >= 0 ==> f * rx >= 0) by (nonlinear_arith)
            requires
                rx >= 0,
        ;
        assert(f <= 0 ==> f * rx <= 0) by (nonlinear_arith)
            requires
                rx >= 0,
        ;
        assert(a >= 0 ==> a * rx >= 0) by (nonlinear_arith)
            requires
                rx >= 0,
        ;
    } else {
        assert(c >= 0 ==> c * rx <= 0) by (nonlinear_arith)
            requires
                rx < 0,
        ;
        assert(c <= 0 ==> c * rx >= 0) by (nonlinear_arith)
            requires
                rx < 0,
        ;
        assert(f >= 0 ==> f * (SCALE as int) >= 0) by (nonlinear_arith)
            requires
                (SCALE as int) >= 1,
        ;
        assert(f <= 0 ==> f * (SCALE as int) <= 0) by (nonlinear_arith)
            requires
                (SCALE as int) >= 1,
        ;
        assert(f <= 0 ==> f * rx >= 0) by (nonlinear_arith)
            requires
                rx < 0,
        ;
        assert(f >= 0 ==> f * rx <= 0) by (nonlinear_arith)
            requires
                rx < 0,
        ;
        assert(a <= 0 ==> a * rx >= 0) by (nonlinear_arith)
            requires
                rx < 0,
        ;
    }
}

/// The sign convention.  For a non-excluded pair with `k * q1 * q2 >= 0`
/// (same-sign charges under a positive force constant) the force on `b1`
/// and its mass-scaled acceleration point along the separation from `b2`
/// to `b1`: repulsion.  With `k * q1 * q2 <= 0` the force points against
/// it: attraction.  Truncation can round a tiny force to zero, so the
/// statement is a sign, not a strict motion.
pub proof fn lemma_sign_convention(b1: BodyModel, b2: BodyModel, k: int)
    requires
        !pair_excluded(b1, b2),
        b1.mass >= 1,
    ensures
        k * b1.charge * b2.charge >= 0 ==> {
            &&& raw_force(b1, b2, k).x * separation(b1, b2).x >= 0
            &&& raw_force(b1, b2, k).y * separation(b1, b2).y >= 0
            &&& raw_force(b1, b2, k).z * separation(b1, b2).z >= 0
            &&& accel_contrib(b1, b2, k).x * separation(b1, b2).x >= 0
            &&& accel_contrib(b1, b2, k).y * separation(b1, b2).y >= 0
            &&& accel_contrib(b1, b2, k).z * separation(b1, b2).z >= 0
        },
        k * b1.charge * b2.charge <= 0 ==> {
            &&& raw_force(b1, b2, k).x * separation(b1, b2).x <= 0
            &&& raw_force(b1, b2, k).y * separation(b1, b2).y <= 0
            &&& raw_force(b1, b2, k).z * separation(b1, b2).z <= 0
        },
{
    let r = separation(b1, b2);
    let n = dist_sq(b1, b2);
    let l = crate::math::sqrt_floor(n);
    let den = l * l * l;
    assert(den >= 1) by {
        assert(r.x * r.x >= 0 && r.y * r.y >= 0 && r.z * r.z >= 0) by (nonlinear_arith);
        crate::math::lemma_sqrt_floor_bounds(n);
        assert(l >= 1) by (nonlinear_arith)
            requires
                l >= 0,
                n >= 1,
                n < (l + 1) * (l + 1),
        ;
        assert(l * l * l >= 1) by (nonlinear_arith)
            requires
                l >= 1,
        ;
    }
    let kq = k * b1.charge * b2.charge;
    let c = kq * (SCALE as int) * (SCALE as int);
    assert(k * b1.charge * b2.charge >= 0 ==> k * b1.charge * b2.charge * (SCALE as int) * (
    SCALE as int) >= 0) by (nonlinear_arith)
        requires
            (SCALE as int) >= 1,
    ;
    assert(k * b1.charge * b2.charge <= 0 ==> k * b1.charge * b2.charge * (SCALE as int) * (
    SCALE as int) <= 0) by (nonlinear_arith)
        requires
            (SCALE as int) >= 1,
    ;
    lemma_axis_sign(c, r.x, den, b1.mass);
    lemma_axis_sign(c, r.y, den, b1.mass);
    lemma_axis_sign(c, r.z, den, b1.mass);
}

/// The integration order: the position moves by the freshly updated
/// velocity (which already includes this tick's acceleration), never by
/// the pre-tick velocity.
pub proof fn lemma_integration_order(s: Seq<BodyModel>)
    ensures
        forall|i: int|
            0 <= i < s.len() ==> (#[trigger] integrate_model(s)[i]).velocity == v3_add(
                s[i].velocity,
                s[i].acceleration,
            ),
        forall|i: int|
            0 <= i < s.len() ==> (#[trigger] integrate_model(s)[i]).position == v3_add(
                s[i].position,
                integrate_model(s)[i].velocity,
            ),
{
}

/// One axis of wrap idempotence: a wrapped coordinate is inside the
/// radius-widened bounds, so wrapping it again changes nothing.
proof fn lemma_wrap_coord_idempotent(x: int, half: int, r: int)
    requires
        half >= 0,
        r >= 0,
    ensures
        wrap_coord(wrap_coord(x, half, r), half, r) == wrap_coord(x, half, r),
{
}

/// Wrap idempotence: re-wrapping a store already wrapped against the same
/// extent is a no-op.
pub proof fn lemma_wrap_idempotent(s: Seq<BodyModel>, w: int, h: int)
    requires
        w >= 1,
        h >= 1,
        forall|i: int| 0 <= i < s.len() ==> (#[trigger] s[i]).radius >= 0,
    ensures
        wrap_model(wrap_model(s, w, h), w, h) == wrap_model(s, w, h),
{
    let once = wrap_model(s, w, h);
    assert forall|i: int| 0 <= i < s.len() implies #[trigger] wrap_model(once, w, h)[i]
        == once[i] by {
        lemma_wrap_coord_idempotent(s[i].position.x, w / 2, s[i].radius);
        lemma_wrap_coord_idempotent(s[i].position.y, h / 2, s[i].radius);
    }
    assert(wrap_model(once, w, h) =~= once);
}

/// A damping coefficient of one (fixed-point: `SCALE`) disables damping.
pub proof fn lemma_damping_disabled(s: Seq<BodyModel>)
    ensures
        damp_model(s, SCALE as int) == s,
{
    assert forall|i: int| 0 <= i < s.len() implies #[trigger] damp_model(s, SCALE as int)[i]
        == s[i] by {
        lemma_div_q_exact(s[i].velocity.x, SCALE as int);
        lemma_div_q_exact(s[i].velocity.y, SCALE as int);
        lemma_div_q_exact(s[i].velocity.z, SCALE as int);
    }
    assert(damp_model(s, SCALE as int) =~= s);
}

/// The damping bound, exact case: when `SCALE` divides each product
/// `velocity * c` (witnessed by `mx, my, mz`), damping scales the velocity
/// exactly by `c / SCALE`, so the squared magnitude scales exactly by
/// `(c / SCALE)^2`.
pub proof fn lemma_damping_exact(v: V3, c: int, mx: int, my: int, mz: int)
    requires
        1 <= c <= SCALE as int,
        v.x * c == mx * (SCALE as int),
        v.y * c == my * (SCALE as int),
        v.z * c == mz * (SCALE as int),
    ensures
        damp_coord(v.x, c) == mx,
        damp_coord(v.y, c) == my,
        damp_coord(v.z, c) == mz,
        v3_norm_sq(V3 { x: mx, y: my, z: mz }) * (SCALE as int) * (SCALE as int) == v3_norm_sq(v)
            * c * c,
{
    lemma_div_q_exact(mx, SCALE as int);
    lemma_div_q_exact(my, SCALE as int);
    lemma_div_q_exact(mz, SCALE as int);
    assert((mx * mx + my * my + mz * mz) * (SCALE as int) * (SCALE as int) == (v.x * v.x + v.y
        * v.y + v.z * v.z) * c * c) by (nonlinear_arith)
        requires
            v.x * c == mx * (SCALE as int),
            v.y * c == my * (SCALE as int),
            v.z * c == mz * (SCALE as int),
    ;
}

/// The damping bound, general case: with a coefficient in `(0, 1]`,
/// damping never increases a velocity component's magnitude.
pub proof fn lemma_damping_shrinks(v: V3, c: int)
    requires
        1 <= c <= SCALE as int,
    ensures
        -abs_int(v.x) <= damp_coord(v.x, c) <= abs_int(v.x),
        -abs_int(v.y) <= damp_coord(v.y, c) <= abs_int(v.y),
        -abs_int(v.z) <= damp_coord(v.z, c) <= abs_int(v.z),
{
    lemma_damp_component_shrinks(v.x, c);
    lemma_damp_component_shrinks(v.y, c);
    lemma_damp_component_shrinks(v.z, c);
}

/// The magnitude of an integer.
pub open spec fn abs_int(a: int) -> int {
    if a >= 0 {
        a
    } else {
        -a
    }
}

/// One axis of the damping bound.
proof fn lemma_damp_component_shrinks(vx: int, c: int)
    requires
        1 <= c <= SCALE as int,
    ensures
        -abs_int(vx) <= damp_coord(vx, c) <= abs_int(vx),
{
    let a = abs_int(vx);
    assert(-(a * (SCALE as int)) <= vx * c <= a * (SCALE as int)) by (nonlinear_arith)
        requires
            1 <= c <= SCALE as int,
            -a <= vx <= a,
            a >= 0,
    ;
    lemma_div_q_bound(vx * c, SCALE as int, a);
}

} // verus!
