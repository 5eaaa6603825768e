//! The integrator and the damping stage.
//!
//! Integration is explicit Euler in a strict order: velocity is advanced
//! from the acceleration first, and the position then moves by the already
//! updated velocity.  Damping multiplies every velocity by a fixed
//! coefficient in `(0, 1]` (fixed-point: `1..=SCALE`), once per tick.
use vstd::prelude::*;
use crate::body::{with_motion, with_velocity, v3_in_range, BodyModel};
use crate::math::{div_q, div_trunc, lemma_mul_bound};
use crate::store::BodyStore;
use crate::vec3::{v3_add, Vec3, V3};
use crate::{ACCEL_CAP, COORD_CAP, DAMP_VEL_CAP, SCALE, VEL_CAP};

verus! {

/// One body after integration: `velocity += acceleration`, then
/// `position += velocity` with the fresh velocity.
pub open spec fn integrate_body(b: BodyModel) -> BodyModel {
    let v = v3_add(b.velocity, b.acceleration);
    with_motion(b, v3_add(b.position, v), v)
}

/// The integrator pass over the whole store.
pub open spec fn integrate_model(s: Seq<BodyModel>) -> Seq<BodyModel> {
    Seq::new(s.len(), |i: int| integrate_body(s[i]))
}

/// One velocity component after damping: scaled by `c / SCALE` with
/// truncating fixed-point division.
pub open spec fn damp_coord(vx: int, c: int) -> int {
    div_q(vx * c, SCALE as int)
}

/// One body after damping.
pub open spec fn damp_body(b: BodyModel, c: int) -> BodyModel {
    with_velocity(
        b,
        V3 {
            x: damp_coord(b.velocity.x, c),
            y: damp_coord(b.velocity.y, c),
            z: damp_coord(b.velocity.z, c),
        },
    )
}

/// The damping pass over the whole store.
pub open spec fn damp_model(s: Seq<BodyModel>, c: int) -> Seq<BodyModel> {
    Seq::new(s.len(), |i: int| damp_body(s[i], c))
}

/// Advances every body by one integration step, in the fixed order:
/// velocity from acceleration first, then position from the new velocity.
pub fn integrate(store: &mut BodyStore)
    requires
        forall|i: int|
            0 <= i < old(store)@.len() ==> {
                &&& v3_in_range((#[trigger] old(store)@[i]).position, COORD_CAP as int)
                &&& v3_in_range(old(store)@[i].velocity, VEL_CAP as int)
                &&& v3_in_range(old(store)@[i].acceleration, ACCEL_CAP as int)
            },
    ensures
        final(store)@ == integrate_model(old(store)@),
{
    let ghost s0: Seq<BodyModel> = store@;
    let n: usize = store.bodies.len();
    let mut i: usize = 0;
    while i < n
        invariant
            n == store.bodies.len(),
            n == s0.len(),
            i <= n,
            forall|a: int|
                0 <= a < n ==> {
                    &&& v3_in_range((#[trigger] s0[a]).position, COORD_CAP as int)
                    &&& v3_in_range(s0[a].velocity, VEL_CAP as int)
                    &&& v3_in_range(s0[a].acceleration, ACCEL_CAP as int)
                },
            forall|a: int| 0 <= a < i ==> #[trigger] store@[a] == integrate_body(s0[a]),
            forall|a: int| i <= a < n ==> #[trigger] store@[a] == s0[a],
        decreases n - i,
    {
        let ghost pre: Seq<BodyModel> = store@;
        let mut b = store.bodies[i];
        proof {
            assert(b@ == pre[i as int]);
        }
        b.velocity = Vec3 {
            x: b.velocity.x + b.acceleration.x,
            y: b.velocity.y + b.acceleration.y,
            z: b.velocity.z + b.acceleration.z,
        };
        b.position = Vec3 {
            x: b.position.x + b.velocity.x,
            y: b.position.y + b.velocity.y,
            z: b.position.z + b.velocity.z,
        };
        store.bodies[i] = b;
        proof {
            assert(store@[i as int] == b@);
            assert(b@ == integrate_body(s0[i as int]));
            assert(forall|a: int| 0 <= a < n && a != i ==> #[trigger] store@[a] == pre[a]);
        }
        i = i + 1;
    }
}

/// Multiplies every body's velocity by `friction / SCALE`, the uniform
/// per-tick decay that bounds runaway energy growth.
pub fn apply_damping(store: &mut BodyStore, friction: i64)
    requires
        1 <= friction <= SCALE,
        forall|i: int|
            0 <= i < old(store)@.len() ==> v3_in_range(
                (#[trigger] old(store)@[i]).velocity,
                DAMP_VEL_CAP as int,
            ),
    ensures
        final(store)@ == damp_model(old(store)@, friction as int),
{
    let ghost s0: Seq<BodyModel> = store@;
    let ghost c: int = friction as int;
    let n: usize = store.bodies.len();
    let mut i: usize = 0;
    while i < n
        invariant
            n == store.bodies.len(),
            n == s0.len(),
            i <= n,
            1 <= friction <= SCALE,
            c == friction as int,
            forall|a: int|
                0 <= a < n ==> v3_in_range((#[trigger] s0[a]).velocity, DAMP_VEL_CAP as int),
            forall|a: int| 0 <= a < i ==> #[trigger] store@[a] == damp_body(s0[a], c),
            forall|a: int| i <= a < n ==> #[trigger] store@[a] == s0[a],
        decreases n - i,
    {
        let ghost pre: Seq<BodyModel> = store@;
        let mut b = store.bodies[i];
        proof {
            assert(b@ == pre[i as int]);
            lemma_mul_bound(
                b@.velocity.x,
                c,
                DAMP_VEL_CAP as int,
                SCALE as int,
            );
            lemma_mul_bound(
                b@.velocity.y,
                c,
                DAMP_VEL_CAP as int,
                SCALE as int,
            );
            lemma_mul_bound(
                b@.velocity.z,
                c,
                DAMP_VEL_CAP as int,
                SCALE as int,
            );
        }
        b.velocity = Vec3 {
            x: div_trunc(b.velocity.x * (friction as i128), SCALE as u128),
            y: div_trunc(b.velocity.y * (friction as i128), SCALE as u128),
            z: div_trunc(b.velocity.z * (friction as i128), SCALE as u128),
        };
        store.bodies[i] = b;
        proof {
            assert(store@[i as int] == b@);
            assert(b@ == damp_body(s0[i as int], c));
            assert(forall|a: int| 0 <= a < n && a != i ==> #[trigger] store@[a] == pre[a]);
        }
        i = i + 1;
    }
}

} // verus!
