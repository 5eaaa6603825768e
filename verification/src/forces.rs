//! The force evaluator: pairwise inverse-square force accumulation.
//!
//! For every unordered pair of distinct bodies, the evaluator computes an
//! equal-and-opposite force along the pair's separation and adds each half,
//! scaled by the receiving body's own mass, to that body's acceleration.
//! Accelerations are recomputed from scratch on every pass.
use vstd::prelude::*;
use crate::body::{
    body_bounded, same_except_accel, store_bounded, v3_in_range, with_accel, Body, BodyModel,
};
use crate::math::{
    div_q, div_trunc, isqrt, lemma_div_q_bound, lemma_mul_bound, lemma_sqrt_floor_bounds,
    lemma_square_bound, sq, sqrt_floor,
};
use crate::store::BodyStore;
use crate::vec3::{v3_add, v3_zero, Vec3, V3};
use crate::{CHARGE_CAP, CONTRIB_CAP, COORD_CAP, COULOMB_CAP, FORCE_CAP, MAX_BODIES, SCALE};

verus! {

/// Separation vector from `b2` to `b1` (the direction along which a
/// repulsive force pushes `b1`).
pub open spec fn separation(b1: BodyModel, b2: BodyModel) -> V3 {
    V3 {
        x: b1.position.x - b2.position.x,
        y: b1.position.y - b2.position.y,
        z: b1.position.z - b2.position.z,
    }
}

/// Squared center distance of a pair.
pub open spec fn dist_sq(b1: BodyModel, b2: BodyModel) -> int {
    let r = separation(b1, b2);
    r.x * r.x + r.y * r.y + r.z * r.z
}

/// The proximity gate: a pair is excluded when the bodies are coincident
/// or their center distance is below the sum of their radii.  An excluded
/// pair exchanges no force at all.
pub open spec fn pair_excluded(b1: BodyModel, b2: BodyModel) -> bool {
    dist_sq(b1, b2) == 0 || dist_sq(b1, b2) < sq(b1.radius + b2.radius)
}

/// Raw force on `b1` from `b2`, before mass scaling: the inverse-square
/// law `k * q1 * q2 / d^2` directed along the separation, in fixed-point
/// arithmetic (`sqrt_floor` distance, truncating division).
pub open spec fn raw_force(b1: BodyModel, b2: BodyModel, k: int) -> V3
    recommends
        !pair_excluded(b1, b2),
{
    let r = separation(b1, b2);
    let l = sqrt_floor(dist_sq(b1, b2));
    let den = l * l * l;
    let c = k * b1.charge * b2.charge * (SCALE as int) * (SCALE as int);
    V3 { x: div_q(c * r.x, den), y: div_q(c * r.y, den), z: div_q(c * r.z, den) }
}

/// Acceleration that one pair evaluation adds to `b1`: the raw force on
/// `b1` from `b2` divided by `b1`'s own mass, or zero for an excluded pair.
pub open spec fn accel_contrib(b1: BodyModel, b2: BodyModel, k: int) -> V3 {
    if pair_excluded(b1, b2) {
        v3_zero()
    } else {
        let f = raw_force(b1, b2, k);
        V3 {
            x: div_q(f.x * (SCALE as int), b1.mass),
            y: div_q(f.y * (SCALE as int), b1.mass),
            z: div_q(f.z * (SCALE as int), b1.mass),
        }
    }
}

/// Acceleration of body `a` accumulated from all partners with index
/// below `m`.
pub open spec fn accel_sum(s: Seq<BodyModel>, k: int, a: int, m: int) -> V3
    decreases m,
{
    if m <= 0 {
        v3_zero()
    } else if m - 1 == a {
        accel_sum(s, k, a, m - 1)
    } else {
        v3_add(accel_sum(s, k, a, m - 1), accel_contrib(s[a], s[m - 1], k))
    }
}

/// Acceleration of body `a` after a full pass: contributions from every
/// other body, summed.
pub open spec fn total_accel(s: Seq<BodyModel>, k: int, a: int) -> V3 {
    accel_sum(s, k, a, s.len() as int)
}

/// The whole force-evaluator pass as a function on the store model:
/// every acceleration replaced by its freshly accumulated value.
pub open spec fn forces_model(s: Seq<BodyModel>, k: int) -> Seq<BodyModel> {
    Seq::new(s.len(), |i: int| with_accel(s[i], total_accel(s, k, i)))
}

/// For a non-excluded pair of bounded bodies, each separation component is
/// bounded by the truncated center distance.
proof fn lemma_sep_le_dist(b1: BodyModel, b2: BodyModel)
    requires
        !pair_excluded(b1, b2),
        body_bounded(b1),
        body_bounded(b2),
    ensures
        sqrt_floor(dist_sq(b1, b2)) >= 1,
        v3_in_range(separation(b1, b2), sqrt_floor(dist_sq(b1, b2))),
{
    let r = separation(b1, b2);
    let n = dist_sq(b1, b2);
    assert(r.x * r.x >= 0 && r.y * r.y >= 0 && r.z * r.z >= 0) by (nonlinear_arith);
    assert(n >= 1);
    lemma_sqrt_floor_bounds(n);
    let l = sqrt_floor(n);
    assert(n < (l + 1) * (l + 1));
    assert(l >= 1) by (nonlinear_arith)
        requires
            l >= 0,
            n >= 1,
            n < (l + 1) * (l + 1),
    ;
    assert(-l <= r.x <= l) by (nonlinear_arith)
        requires
            r.x * r.x <= n,
            n < sq(l + 1),
            l >= 0,
    ;
    assert(-l <= r.y <= l) by (nonlinear_arith)
        requires
            r.y * r.y <= n,
            n < sq(l + 1),
            l >= 0,
    ;
    assert(-l <= r.z <= l) by (nonlinear_arith)
        requires
            r.z * r.z <= n,
            n < sq(l + 1),
            l >= 0,
    ;
}

/// One pair contribution is bounded: the raw force by [`FORCE_CAP`], the
/// mass-scaled acceleration by [`CONTRIB_CAP`].
pub proof fn lemma_contrib_bound(b1: BodyModel, b2: BodyModel, k: int)
    requires
        body_bounded(b1),
        body_bounded(b2),
        -(COULOMB_CAP as int) <= k <= COULOMB_CAP as int,
    ensures
        !pair_excluded(b1, b2) ==> v3_in_range(raw_force(b1, b2, k), FORCE_CAP as int),
        v3_in_range(accel_contrib(b1, b2, k), CONTRIB_CAP as int),
{
    if pair_excluded(b1, b2) {
        return ;
    }
    lemma_sep_le_dist(b1, b2);
    let r = separation(b1, b2);
    let n = dist_sq(b1, b2);
    let l = sqrt_floor(n);
    let den = l * l * l;
    assert(l <= l * l * l && l * l * l >= 1) by (nonlinear_arith)
        requires
            l >= 1,
    ;
    let kq = k * b1.charge;
    let kqq = kq * b2.charge;
    let kqqs = kqq * (SCALE as int);
    let c = kqqs * (SCALE as int);
    lemma_mul_bound(k, b1.charge, COULOMB_CAP as int, CHARGE_CAP as int);
    lemma_mul_bound(kq, b2.charge, (COULOMB_CAP as int) * (CHARGE_CAP as int), CHARGE_CAP as int);
    lemma_mul_bound(
        kqq,
        SCALE as int,
        (COULOMB_CAP as int) * (CHARGE_CAP as int) * (CHARGE_CAP as int),
        SCALE as int,
    );
    lemma_mul_bound(
        kqqs,
        SCALE as int,
        (COULOMB_CAP as int) * (CHARGE_CAP as int) * (CHARGE_CAP as int) * (SCALE as int),
        SCALE as int,
    );
    assert(-(FORCE_CAP as int) <= c <= FORCE_CAP as int);
    let f = raw_force(b1, b2, k);
    lemma_force_component_bound(c, r.x, l, den);
    lemma_force_component_bound(c, r.y, l, den);
    lemma_force_component_bound(c, r.z, l, den);
    lemma_scaled_component_bound(f.x, b1.mass);
    lemma_scaled_component_bound(f.y, b1.mass);
    lemma_scaled_component_bound(f.z, b1.mass);
}

/// One axis of the raw-force bound: `|c| <= FORCE_CAP` and `|rx| <= l`
/// give `|c * rx / l^3| <= FORCE_CAP`.
proof fn lemma_force_component_bound(c: int, rx: int, l: int, den: int)
    requires
        l >= 1,
        den == l * l * l,
        -(FORCE_CAP as int) <= c <= FORCE_CAP as int,
        -l <= rx <= l,
    ensures
        -(FORCE_CAP as int) <= div_q(c * rx, den) <= FORCE_CAP as int,
{
    assert(den >= l) by (nonlinear_arith)
        requires
            l >= 1,
            den == l * l * l,
    ;
    lemma_mul_bound(c, rx, FORCE_CAP as int, l);
    assert((FORCE_CAP as int) * l <= (FORCE_CAP as int) * den) by (nonlinear_arith)
        requires
            l <= den,
    ;
    lemma_div_q_bound(c * rx, den, FORCE_CAP as int);
}

/// One axis of the acceleration bound: dividing a bounded force half by a
/// mass of at least one keeps it within [`CONTRIB_CAP`].
proof fn lemma_scaled_component_bound(fx: int, mass: int)
    requires
        mass >= 1,
        -(FORCE_CAP as int) <= fx <= FORCE_CAP as int,
    ensures
        -(CONTRIB_CAP as int) <= div_q(fx * (SCALE as int), mass) <= CONTRIB_CAP as int,
{
    lemma_mul_bound(fx, SCALE as int, FORCE_CAP as int, SCALE as int);
    assert(CONTRIB_CAP as int <= (CONTRIB_CAP as int) * mass) by (nonlinear_arith)
        requires
            mass >= 1,
    ;
    lemma_div_q_bound(fx * (SCALE as int), mass, CONTRIB_CAP as int);
}

/// Evaluates one directed pair: the acceleration that this evaluation adds
/// to `b1` on account of `b2`, exactly as [`accel_contrib`] states it.
fn pair_accel(b1: &Body, b2: &Body, coulomb: i64) -> (r: Vec3)
    requires
        body_bounded(b1@),
        body_bounded(b2@),
        -COULOMB_CAP <= coulomb <= COULOMB_CAP,
    ensures
        r@ == accel_contrib(b1@, b2@, coulomb as int),
        v3_in_range(r@, CONTRIB_CAP as int),
{
    proof {
        lemma_contrib_bound(b1@, b2@, coulomb as int);
    }
    let dx: i128 = b1.position.x - b2.position.x;
    let dy: i128 = b1.position.y - b2.position.y;
    let dz: i128 = b1.position.z - b2.position.z;
    proof {
        lemma_square_bound(dx as int, 2 * (COORD_CAP as int));
        lemma_square_bound(dy as int, 2 * (COORD_CAP as int));
        lemma_square_bound(dz as int, 2 * (COORD_CAP as int));
    }
    let n2: i128 = dx * dx + dy * dy + dz * dz;
    let sum_r: i128 = (b1.radius as i128) + (b2.radius as i128);
    proof {
        lemma_square_bound(sum_r as int, 2 * (COORD_CAP as int));
    }
    if n2 == 0 || n2 < sum_r * sum_r {
        return Vec3::zero();
    }
    let l: u128 = isqrt(n2 as u128);
    proof {
        lemma_sqrt_floor_bounds(n2 as int);
        assert(l >= 1) by (nonlinear_arith)
            requires
                l >= 0,
                n2 as int >= 1,
                (n2 as int) < (l as int + 1) * (l as int + 1),
        ;
        assert((l as int) < 4_000_000_000_000) by (nonlinear_arith)
            requires
                (l as int) * (l as int) <= n2 as int,
                n2 as int <= 12_000_000_000_000_000_000_000_000,
                l >= 0,
        ;
        assert((l as int) * (l as int) * (l as int)
            <= 64_000_000_000_000_000_000_000_000_000_000_000_000) by (nonlinear_arith)
            requires
                0 <= (l as int) < 4_000_000_000_000,
        ;
        assert((l as int) * (l as int) * (l as int) >= 1) by (nonlinear_arith)
            requires
                l >= 1,
        ;
    }
    let den: u128 = l * l * l;
    proof {
        lemma_mul_bound(coulomb as int, b1@.charge, COULOMB_CAP as int, CHARGE_CAP as int);
        lemma_mul_bound(
            (coulomb as int) * b1@.charge,
            b2@.charge,
            (COULOMB_CAP as int) * (CHARGE_CAP as int),
            CHARGE_CAP as int,
        );
    }
    let kqq: i128 = (coulomb as i128) * (b1.charge as i128) * (b2.charge as i128);
    proof {
        lemma_mul_bound(
            kqq as int,
            SCALE as int,
            (COULOMB_CAP as int) * (CHARGE_CAP as int) * (CHARGE_CAP as int),
            SCALE as int,
        );
    }
    let kqqs: i128 = kqq * (SCALE as i128);
    proof {
        lemma_mul_bound(
            kqqs as int,
            SCALE as int,
            (COULOMB_CAP as int) * (CHARGE_CAP as int) * (CHARGE_CAP as int) * (SCALE as int),
            SCALE as int,
        );
    }
    let c: i128 = kqqs * (SCALE as i128);
    proof {
        assert(-FORCE_CAP <= c <= FORCE_CAP);
        lemma_mul_bound(c as int, dx as int, FORCE_CAP as int, 2 * (COORD_CAP as int));
        lemma_mul_bound(c as int, dy as int, FORCE_CAP as int, 2 * (COORD_CAP as int));
        lemma_mul_bound(c as int, dz as int, FORCE_CAP as int, 2 * (COORD_CAP as int));
    }
    let fx: i128 = div_trunc(c * dx, den);
    let fy: i128 = div_trunc(c * dy, den);
    let fz: i128 = div_trunc(c * dz, den);
    proof {
        assert(!pair_excluded(b1@, b2@));
        assert(fx as int == raw_force(b1@, b2@, coulomb as int).x);
        assert(fy as int == raw_force(b1@, b2@, coulomb as int).y);
        assert(fz as int == raw_force(b1@, b2@, coulomb as int).z);
    }
    let ax: i128 = div_trunc(fx * (SCALE as i128), b1.mass as u128);
    let ay: i128 = div_trunc(fy * (SCALE as i128), b1.mass as u128);
    let az: i128 = div_trunc(fz * (SCALE as i128), b1.mass as u128);
    Vec3 { x: ax, y: ay, z: az }
}

/// A partial accumulation over `m` partners is bounded by `m` full
/// contributions.
pub proof fn lemma_accel_sum_bound(s: Seq<BodyModel>, k: int, a: int, m: int)
    requires
        store_bounded(s),
        -(COULOMB_CAP as int) <= k <= COULOMB_CAP as int,
        0 <= a < s.len(),
        0 <= m <= s.len(),
    ensures
        v3_in_range(accel_sum(s, k, a, m), m * (CONTRIB_CAP as int)),
    decreases m,
{
    if m > 0 {
        lemma_accel_sum_bound(s, k, a, m - 1);
        if m - 1 != a {
            lemma_contrib_bound(s[a], s[m - 1], k);
        }
    }
}

/// A pair contribution reads only position, charge, mass and radius:
/// bodies that agree on everything but acceleration contribute alike.
proof fn lemma_contrib_ignores_accel(
    a1: BodyModel,
    b1: BodyModel,
    a2: BodyModel,
    b2: BodyModel,
    k: int,
)
    requires
        same_except_accel(a1, a2),
        same_except_accel(b1, b2),
    ensures
        accel_contrib(a1, b1, k) == accel_contrib(a2, b2, k),
{
    assert(separation(a1, b1) == separation(a2, b2));
}

/// Runs one full force-evaluator pass: zeroes every acceleration, then
/// evaluates every unordered pair exactly once, adding equal-and-opposite
/// mass-scaled contributions to both bodies.
pub fn evaluate_forces(store: &mut BodyStore, coulomb: i64)
    requires
        store_bounded(old(store)@),
        -COULOMB_CAP <= coulomb <= COULOMB_CAP,
    ensures
        final(store)@ == forces_model(old(store)@, coulomb as int),
{
    let ghost s0: Seq<BodyModel> = store@;
    let ghost k: int = coulomb as int;
    let n: usize = store.bodies.len();
    let mut i: usize = 0;
    while i < n
        invariant
            n == store.bodies.len(),
            n == s0.len(),
            i <= n,
            forall|a: int| 0 <= a < n ==> same_except_accel(#[trigger] store@[a], s0[a]),
            forall|a: int| 0 <= a < i ==> (#[trigger] store@[a]).acceleration == v3_zero(),
            forall|a: int| i <= a < n ==> #[trigger] store@[a] == s0[a],
        decreases n - i,
    {
        let ghost pre: Seq<BodyModel> = store@;
        let mut b = store.bodies[i];
        proof {
            assert(b@ == pre[i as int]);
        }
        b.acceleration = Vec3::zero();
        store.bodies[i] = b;
        proof {
            assert(store@[i as int] == b@);
            assert(forall|a: int|
                0 <= a < n && a != i ==> #[trigger] store@[a] == pre[a]);
        }
        i = i + 1;
    }
    let mut outer: usize = 0;
    while outer < n
        invariant
            n == store.bodies.len(),
            n == s0.len(),
            outer <= n,
            store_bounded(s0),
            -COULOMB_CAP <= coulomb <= COULOMB_CAP,
            k == coulomb as int,
            forall|a: int| 0 <= a < n ==> same_except_accel(#[trigger] store@[a], s0[a]),
            forall|a: int|
                0 <= a < outer ==> (#[trigger] store@[a]).acceleration == accel_sum(
                    s0,
                    k,
                    a,
                    n as int,
                ),
            forall|a: int|
                outer <= a < n ==> (#[trigger] store@[a]).acceleration == accel_sum(
                    s0,
                    k,
                    a,
                    outer as int,
                ),
        decreases n - outer,
    {
        let mut inner: usize = outer + 1;
        while inner < n
            invariant
                n == store.bodies.len(),
                n == s0.len(),
                outer < inner <= n,
                outer < n,
                store_bounded(s0),
                -COULOMB_CAP <= coulomb <= COULOMB_CAP,
                k == coulomb as int,
                forall|a: int| 0 <= a < n ==> same_except_accel(#[trigger] store@[a], s0[a]),
                forall|a: int|
                    0 <= a < outer ==> (#[trigger] store@[a]).acceleration == accel_sum(
                        s0,
                        k,
                        a,
                        n as int,
                    ),
                store@[outer as int].acceleration == accel_sum(s0, k, outer as int, inner as int),
                forall|a: int|
                    outer < a < inner && a < n ==> (#[trigger] store@[a]).acceleration
                        == accel_sum(s0, k, a, outer as int + 1),
                forall|a: int|
                    inner <= a < n ==> (#[trigger] store@[a]).acceleration == accel_sum(
                        s0,
                        k,
                        a,
                        outer as int,
                    ),
            decreases n - inner,
        {
            let ghost pre: Seq<BodyModel> = store@;
            let bi = store.bodies[outer];
            let bj = store.bodies[inner];
            proof {
                assert(bi@ == pre[outer as int]);
                assert(bj@ == pre[inner as int]);
                assert(same_except_accel(pre[outer as int], s0[outer as int]));
                assert(same_except_accel(pre[inner as int], s0[inner as int]));
                assert(body_bounded(bi@));
                assert(body_bounded(bj@));
            }
            let ci = pair_accel(&bi, &bj, coulomb);
            let cj = pair_accel(&bj, &bi, coulomb);
            proof {
                lemma_contrib_ignores_accel(bi@, bj@, s0[outer as int], s0[inner as int], k);
                lemma_contrib_ignores_accel(bj@, bi@, s0[inner as int], s0[outer as int], k);
                lemma_accel_sum_bound(s0, k, outer as int, inner as int);
                lemma_accel_sum_bound(s0, k, inner as int, outer as int);
                assert((inner as int) * (CONTRIB_CAP as int) <= (MAX_BODIES as int) * (
                CONTRIB_CAP as int)) by (nonlinear_arith)
                    requires
                        inner as int <= MAX_BODIES as int,
                        (CONTRIB_CAP as int) > 0,
                ;
                assert((outer as int) * (CONTRIB_CAP as int) <= (MAX_BODIES as int) * (
                CONTRIB_CAP as int)) by (nonlinear_arith)
                    requires
                        outer as int <= MAX_BODIES as int,
                        (CONTRIB_CAP as int) > 0,
                ;
            }
            let mut bi2 = bi;
            bi2.acceleration = Vec3 {
                x: bi.acceleration.x + ci.x,
                y: bi.acceleration.y + ci.y,
                z: bi.acceleration.z + ci.z,
            };
            let mut bj2 = bj;
            bj2.acceleration = Vec3 {
                x: bj.acceleration.x + cj.x,
                y: bj.acceleration.y + cj.y,
                z: bj.acceleration.z + cj.z,
            };
            store.bodies[outer] = bi2;
            store.bodies[inner] = bj2;
            proof {
                assert(store@[outer as int] == bi2@);
                assert(store@[inner as int] == bj2@);
                assert(forall|a: int|
                    0 <= a < n && a != outer && a != inner ==> #[trigger] store@[a] == pre[a]);
                assert(accel_sum(s0, k, outer as int, inner as int + 1) == v3_add(
                    accel_sum(s0, k, outer as int, inner as int),
                    accel_contrib(s0[outer as int], s0[inner as int], k),
                ));
                assert(accel_sum(s0, k, inner as int, outer as int + 1) == v3_add(
                    accel_sum(s0, k, inner as int, outer as int),
                    accel_contrib(s0[inner as int], s0[outer as int], k),
                ));
                assert(bi2@.acceleration == accel_sum(s0, k, outer as int, inner as int + 1));
                assert(bj2@.acceleration == accel_sum(s0, k, inner as int, outer as int + 1));
            }
            inner = inner + 1;
        }
        outer = outer + 1;
    }
    proof {
        assert(store@ =~= forces_model(s0, k));
    }
}

} // verus!
