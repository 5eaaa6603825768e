//! One simulated particle and the bounds under which a tick is exact.
use vstd::prelude::*;
use crate::vec3::{V3, Vec3};
use crate::{CHARGE_CAP, COORD_CAP, MAX_BODIES, VEL_CAP};

verus! {

/// Ghost model of a body: every physical attribute as an unbounded integer.
pub ghost struct BodyModel {
    pub mass: int,
    pub charge: int,
    pub radius: int,
    pub position: V3,
    pub velocity: V3,
    pub acceleration: V3,
}

/// One simulated particle.  `mass` is strictly positive and `radius`
/// non-negative; both are kept so by [`crate::store::BodyStore::spawn`].
#[derive(Clone, Copy, Debug, PartialEq, Eq, Structural)]
pub struct Body {
    pub mass: i64,
    pub charge: i64,
    pub radius: i64,
    pub position: Vec3,
    pub velocity: Vec3,
    pub acceleration: Vec3,
}

impl View for Body {
    type V = BodyModel;

    open spec fn view(&self) -> BodyModel {
        BodyModel {
            mass: self.mass as int,
            charge: self.charge as int,
            radius: self.radius as int,
            position: self.position@,
            velocity: self.velocity@,
            acceleration: self.acceleration@,
        }
    }
}

pub open spec fn v3_in_range(v: V3, cap: int) -> bool {
    &&& -cap <= v.x <= cap
    &&& -cap <= v.y <= cap
    &&& -cap <= v.z <= cap
}

/// A body the force evaluator can process without overflow: valid mass and
/// radius, and coordinates, charge and velocity within the machine caps.
pub open spec fn body_bounded(b: BodyModel) -> bool {
    &&& 1 <= b.mass <= i64::MAX
    &&& -(CHARGE_CAP as int) <= b.charge <= CHARGE_CAP as int
    &&& 0 <= b.radius <= COORD_CAP as int
    &&& v3_in_range(b.position, COORD_CAP as int)
    &&& v3_in_range(b.velocity, VEL_CAP as int)
}

/// A whole store the tick pipeline can process without overflow.
pub open spec fn store_bounded(s: Seq<BodyModel>) -> bool {
    &&& s.len() <= MAX_BODIES
    &&& forall|i: int| 0 <= i < s.len() ==> body_bounded(#[trigger] s[i])
}

/// `b` with its acceleration replaced.
pub open spec fn with_accel(b: BodyModel, a: V3) -> BodyModel {
    BodyModel {
        mass: b.mass,
        charge: b.charge,
        radius: b.radius,
        position: b.position,
        velocity: b.velocity,
        acceleration: a,
    }
}

/// `b` with its velocity replaced.
pub open spec fn with_velocity(b: BodyModel, v: V3) -> BodyModel {
    BodyModel {
        mass: b.mass,
        charge: b.charge,
        radius: b.radius,
        position: b.position,
        velocity: v,
        acceleration: b.acceleration,
    }
}

/// `b` with its position replaced.
pub open spec fn with_position(b: BodyModel, p: V3) -> BodyModel {
    BodyModel {
        mass: b.mass,
        charge: b.charge,
        radius: b.radius,
        position: p,
        velocity: b.velocity,
        acceleration: b.acceleration,
    }
}

/// `b` with its position and velocity replaced.
pub open spec fn with_motion(b: BodyModel, p: V3, v: V3) -> BodyModel {
    BodyModel {
        mass: b.mass,
        charge: b.charge,
        radius: b.radius,
        position: p,
        velocity: v,
        acceleration: b.acceleration,
    }
}

/// Two models that agree on everything but the acceleration.
pub open spec fn same_except_accel(a: BodyModel, b: BodyModel) -> bool {
    &&& a.mass == b.mass
    &&& a.charge == b.charge
    &&& a.radius == b.radius
    &&& a.position == b.position
    &&& a.velocity == b.velocity
}

} // verus!
