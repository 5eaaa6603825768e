//! A charged-particle simulation core.
//!
//! A population of charged, massive disc bodies interacts through an
//! inverse-square force law, integrates motion over discrete ticks, and
//! wraps around a bounded toroidal world.  All quantities are fixed-point
//! integers: a stored value `v` stands for the real quantity `v / SCALE`.
use vstd::prelude::*;

pub mod body;
pub mod forces;
pub mod laws;
pub mod math;
pub mod motion;
pub mod sim;
pub mod store;
pub mod vec3;
pub mod wrap;

verus! {

/// Fixed-point scale: a stored value `v` stands for the real quantity
/// `v / SCALE`.
pub const SCALE: i64 = 1000;

/// Largest magnitude of a position coordinate or radius (in fixed-point
/// units) that the force evaluator accepts.
pub const COORD_CAP: i128 = 1_000_000_000_000;

/// Largest charge magnitude the force evaluator accepts.
pub const CHARGE_CAP: i64 = 10_000;

/// Largest magnitude of the Coulomb-like force constant (fixed-point).
pub const COULOMB_CAP: i64 = 1_000_000_000;

/// Largest velocity-component magnitude a tick accepts on entry.
pub const VEL_CAP: i128 = 10_000_000_000_000_000_000_000_000_000_000_000;

/// Largest velocity-component magnitude the damping stage accepts
/// (what one integration step can make of [`VEL_CAP`] and [`ACCEL_CAP`]).
pub const DAMP_VEL_CAP: i128 = 100_000_000_000_000_000_000_000_000_000_000_000;

/// Largest number of bodies a tick accepts.
pub const MAX_BODIES: usize = 1_000_000;

/// Largest magnitude of one pair's raw force component:
/// `COULOMB_CAP * CHARGE_CAP^2 * SCALE^2`.
pub const FORCE_CAP: i128 = 100_000_000_000_000_000_000_000;

/// Largest magnitude of one pair's acceleration contribution:
/// `COULOMB_CAP * CHARGE_CAP^2 * SCALE^3`.
pub const CONTRIB_CAP: i128 = 100_000_000_000_000_000_000_000_000;

/// Largest acceleration-component magnitude after a full force pass:
/// `MAX_BODIES * CONTRIB_CAP`.
pub const ACCEL_CAP: i128 = 100_000_000_000_000_000_000_000_000_000_000;

} // verus!
