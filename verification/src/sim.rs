//! The simulation driver: owns the tick order, the configuration and the
//! world extent.
//!
//! One tick is the fixed pipeline: force evaluation, integration, damping,
//! boundary wrap.  The driver keeps no other state between ticks.
use vstd::prelude::*;
use crate::body::{body_bounded, store_bounded, v3_in_range, BodyModel};
use crate::forces::{evaluate_forces, forces_model, lemma_accel_sum_bound, total_accel};
use crate::motion::{apply_damping, damp_model, integrate, integrate_model};
use crate::store::{BodyStore, SpawnError};
use crate::vec3::Vec3;
use crate::wrap::{extent_wf, wrap_model, wrap_positions, WorldExtent};
use crate::{ACCEL_CAP, CONTRIB_CAP, COULOMB_CAP, DAMP_VEL_CAP, MAX_BODIES, SCALE, VEL_CAP};

verus! {

/// The tunable force and damping coefficients, fixed-point: `coulomb`
/// stands for `coulomb / SCALE` force units and `friction` for the decay
/// factor `friction / SCALE` in `(0, 1]` (`friction == SCALE` disables
/// damping).
#[derive(Clone, Copy, Debug, PartialEq, Eq, Structural)]
pub struct SimConfig {
    pub coulomb: i64,
    pub friction: i64,
}

/// Why a configuration was rejected.
#[derive(Clone, Copy, Debug, PartialEq, Eq, Structural)]
pub enum ConfigError {
    /// The force constant's magnitude exceeds [`COULOMB_CAP`].
    CoulombOutOfRange,
    /// The damping coefficient must lie in `1..=SCALE`.
    FrictionOutOfRange,
}

/// A usable configuration.
pub open spec fn config_wf(c: SimConfig) -> bool {
    &&& -COULOMB_CAP <= c.coulomb <= COULOMB_CAP
    &&& 1 <= c.friction <= SCALE
}

impl SimConfig {
    /// Builds a configuration, rejecting out-of-range coefficients.
    pub fn new(coulomb: i64, friction: i64) -> (r: Result<SimConfig, ConfigError>)
        ensures
            -COULOMB_CAP <= coulomb <= COULOMB_CAP && 1 <= friction <= SCALE ==> r
                == Ok::<SimConfig, ConfigError>(SimConfig { coulomb, friction }),
            !(-COULOMB_CAP <= coulomb <= COULOMB_CAP) ==> r == Err::<SimConfig, ConfigError>(
                ConfigError::CoulombOutOfRange,
            ),
            (-COULOMB_CAP <= coulomb <= COULOMB_CAP) && !(1 <= friction <= SCALE) ==> r
                == Err::<SimConfig, ConfigError>(ConfigError::FrictionOutOfRange),
    {
        if coulomb < -COULOMB_CAP || coulomb > COULOMB_CAP {
            Err(ConfigError::CoulombOutOfRange)
        } else if friction < 1 || friction > SCALE {
            Err(ConfigError::FrictionOutOfRange)
        } else {
            Ok(SimConfig { coulomb, friction })
        }
    }
}

/// One full tick on the store model, in the fixed stage order.
pub open spec fn tick_model(s: Seq<BodyModel>, k: int, c: int, w: int, h: int) -> Seq<
    BodyModel,
> {
    wrap_model(damp_model(integrate_model(forces_model(s, k)), c), w, h)
}

/// After a force pass over a bounded store, every body keeps its old
/// attributes and carries an acceleration within [`ACCEL_CAP`].
pub proof fn lemma_forces_model_bounded(s: Seq<BodyModel>, k: int)
    requires
        store_bounded(s),
        -(COULOMB_CAP as int) <= k <= COULOMB_CAP as int,
    ensures
        forces_model(s, k).len() == s.len(),
        forall|i: int|
            0 <= i < s.len() ==> v3_in_range(
                (#[trigger] forces_model(s, k)[i]).acceleration,
                ACCEL_CAP as int,
            ),
{
    assert forall|i: int|
        0 <= i < s.len() implies v3_in_range(
        (#[trigger] forces_model(s, k)[i]).acceleration,
        ACCEL_CAP as int,
    ) by {
        lemma_accel_sum_bound(s, k, i, s.len() as int);
        assert((s.len() as int) * (CONTRIB_CAP as int) <= (MAX_BODIES as int) * (
        CONTRIB_CAP as int)) by (nonlinear_arith)
            requires
                s.len() as int <= MAX_BODIES as int,
                (CONTRIB_CAP as int) > 0,
        ;
    }
}

/// The simulation: the body store, the coefficients and the world extent,
/// advanced one tick at a time.
pub struct Simulation {
    pub store: BodyStore,
    pub config: SimConfig,
    pub extent: WorldExtent,
}

/// A driver whose configuration and extent are usable.
pub open spec fn sim_wf(s: Simulation) -> bool {
    config_wf(s.config) && extent_wf(s.extent)
}

impl Simulation {
    /// A simulation with an empty store.
    pub fn new(config: SimConfig, extent: WorldExtent) -> (r: Simulation)
        requires
            config_wf(config),
            extent_wf(extent),
        ensures
            sim_wf(r),
            r.config == config,
            r.extent == extent,
            r.store@ == Seq::<BodyModel>::empty(),
    {
        Simulation { store: BodyStore::new(), config, extent }
    }

    /// Forwards to [`BodyStore::spawn`]: creates a body, rejecting a
    /// non-positive mass or a negative radius.
    pub fn spawn(
        &mut self,
        position: Vec3,
        mass: i64,
        charge: i64,
        radius: i64,
        velocity: Vec3,
        acceleration: Vec3,
    ) -> (r: Result<usize, SpawnError>)
        ensures
            final(self).config == old(self).config,
            final(self).extent == old(self).extent,
            mass >= 1 && radius >= 0 ==> {
                &&& r == Ok::<usize, SpawnError>(old(self).store@.len() as usize)
                &&& final(self).store@ == old(self).store@.push(
                    BodyModel {
                        mass: mass as int,
                        charge: charge as int,
                        radius: radius as int,
                        position: position@,
                        velocity: velocity@,
                        acceleration: acceleration@,
                    },
                )
            },
            mass < 1 ==> r == Err::<usize, SpawnError>(SpawnError::NonPositiveMass)
                && final(self).store@ == old(self).store@,
            mass >= 1 && radius < 0 ==> r == Err::<usize, SpawnError>(SpawnError::NegativeRadius)
                && final(self).store@ == old(self).store@,
    {
        self.store.spawn(position, mass, charge, radius, velocity, acceleration)
    }

    /// Replaces the world extent, rejecting a zero or negative side and
    /// leaving the extent unchanged in that case.
    pub fn set_world_extent(&mut self, width: i64, height: i64) -> (r: Result<
        (),
        crate::wrap::ExtentError,
    >)
        ensures
            final(self).config == old(self).config,
            final(self).store@ == old(self).store@,
            width >= 1 && height >= 1 ==> r == Ok::<(), crate::wrap::ExtentError>(())
                && final(self).extent == (WorldExtent { width, height }),
            !(width >= 1 && height >= 1) ==> r.is_err() && final(self).extent == old(self).extent,
            extent_wf(final(self).extent) || !extent_wf(old(self).extent),
    {
        match WorldExtent::new(width, height) {
            Ok(e) => {
                self.extent = e;
                Ok(())
            },
            Err(err) => Err(err),
        }
    }

    /// Runs one full tick in the fixed order: force evaluation,
    /// integration, damping, boundary wrap.
    pub fn advance_tick(&mut self)
        requires
            sim_wf(*old(self)),
            store_bounded(old(self).store@),
        ensures
            final(self).config == old(self).config,
            final(self).extent == old(self).extent,
            final(self).store@ == tick_model(
                old(self).store@,
                old(self).config.coulomb as int,
                old(self).config.friction as int,
                old(self).extent.width as int,
                old(self).extent.height as int,
            ),
    {
        let ghost s0: Seq<BodyModel> = self.store@;
        let ghost k: int = self.config.coulomb as int;
        proof {
            lemma_forces_model_bounded(s0, k);
        }
        evaluate_forces(&mut self.store, self.config.coulomb);
        proof {
            let s1 = forces_model(s0, k);
            assert forall|i: int| 0 <= i < s1.len() implies {
                &&& v3_in_range((#[trigger] s1[i]).position, crate::COORD_CAP as int)
                &&& v3_in_range(s1[i].velocity, VEL_CAP as int)
                &&& v3_in_range(s1[i].acceleration, ACCEL_CAP as int)
            } by {
                assert(body_bounded(s0[i]));
            }
        }
        integrate(&mut self.store);
        proof {
            let s1 = forces_model(s0, k);
            let s2 = integrate_model(s1);
            assert forall|i: int| 0 <= i < s2.len() implies v3_in_range(
                (#[trigger] s2[i]).velocity,
                DAMP_VEL_CAP as int,
            ) by {
                assert(body_bounded(s0[i]));
                assert(v3_in_range(s1[i].acceleration, ACCEL_CAP as int));
            }
        }
        apply_damping(&mut self.store, self.config.friction);
        let extent = self.extent;
        wrap_positions(&mut self.store, &extent);
    }

    /// The number of bodies.
    pub fn len(&self) -> (r: usize)
        ensures
            r == self.store@.len(),
    {
        self.store.len()
    }

    /// The current position of one body, for drawing.
    pub fn position(&self, index: usize) -> (r: Vec3)
        requires
            index < self.store@.len(),
        ensures
            r@ == self.store@[index as int].position,
    {
        self.store.position(index)
    }

    /// The radius of one body, for drawing.
    pub fn radius(&self, index: usize) -> (r: i64)
        requires
            index < self.store@.len(),
        ensures
            r == self.store@[index as int].radius,
    {
        self.store.radius(index)
    }
}

} // verus!
