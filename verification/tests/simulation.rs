//! End-to-end tests of the simulation driver and its stages, on concrete
//! fixed-point values (scale 1000: a stored 1000 is 1.0 real).
use particle_sim::motion::apply_damping;
use particle_sim::sim::{ConfigError, SimConfig, Simulation};
use particle_sim::store::{BodyStore, SpawnError};
use particle_sim::vec3::Vec3;
use particle_sim::wrap::{wrap_positions, ExtentError, WorldExtent};
use particle_sim::SCALE;

fn vec3(x: i128, y: i128, z: i128) -> Vec3 {
    Vec3 { x, y, z }
}

fn zero() -> Vec3 {
    vec3(0, 0, 0)
}

/// A simulation with no damping (coefficient 1.0) and a large extent.
fn sim_no_damping(coulomb: i64) -> Simulation {
    let config = SimConfig::new(coulomb, SCALE).unwrap();
    let extent = WorldExtent::new(10_000_000, 10_000_000).unwrap();
    Simulation::new(config, extent)
}

#[test]
fn two_equal_charges_accelerate_apart() {
    // Masses 1.0, charges +1 and +1, radii 0, at (-10, 0, 0) and
    // (10, 0, 0), Coulomb constant 50, no damping: one tick gives both
    // bodies outward accelerations and velocities of magnitude
    // 50 * 1 * 1 / 20^2 = 0.125 (fixed-point 125).
    let mut sim = sim_no_damping(50_000);
    sim.spawn(vec3(-10_000, 0, 0), 1000, 1, 0, zero(), zero()).unwrap();
    sim.spawn(vec3(10_000, 0, 0), 1000, 1, 0, zero(), zero()).unwrap();
    sim.advance_tick();
    let b0 = sim.store.body(0);
    let b1 = sim.store.body(1);
    assert_eq!(b0.acceleration, vec3(-125, 0, 0));
    assert_eq!(b1.acceleration, vec3(125, 0, 0));
    assert_eq!(b0.velocity, vec3(-125, 0, 0));
    assert_eq!(b1.velocity, vec3(125, 0, 0));
    // Integration order: the position moved by the fresh velocity, not by
    // the zero pre-tick velocity.
    assert_eq!(b0.position, vec3(-10_125, 0, 0));
    assert_eq!(b1.position, vec3(10_125, 0, 0));
}

#[test]
fn same_sign_repel_opposite_sign_attract() {
    // Same-sign pair ends the tick farther apart.
    let mut rep = sim_no_damping(50_000);
    rep.spawn(vec3(-10_000, 0, 0), 1000, 1, 0, zero(), zero()).unwrap();
    rep.spawn(vec3(10_000, 0, 0), 1000, 1, 0, zero(), zero()).unwrap();
    rep.advance_tick();
    let gap_after = rep.store.body(1).position.x - rep.store.body(0).position.x;
    assert!(gap_after > 20_000);

    // Opposite-sign pair ends the tick closer together.
    let mut att = sim_no_damping(50_000);
    att.spawn(vec3(-10_000, 0, 0), 1000, 1, 0, zero(), zero()).unwrap();
    att.spawn(vec3(10_000, 0, 0), 1000, -1, 0, zero(), zero()).unwrap();
    att.advance_tick();
    let gap_after = att.store.body(1).position.x - att.store.body(0).position.x;
    assert!(gap_after < 20_000);
}

#[test]
fn momentum_symmetry_with_unequal_masses() {
    // The raw force halves are equal and opposite; each body scales its
    // half by its own mass.  Mass 1.0 gets 0.125; mass 2.0 gets
    // 0.0625, truncated to 0.062 in fixed point.
    let mut sim = sim_no_damping(50_000);
    sim.spawn(vec3(-10_000, 0, 0), 1000, 1, 0, zero(), zero()).unwrap();
    sim.spawn(vec3(10_000, 0, 0), 2000, 1, 0, zero(), zero()).unwrap();
    sim.advance_tick();
    assert_eq!(sim.store.body(0).acceleration, vec3(-125, 0, 0));
    assert_eq!(sim.store.body(1).acceleration, vec3(62, 0, 0));
}

#[test]
fn empty_store_tick_is_noop() {
    let mut sim = sim_no_damping(50_000);
    sim.advance_tick();
    assert_eq!(sim.len(), 0);
}

#[test]
fn single_body_gets_no_force() {
    let mut sim = sim_no_damping(50_000);
    sim.spawn(vec3(5_000, -3_000, 0), 1000, 7, 0, zero(), zero()).unwrap();
    sim.advance_tick();
    let b = sim.store.body(0);
    assert_eq!(b.acceleration, zero());
    assert_eq!(b.velocity, zero());
    assert_eq!(b.position, vec3(5_000, -3_000, 0));
}

#[test]
fn coincident_bodies_exchange_no_force() {
    let mut sim = sim_no_damping(50_000);
    sim.spawn(vec3(4_000, 4_000, 0), 1000, 5, 0, zero(), zero()).unwrap();
    sim.spawn(vec3(4_000, 4_000, 0), 1000, 5, 0, zero(), zero()).unwrap();
    sim.advance_tick();
    assert_eq!(sim.store.body(0).acceleration, zero());
    assert_eq!(sim.store.body(1).acceleration, zero());
}

#[test]
fn overlapping_discs_exchange_no_force() {
    // Center distance 20 is below the radius sum 15 + 10 = 25: excluded.
    let mut sim = sim_no_damping(50_000);
    sim.spawn(vec3(-10_000, 0, 0), 1000, 1, 15_000, zero(), zero()).unwrap();
    sim.spawn(vec3(10_000, 0, 0), 1000, 1, 10_000, zero(), zero()).unwrap();
    sim.advance_tick();
    assert_eq!(sim.store.body(0).acceleration, zero());
    assert_eq!(sim.store.body(1).acceleration, zero());
}

#[test]
fn touching_discs_do_exchange_force() {
    // Center distance 25 equals the radius sum: the exclusion test is
    // strict, so a force is still applied here.
    let mut sim = sim_no_damping(50_000);
    sim.spawn(vec3(-12_500, 0, 0), 1000, 1, 15_000, zero(), zero()).unwrap();
    sim.spawn(vec3(12_500, 0, 0), 1000, 1, 10_000, zero(), zero()).unwrap();
    sim.advance_tick();
    assert!(sim.store.body(0).acceleration.x < 0);
    assert!(sim.store.body(1).acceleration.x > 0);
}

#[test]
fn wrap_moves_body_to_opposite_edge_once() {
    // Extent 200: a chargeless body exactly at +extent/2 = 100 moving by
    // 5 per tick wraps to the opposite edge in one tick, and later ticks
    // do not wrap it again while it stays inside bounds.
    let config = SimConfig::new(50_000, SCALE).unwrap();
    let extent = WorldExtent::new(200_000, 200_000).unwrap();
    let mut sim = Simulation::new(config, extent);
    sim.spawn(vec3(100_000, 0, 0), 1000, 0, 0, vec3(5_000, 0, 0), zero()).unwrap();
    sim.advance_tick();
    assert_eq!(sim.position(0), vec3(-100_000, 0, 0));
    sim.advance_tick();
    assert_eq!(sim.position(0), vec3(-95_000, 0, 0));
}

#[test]
fn wrap_is_radius_aware() {
    // A disc of radius 10 at x = 115 > 100 + 10 re-enters at
    // -(100 + 10) = -110 so that it does not clip at the boundary.
    let config = SimConfig::new(50_000, SCALE).unwrap();
    let extent = WorldExtent::new(200_000, 200_000).unwrap();
    let mut sim = Simulation::new(config, extent);
    sim.spawn(vec3(115_000, 0, 0), 1000, 0, 10_000, zero(), zero()).unwrap();
    sim.advance_tick();
    assert_eq!(sim.position(0), vec3(-110_000, 0, 0));
}

#[test]
fn rewrapping_a_wrapped_store_is_noop() {
    let mut store = BodyStore::new();
    store.spawn(vec3(317_000, -544_000, 0), 1000, 0, 2_500, zero(), zero()).unwrap();
    store.spawn(vec3(-9_000, 61_000, 0), 1000, 0, 0, zero(), zero()).unwrap();
    let extent = WorldExtent::new(100_000, 80_000).unwrap();
    wrap_positions(&mut store, &extent);
    let once: Vec<Vec3> = vec![store.position(0), store.position(1)];
    wrap_positions(&mut store, &extent);
    assert_eq!(store.position(0), once[0]);
    assert_eq!(store.position(1), once[1]);
    // One wrap, not repeated wrapping, even for a far overshoot.
    assert_eq!(once[0], vec3(-52_500, 42_500, 0));
}

#[test]
fn damping_scales_velocity_exactly() {
    let mut store = BodyStore::new();
    store.spawn(zero(), 1000, 0, 0, vec3(1_000, -2_000, 500), zero()).unwrap();
    // Coefficient 0.1: every component scales to exactly a tenth.
    apply_damping(&mut store, 100);
    assert_eq!(store.velocity(0), vec3(100, -200, 50));
}

#[test]
fn damping_truncates_toward_zero() {
    let mut store = BodyStore::new();
    store.spawn(zero(), 1000, 0, 0, vec3(999, -999, 0), zero()).unwrap();
    apply_damping(&mut store, 100);
    // 99.9 truncates to 99, -99.9 truncates to -99.
    assert_eq!(store.velocity(0), vec3(99, -99, 0));
}

#[test]
fn damping_coefficient_one_is_identity() {
    let mut store = BodyStore::new();
    store.spawn(zero(), 1000, 0, 0, vec3(123, 456, -789), zero()).unwrap();
    apply_damping(&mut store, SCALE);
    assert_eq!(store.velocity(0), vec3(123, 456, -789));
}

#[test]
fn damped_tick_scales_fresh_velocity() {
    // With damping 0.1 the scenario's fresh velocity 0.125 is damped to
    // 0.0125 (fixed-point 12, truncated) before the next tick.
    let config = SimConfig::new(50_000, 100).unwrap();
    let extent = WorldExtent::new(10_000_000, 10_000_000).unwrap();
    let mut sim = Simulation::new(config, extent);
    sim.spawn(vec3(-10_000, 0, 0), 1000, 1, 0, zero(), zero()).unwrap();
    sim.spawn(vec3(10_000, 0, 0), 1000, 1, 0, zero(), zero()).unwrap();
    sim.advance_tick();
    assert_eq!(sim.store.body(0).velocity, vec3(-12, 0, 0));
    // The position still moved by the undamped fresh velocity: damping
    // comes after integration.
    assert_eq!(sim.store.body(0).position, vec3(-10_125, 0, 0));
}

#[test]
fn spawn_rejects_nonpositive_mass() {
    let mut sim = sim_no_damping(50_000);
    let r = sim.spawn(zero(), 0, 1, 0, zero(), zero());
    assert_eq!(r, Err(SpawnError::NonPositiveMass));
    let r = sim.spawn(zero(), -5, 1, 0, zero(), zero());
    assert_eq!(r, Err(SpawnError::NonPositiveMass));
    assert_eq!(sim.len(), 0);
}

#[test]
fn spawn_rejects_negative_radius() {
    let mut sim = sim_no_damping(50_000);
    let r = sim.spawn(zero(), 1000, 1, -1, zero(), zero());
    assert_eq!(r, Err(SpawnError::NegativeRadius));
    assert_eq!(sim.len(), 0);
}

#[test]
fn spawn_returns_stable_indices() {
    let mut sim = sim_no_damping(50_000);
    assert_eq!(sim.spawn(vec3(1, 2, 0), 1000, 1, 0, zero(), zero()), Ok(0));
    assert_eq!(sim.spawn(vec3(3, 4, 0), 1000, -1, 0, zero(), zero()), Ok(1));
    assert_eq!(sim.len(), 2);
    assert_eq!(sim.position(0), vec3(1, 2, 0));
    assert_eq!(sim.position(1), vec3(3, 4, 0));
    assert_eq!(sim.radius(0), 0);
}

#[test]
fn resize_rejects_degenerate_extent() {
    let mut sim = sim_no_damping(50_000);
    assert_eq!(sim.set_world_extent(0, 500), Err(ExtentError::NonPositiveWidth));
    assert_eq!(sim.set_world_extent(500, -3), Err(ExtentError::NonPositiveHeight));
    assert_eq!(sim.extent, WorldExtent { width: 10_000_000, height: 10_000_000 });
    assert_eq!(sim.set_world_extent(500, 400), Ok(()));
    assert_eq!(sim.extent, WorldExtent { width: 500, height: 400 });
}

#[test]
fn config_rejects_out_of_range_coefficients() {
    assert_eq!(SimConfig::new(50_000, 0), Err(ConfigError::FrictionOutOfRange));
    assert_eq!(SimConfig::new(50_000, SCALE + 1), Err(ConfigError::FrictionOutOfRange));
    assert_eq!(
        SimConfig::new(particle_sim::COULOMB_CAP + 1, SCALE),
        Err(ConfigError::CoulombOutOfRange)
    );
    assert!(SimConfig::new(-50_000, 1).is_ok());
}

#[test]
fn resize_applies_before_next_wrap() {
    // Shrinking the world pulls an out-of-bounds body in on the next tick.
    let config = SimConfig::new(50_000, SCALE).unwrap();
    let extent = WorldExtent::new(1_000_000, 1_000_000).unwrap();
    let mut sim = Simulation::new(config, extent);
    sim.spawn(vec3(400_000, 0, 0), 1000, 0, 0, zero(), zero()).unwrap();
    sim.advance_tick();
    assert_eq!(sim.position(0), vec3(400_000, 0, 0));
    sim.set_world_extent(200_000, 200_000).unwrap();
    sim.advance_tick();
    assert_eq!(sim.position(0), vec3(-100_000, 0, 0));
}
