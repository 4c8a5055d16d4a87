use fluidpong::fluid::{advance_particle, Fluid, StepParams, EPS};
use fluidpong::particle::Particle;
use fluidpong::vector::Vec2;

const UNIT: i64 = 1_000_000;

#[test]
fn two_particle_density_and_pressure() {
    let mut f = Fluid::new(Vec2::new(3_333_334, 10 * UNIT), 2, 1, 8 * UNIT, 100 * UNIT);
    let ps = f.particles().clone();
    assert_eq!(ps[0].position, Vec2::new(-3 * UNIT, -9 * UNIT));
    assert_eq!(ps[1].position, Vec2::new(0, -9 * UNIT));
    f.compute_density_pressure(1000 * UNIT, UNIT);
    let ps = f.particles().clone();
    let self_only = 100 * 19894;
    for p in ps.iter() {
        assert_eq!(p.density, 3_252_000);
        assert!(p.density > self_only);
        assert_eq!(p.pressure, 2_252_000_000);
        assert_eq!(p.pressure, 1000 * (p.density - UNIT));
    }
}

#[test]
fn pair_pressure_forces_are_opposite() {
    let mut f = Fluid::new(Vec2::new(3_333_334, 10 * UNIT), 2, 1, 8 * UNIT, 100 * UNIT);
    f.compute_density_pressure(1000 * UNIT, UNIT);
    f.compute_forces(0, 0);
    let ps = f.particles().clone();
    assert!(ps[0].force.x < 0);
    assert_eq!(ps[0].force.x, -ps[1].force.x);
    assert_eq!(ps[0].force.y, 0);
}

#[test]
fn isolated_particle_falls_under_gravity() {
    let mut f = Fluid::new(Vec2::new(100 * UNIT, 100 * UNIT), 1, 1, 1_128_379, UNIT);
    let params = StepParams {
        dt: 10_000,
        gas_const: 1000 * UNIT,
        rest_density: UNIT,
        visc_const: 250 * UNIT,
        gravity: 10 * UNIT,
        bound_damping: 500_000,
    };
    f.step(params);
    let p = f.particles()[0];
    assert_eq!(p.velocity.x, 0);
    assert!((p.velocity.y + 100_000).abs() <= 100);
    assert_eq!(p.velocity.y, -100_000);
}

#[test]
fn particle_at_wall_bounces() {
    let wall = Vec2::new(50 * UNIT, 50 * UNIT);
    let mut p = Particle::new(Vec2::new(wall.x, 0), UNIT);
    p.velocity = Vec2::new(5 * UNIT, 0);
    p.density = UNIT;
    let q = advance_particle(p, 10_000, 500_000, wall);
    assert_eq!(q.position.x, wall.x - EPS);
    assert_eq!(q.velocity.x, -2_500_000);
    assert_eq!(q.velocity.y, 0);
}

#[test]
fn corner_clamps_both_axes() {
    let wall = Vec2::new(10 * UNIT, 10 * UNIT);
    let mut p = Particle::new(Vec2::new(-10 * UNIT, 10 * UNIT), UNIT);
    p.velocity = Vec2::new(-4 * UNIT, 2 * UNIT);
    p.density = UNIT;
    let q = advance_particle(p, 10_000, 500_000, wall);
    assert_eq!(q.position, Vec2::new(EPS - wall.x, wall.y - EPS));
    assert_eq!(q.velocity, Vec2::new(2 * UNIT, -UNIT));
}

#[test]
fn particles_stay_inside_walls() {
    let wall = Vec2::new(20 * UNIT, 10 * UNIT);
    let mut f = Fluid::new(wall, 4, 4, 2 * UNIT, UNIT);
    let n = f.particles().len();
    f.set_external_force(Vec2::new(900 * UNIT, -700 * UNIT), &vec![UNIT; n]);
    let params = StepParams {
        dt: 100_000,
        gas_const: 1000 * UNIT,
        rest_density: UNIT,
        visc_const: 250 * UNIT,
        gravity: 10 * UNIT,
        bound_damping: 500_000,
    };
    for _ in 0..5 {
        f.step(params);
        for p in f.particles().iter() {
            assert!(EPS - wall.x <= p.position.x && p.position.x <= wall.x - EPS);
            assert!(EPS - wall.y <= p.position.y && p.position.y <= wall.y - EPS);
        }
    }
}

#[test]
fn lattice_seeding() {
    let f = Fluid::new(Vec2::new(100 * UNIT, 50 * UNIT), 3, 2, 5 * UNIT, UNIT);
    let ps = f.particles();
    assert_eq!(ps.len(), 6);
    assert_eq!(ps[0].position, Vec2::new(-90 * UNIT, -45 * UNIT));
    assert_eq!(ps[1].position, Vec2::new(-90 * UNIT, 0));
    assert_eq!(ps[3].position, Vec2::new(-30_000_001, 0));
    assert_eq!(ps[5].position, Vec2::new(29_999_998, 0));
    assert!(ps.iter().all(|p| p.mass == UNIT && p.velocity == Vec2::new(0, 0)));
    assert_eq!(f.kernel_radius(), 5 * UNIT);
    assert_eq!(f.wall(), Vec2::new(100 * UNIT, 50 * UNIT));
}

#[test]
fn reset_reseeds_lattice() {
    let mut f = Fluid::new(Vec2::new(100 * UNIT, 50 * UNIT), 3, 2, 5 * UNIT, UNIT);
    f.set_external_force(Vec2::new(UNIT, 0), &vec![UNIT; 6]);
    f.step(StepParams { dt: 10_000, gas_const: UNIT, rest_density: UNIT, visc_const: 0, gravity: 10 * UNIT, bound_damping: 500_000 });
    f.reset(7 * UNIT, 2 * UNIT);
    let ps = f.particles();
    assert_eq!(ps.len(), 6);
    assert_eq!(ps[0].position, Vec2::new(-90 * UNIT, -45 * UNIT));
    assert!(ps.iter().all(|p| p.mass == 2 * UNIT && p.velocity == Vec2::new(0, 0) && p.ext_force == Vec2::new(0, 0)));
    assert_eq!(f.kernel_radius(), 7 * UNIT);
}

#[test]
fn external_force_distances_and_scaling() {
    let mut f = Fluid::new(Vec2::new(100 * UNIT, 50 * UNIT), 3, 2, 5 * UNIT, UNIT);
    let d = f.external_force_distances(Vec2::new(-90 * UNIT, -45 * UNIT), 10 * UNIT);
    assert_eq!(d[0], 0);
    assert_eq!(d[1], 35 * UNIT);
    let att = vec![UNIT, 500_000, 0, 250_000, UNIT, UNIT];
    f.set_external_force(Vec2::new(4 * UNIT, -2 * UNIT), &att);
    let ps = f.particles().clone();
    assert_eq!(ps[0].ext_force, Vec2::new(4 * UNIT, -2 * UNIT));
    assert_eq!(ps[1].ext_force, Vec2::new(2 * UNIT, -UNIT));
    assert_eq!(ps[2].ext_force, Vec2::new(0, 0));
    f.add_external_force(Vec2::new(4 * UNIT, -2 * UNIT), &att);
    let ps = f.particles().clone();
    assert_eq!(ps[1].ext_force, Vec2::new(4 * UNIT, -2 * UNIT));
    assert_eq!(ps[3].ext_force, Vec2::new(2 * UNIT, -UNIT));
}

#[test]
fn drag_weights_particle_velocities() {
    let mut f = Fluid::new(Vec2::new(100 * UNIT, 50 * UNIT), 1, 2, 5 * UNIT, UNIT);
    f.step(StepParams { dt: 10_000, gas_const: 0, rest_density: 0, visc_const: 0, gravity: 10 * UNIT, bound_damping: 500_000 });
    let ps = f.particles().clone();
    assert_eq!(ps[0].density, 50_929);
    assert_eq!(ps[0].velocity, Vec2::new(0, -1_963_517));
    assert_eq!(ps[1].velocity, Vec2::new(0, -1_963_517));
    let r = f.get_force_at(Vec2::new(UNIT, 2 * UNIT), &vec![500_000, UNIT]);
    assert_eq!(r, Vec2::new(-UNIT, -4_945_275));
}
