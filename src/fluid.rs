//! The SPH engine: a lattice of particles advanced step by step through a
//! density and pressure pass, a force pass and an integration pass.
//!
//! Each pass reads one generation of particles and writes the next into a
//! separate buffer, so no particle's update sees another's from the same
//! pass.

use vstd::prelude::*;
use crate::fixed::{sqrt_floor, FX_MAX, add_spec, sub_spec, mul_spec, div_spec, tdiv, clamp, fx_add, fx_sub, fx_mul, fx_div, clamp_wide, tdiv_wide};
use crate::vector::Vec2;
use crate::kernel::{Kernel, Poly6Kernel, SpikyKernel, ViscosityKernel, MAX_RADIUS, poly6_value, spiky_gradient, viscosity_value};
use crate::particle::Particle;
use crate::spatial_grid::{SpatialGrid2D, GridModel};

verus! {

/// The skin between a particle and a wall: one unit.
pub const EPS: i64 = 1_000_000;

/// The largest half extent of the domain, in raw units.
pub const MAX_WALL: i64 = 0x1000_0000_0000_0000;

/// A density used as a divisor: never below one raw unit.
pub open spec fn guard(d: int) -> int {
    if d < 1 {
        1
    } else {
        d
    }
}

/// The density kernel's contribution of neighbour `j` at particle `i`.
pub open spec fn density_term(ps: Seq<Particle>, h: int, i: int, j: int) -> int {
    mul_spec(ps[j].mass as int, poly6_value(h, ps[i].position.sub_spec(ps[j].position)))
}

/// `sum_j mass_j * W(p_i - p_j)` over the neighbours `nb`, in order.
pub open spec fn density_sum(ps: Seq<Particle>, h: int, i: int, nb: Seq<usize>) -> int
    decreases nb.len(),
{
    if nb.len() == 0 {
        0
    } else {
        add_spec(density_sum(ps, h, i, nb.drop_last()), density_term(ps, h, i, nb.last() as int))
    }
}

/// Particle `i` after the density and pressure pass: its density summed over
/// the neighbours a query at its position returns, itself included, and its
/// pressure `gas * (density - rest)`.
pub open spec fn with_density(m: GridModel<Particle>, i: int, gas: i64, rest: i64) -> Particle {
    let d = density_sum(m.entries, m.radius, i, m.query_spec(m.entries[i].position));
    Particle {
        density: d as i64,
        pressure: mul_spec(gas as int, sub_spec(d, rest as int)) as i64,
        ..m.entries[i]
    }
}

/// The density and pressure pass over every particle.
pub open spec fn density_pass(m: GridModel<Particle>, gas: i64, rest: i64) -> Seq<Particle> {
    Seq::new(m.entries.len(), |i: int| with_density(m, i, gas, rest))
}

/// `-mass_j * (pressure_i + pressure_j) / 2 / density_j`, the symmetric
/// pressure weight of neighbour `pj` at `pi`.
pub open spec fn pressure_coef(pi: Particle, pj: Particle) -> int {
    div_spec(
        -mul_spec(pj.mass as int, tdiv(add_spec(pi.pressure as int, pj.pressure as int), 2)),
        guard(pj.density as int),
    )
}

/// The pressure force on particle `i` from particle `j`.
pub open spec fn pressure_term(ps: Seq<Particle>, h: int, i: int, j: int) -> Vec2 {
    spiky_gradient(h, ps[i].position.sub_spec(ps[j].position)).scale_spec(pressure_coef(ps[i], ps[j]))
}

/// `visc * mass_j / density_j * laplacian(p_i - p_j)`.
pub open spec fn viscosity_weight(pi: Particle, pj: Particle, h: int, visc: i64) -> int {
    mul_spec(
        div_spec(mul_spec(visc as int, pj.mass as int), guard(pj.density as int)),
        viscosity_value(h, pi.position.sub_spec(pj.position)),
    )
}

/// The viscous force on particle `i` from particle `j`: the velocity
/// difference `v_j - v_i` times its weight.
pub open spec fn viscosity_term(ps: Seq<Particle>, h: int, visc: i64, i: int, j: int) -> Vec2 {
    ps[j].velocity.sub_spec(ps[i].velocity).scale_spec(viscosity_weight(ps[i], ps[j], h, visc))
}

/// The pressure force summed over the neighbours `nb` not at `p_i` itself.
pub open spec fn pressure_sum(ps: Seq<Particle>, h: int, i: int, nb: Seq<usize>) -> Vec2
    decreases nb.len(),
{
    if nb.len() == 0 {
        Vec2 { x: 0, y: 0 }
    } else {
        let prev = pressure_sum(ps, h, i, nb.drop_last());
        let j = nb.last() as int;
        if ps[j].position == ps[i].position {
            prev
        } else {
            prev.add_spec(pressure_term(ps, h, i, j))
        }
    }
}

/// The viscous force summed over the neighbours `nb` not at `p_i` itself.
pub open spec fn viscosity_sum(ps: Seq<Particle>, h: int, visc: i64, i: int, nb: Seq<usize>) -> Vec2
    decreases nb.len(),
{
    if nb.len() == 0 {
        Vec2 { x: 0, y: 0 }
    } else {
        let prev = viscosity_sum(ps, h, visc, i, nb.drop_last());
        let j = nb.last() as int;
        if ps[j].position == ps[i].position {
            prev
        } else {
            prev.add_spec(viscosity_term(ps, h, visc, i, j))
        }
    }
}

/// Gravity on a particle: `(0, -gravity * mass)`.
pub open spec fn gravity_force(p: Particle, gravity: i64) -> Vec2 {
    Vec2 { x: 0, y: -mul_spec(gravity as int, p.mass as int) as i64 }
}

/// Particle `i` after the force pass: pressure, viscosity, gravity and its
/// external force, summed in that order.
pub open spec fn with_force(m: GridModel<Particle>, i: int, visc: i64, gravity: i64) -> Particle {
    let ps = m.entries;
    let nb = m.query_spec(ps[i].position);
    let f = pressure_sum(ps, m.radius, i, nb).add_spec(viscosity_sum(ps, m.radius, visc, i, nb)).add_spec(
        gravity_force(ps[i], gravity),
    ).add_spec(ps[i].ext_force);
    Particle { force: f, ..ps[i] }
}

/// The force pass over every particle.
pub open spec fn force_pass(m: GridModel<Particle>, visc: i64, gravity: i64) -> Seq<Particle> {
    Seq::new(m.entries.len(), |i: int| with_force(m, i, visc, gravity))
}

/// Wall handling on one axis for position `x`, velocity `v` and half extent
/// `w`: a position within `EPS` of either wall, or past it, is set to the wall
/// inset by `EPS` and the velocity becomes `-damping` times itself.
pub open spec fn bounce(x: int, v: int, w: int, damping: int) -> (int, int) {
    let (x1, v1) = if x < EPS - w {
        (EPS - w, -mul_spec(v, damping))
    } else {
        (x, v)
    };
    if x1 > w - EPS {
        (w - EPS, -mul_spec(v1, damping))
    } else {
        (x1, v1)
    }
}

/// Semi-implicit Euler on one particle, then the walls:
/// `v += dt * force / density`, `p += dt * v`.
pub open spec fn integrate_particle(p: Particle, dt: i64, damping: i64, wall: Vec2) -> Particle {
    let g = guard(p.density as int);
    let dv = Vec2 {
        x: div_spec(mul_spec(dt as int, p.force.x as int), g) as i64,
        y: div_spec(mul_spec(dt as int, p.force.y as int), g) as i64,
    };
    let v1 = p.velocity.add_spec(dv);
    let x1 = p.position.add_spec(v1.scale_spec(dt as int));
    let bx = bounce(x1.x as int, v1.x as int, wall.x as int, damping as int);
    let by = bounce(x1.y as int, v1.y as int, wall.y as int, damping as int);
    Particle { position: Vec2 { x: bx.0 as i64, y: by.0 as i64 }, velocity: Vec2 { x: bx.1 as i64, y: by.1 as i64 }, ..p }
}

/// The integration pass over every particle.
pub open spec fn integrate_pass(ps: Seq<Particle>, dt: i64, damping: i64, wall: Vec2) -> Seq<Particle> {
    Seq::new(ps.len(), |i: int| integrate_particle(ps[i], dt, damping, wall))
}

/// Every particle lies inside the walls, `EPS` in from each.
pub open spec fn contained(ps: Seq<Particle>, wall: Vec2) -> bool {
    forall|i: int|
        0 <= i < ps.len() ==> EPS - wall.x <= #[trigger] ps[i].position.x <= wall.x - EPS && EPS - wall.y
            <= ps[i].position.y <= wall.y - EPS
}

/// The parameters of one step.
#[derive(Clone, Copy, Debug)]
pub struct StepParams {
    pub dt: i64,
    pub gas_const: i64,
    pub rest_density: i64,
    pub visc_const: i64,
    pub gravity: i64,
    pub bound_damping: i64,
}

/// The particles after one step from model `m`: density and pressure, then
/// forces, then integration.
pub open spec fn step_spec(m: GridModel<Particle>, wall: Vec2, prm: StepParams) -> Seq<Particle> {
    let m1 = with_entries(m, density_pass(m, prm.gas_const, prm.rest_density));
    let m2 = with_entries(m1, force_pass(m1, prm.visc_const, prm.gravity));
    integrate_pass(m2.entries, prm.dt, prm.bound_damping, wall)
}

/// Coordinate `i` of `n` lattice points along an axis of half extent `w`:
/// `-0.9 w + i * 0.9 * (2 w / n)`.
pub open spec fn lattice_coord(w: int, n: int, i: int) -> int {
    add_spec(-(w * 9 / 10), clamp(i * ((2 * w / n) * 9 / 10)))
}

/// Particle `k` of the `nx × ny` lattice, columns first.
pub open spec fn lattice_particle(wall: Vec2, nx: int, ny: int, mass: i64, k: int) -> Particle {
    Particle::new_spec(
        Vec2 { x: lattice_coord(wall.x as int, nx, k / ny) as i64, y: lattice_coord(wall.y as int, ny, k % ny) as i64 },
        mass,
    )
}

/// The seeded particles of an `nx × ny` lattice.
pub open spec fn lattice(wall: Vec2, nx: int, ny: int, mass: i64) -> Seq<Particle> {
    Seq::new((nx * ny) as nat, |k: int| lattice_particle(wall, nx, ny, mass, k))
}

/// `lattice_coord(w, n, i)`, computed.
fn lattice_coord_exec(w: i64, n: usize, i: usize) -> (r: i64)
    requires
        EPS <= w <= MAX_WALL,
        n > 0,
    ensures
        r == lattice_coord(w as int, n as int, i as int),
{
    let w2: i128 = w as i128;
    let start: i128 = w2 * 9 / 10;
    let step: i128 = (2 * w2 / n as i128) * 9 / 10;
    proof {
        vstd::arithmetic::div_mod::lemma_div_is_ordered_by_denominator(2 * w2, 1, n as int);
        crate::fixed::lemma_mul_abs_bound(i as int, step as int, 0x1_0000_0000_0000_0000, 0x4000_0000_0000_0000);
    }
    fx_add(-(start as i64), clamp_wide(i as i128 * step))
}

/// `max(0, |p - point| - radius)`, with the length rounded down: how far
/// `p` lies outside the disk of `radius` around `point`.
pub open spec fn excess_distance(p: Vec2, point: Vec2, radius: int) -> int {
    let d = sqrt_floor(p.sub_spec(point).len2() as nat) as int;
    clamp(if d > radius { d - radius } else { 0 })
}

/// Each particle with its external force set to `force * attenuation[i]`.
pub open spec fn with_external_force(ps: Seq<Particle>, force: Vec2, attenuation: Seq<i64>) -> Seq<Particle> {
    Seq::new(ps.len(), |i: int| Particle { ext_force: force.scale_spec(attenuation[i] as int), ..ps[i] })
}

/// Each particle with `force * attenuation[i]` added to its external force.
pub open spec fn plus_external_force(ps: Seq<Particle>, force: Vec2, attenuation: Seq<i64>) -> Seq<Particle> {
    Seq::new(
        ps.len(),
        |i: int| Particle { ext_force: ps[i].ext_force.add_spec(force.scale_spec(attenuation[i] as int)), ..ps[i] },
    )
}

/// Equal and opposite pressure forces: between two particles of equal mass
/// and density, the pressure force of `j` on `i` is the negation of that of
/// `i` on `j`, since the kernel gradient is odd and the weight symmetric.
pub proof fn lemma_pressure_pair_antisymmetric(ps: Seq<Particle>, h: int, i: int, j: int)
    requires
        0 < h <= MAX_RADIUS,
        0 <= i < ps.len(),
        0 <= j < ps.len(),
        ps[i].mass == ps[j].mass,
        ps[i].density == ps[j].density,
    ensures
        pressure_term(ps, h, i, j) == pressure_term(ps, h, j, i).neg_spec(),
{
    let r = ps[i].position.sub_spec(ps[j].position);
    crate::vector::lemma_sub_antisymmetric(ps[i].position, ps[j].position);
    crate::kernel::lemma_gradient_antisymmetric(h, r);
    let g = spiky_gradient(h, r);
    let c = pressure_coef(ps[i], ps[j]);
    assert(pressure_coef(ps[j], ps[i]) == c);
    crate::vector::lemma_scale_neg(g, c);
    assert(pressure_term(ps, h, j, i) == g.scale_spec(c).neg_spec());
}

/// Containment: after the integration pass every particle lies inside the
/// walls, `EPS` in from each, whatever the particles, time step and damping.
pub proof fn lemma_integrate_contained(ps: Seq<Particle>, dt: i64, damping: i64, wall: Vec2)
    requires
        EPS <= wall.x <= MAX_WALL,
        EPS <= wall.y <= MAX_WALL,
    ensures
        contained(integrate_pass(ps, dt, damping, wall), wall),
{
}

/// The falloff distance of an external force never decreases as a particle
/// lies farther from the force's point, and, beyond the radius and below
/// saturation, strictly increases.
pub proof fn lemma_excess_monotone(p: Vec2, q: Vec2, point: Vec2, radius: int)
    requires
        radius >= 0,
        sqrt_floor(p.sub_spec(point).len2() as nat) < sqrt_floor(q.sub_spec(point).len2() as nat),
    ensures
        excess_distance(p, point, radius) <= excess_distance(q, point, radius),
        sqrt_floor(q.sub_spec(point).len2() as nat) > radius && sqrt_floor(q.sub_spec(point).len2() as nat) - radius
            <= FX_MAX ==> excess_distance(p, point, radius) < excess_distance(q, point, radius),
        sqrt_floor(p.sub_spec(point).len2() as nat) <= radius ==> excess_distance(p, point, radius) == 0,
{
}

/// `sum velocity_i * weight_i` over the first `n` particles, in order.
pub open spec fn weighted_velocity(ps: Seq<Particle>, weights: Seq<i64>, n: int) -> Vec2
    decreases n,
{
    if n <= 0 {
        Vec2 { x: 0, y: 0 }
    } else {
        weighted_velocity(ps, weights, n - 1).add_spec(ps[n - 1].velocity.scale_spec(weights[n - 1] as int))
    }
}

/// Wall handling on one axis.
fn bounce_exec(x: i64, v: i64, w: i64, damping: i64) -> (r: (i64, i64))
    requires
        EPS <= w <= MAX_WALL,
    ensures
        r.0 == bounce(x as int, v as int, w as int, damping as int).0,
        r.1 == bounce(x as int, v as int, w as int, damping as int).1,
        EPS - w <= r.0 <= w - EPS,
{
    let mut x1 = x;
    let mut v1 = v;
    if x1 < EPS - w {
        x1 = EPS - w;
        v1 = -fx_mul(v1, damping);
    }
    if x1 > w - EPS {
        x1 = w - EPS;
        v1 = -fx_mul(v1, damping);
    }
    (x1, v1)
}

/// Integrates one particle over `dt` and applies the walls of half extents
/// `wall`.
pub fn advance_particle(p: Particle, dt: i64, bound_damping: i64, wall: Vec2) -> (q: Particle)
    requires
        EPS <= wall.x <= MAX_WALL,
        EPS <= wall.y <= MAX_WALL,
    ensures
        q == integrate_particle(p, dt, bound_damping, wall),
        EPS - wall.x <= q.position.x <= wall.x - EPS,
        EPS - wall.y <= q.position.y <= wall.y - EPS,
{
    let g = guarded(p.density);
    let dv = Vec2 { x: fx_div(fx_mul(dt, p.force.x), g), y: fx_div(fx_mul(dt, p.force.y), g) };
    let v1 = p.velocity.add(dv);
    let x1 = p.position.add(v1.scale(dt));
    let bx = bounce_exec(x1.x, v1.x, wall.x, bound_damping);
    let by = bounce_exec(x1.y, v1.y, wall.y, bound_damping);
    Particle { position: Vec2 { x: bx.0, y: by.0 }, velocity: Vec2 { x: bx.1, y: by.1 }, ..p }
}

/// A density as a divisor.
fn guarded(d: i64) -> (r: i64)
    ensures
        r == guard(d as int),
        r >= 1,
{
    if d < 1 {
        1
    } else {
        d
    }
}

/// The model with new entries in the same buckets.
pub open spec fn with_entries(m: GridModel<Particle>, ps: Seq<Particle>) -> GridModel<Particle> {
    GridModel { entries: ps, ..m }
}

/// Replacing the entries by ones at the same positions keeps the buckets fresh.
proof fn lemma_same_positions_fresh(m: GridModel<Particle>, ps: Seq<Particle>)
    requires
        m.fresh(),
        ps.len() == m.entries.len(),
        forall|i: int| 0 <= i < ps.len() ==> #[trigger] ps[i].position == m.entries[i].position,
    ensures
        with_entries(m, ps).fresh(),
{
    assert(with_entries(m, ps).current_keys() =~= m.current_keys());
}

/// The fluid: particles in a spatial index, the three kernels and the walls.
pub struct Fluid {
    particles: SpatialGrid2D<Particle>,
    density_kernel: Kernel,
    pressure_kernel: Kernel,
    viscosity_kernel: Kernel,
    /// Half extents of the domain, which spans `[-wall.x, wall.x] × [-wall.y, wall.y]`.
    wall: Vec2,
    count_x: usize,
    count_y: usize,
}

impl Fluid {
    pub closed spec fn model(&self) -> GridModel<Particle> {
        self.particles@
    }

    pub closed spec fn wall_spec(&self) -> Vec2 {
        self.wall
    }

    /// The particles, by index.
    pub open spec fn particles_spec(&self) -> Seq<Particle> {
        self.model().entries
    }

    pub open spec fn radius_spec(&self) -> int {
        self.model().radius
    }

    pub closed spec fn wf(&self) -> bool {
        &&& self.particles@.wf()
        &&& self.particles@.fresh()
        &&& self.particles@.radius <= MAX_RADIUS
        &&& self.density_kernel == Kernel::Poly6(Poly6Kernel { h: self.particles@.radius as i64 })
        &&& self.pressure_kernel == Kernel::Spiky(SpikyKernel { h: self.particles@.radius as i64 })
        &&& self.viscosity_kernel == Kernel::Viscosity(ViscosityKernel { h: self.particles@.radius as i64 })
        &&& EPS <= self.wall.x <= MAX_WALL
        &&& EPS <= self.wall.y <= MAX_WALL
        &&& self.count_x * self.count_y < usize::MAX - 1
    }

    /// Density at particle `i`, from the current generation.
    fn density_at(&self, i: usize) -> (d: i64)
        requires
            self.wf(),
            i < self.model().entries.len(),
        ensures
            d == density_sum(self.model().entries, self.model().radius, i as int, self.model().query_spec(self.model().entries[i as int].position)),
    {
        let ps = self.particles.iter();
        let pi = ps[i].position;
        let nb = self.particles.query_indices(pi);
        let mut acc: i64 = 0;
        let mut t: usize = 0;
        while t < nb.len()
            invariant
                self.wf(),
                ps@ == self.model().entries,
                pi == ps@[i as int].position,
                i < ps@.len(),
                nb@ == self.model().query_spec(pi),
                forall|u: int| 0 <= u < nb@.len() ==> nb@[u] < ps@.len(),
                0 <= t <= nb@.len(),
                acc == density_sum(ps@, self.model().radius, i as int, nb@.take(t as int)),
            decreases nb@.len() - t,
        {
            let j = nb[t];
            let w = self.density_kernel.evaluate(pi.sub(ps[j].position));
            proof {
                assert(nb@.take(t + 1).drop_last() =~= nb@.take(t as int));
            }
            acc = fx_add(acc, fx_mul(ps[j].mass, w));
            t += 1;
        }
        proof {
            assert(nb@.take(nb@.len() as int) =~= nb@);
        }
        acc
    }

    /// The pressure and viscous forces on particle `i`, from the current generation.
    fn pair_forces_at(&self, i: usize, visc_const: i64) -> (r: (Vec2, Vec2))
        requires
            self.wf(),
            i < self.model().entries.len(),
        ensures
            ({
                let m = self.model();
                let nb = m.query_spec(m.entries[i as int].position);
                r == (pressure_sum(m.entries, m.radius, i as int, nb), viscosity_sum(m.entries, m.radius, visc_const, i as int, nb))
            }),
    {
        let ps = self.particles.iter();
        let pi = ps[i];
        let nb = self.particles.query_indices(pi.position);
        let mut press = Vec2::zero();
        let mut vis = Vec2::zero();
        let mut t: usize = 0;
        while t < nb.len()
            invariant
                self.wf(),
                ps@ == self.model().entries,
                pi == ps@[i as int],
                i < ps@.len(),
                nb@ == self.model().query_spec(pi.position),
                forall|u: int| 0 <= u < nb@.len() ==> nb@[u] < ps@.len(),
                0 <= t <= nb@.len(),
                press == pressure_sum(ps@, self.model().radius, i as int, nb@.take(t as int)),
                vis == viscosity_sum(ps@, self.model().radius, visc_const, i as int, nb@.take(t as int)),
            decreases nb@.len() - t,
        {
            let j = nb[t];
            let pj = ps[j];
            proof {
                assert(nb@.take(t + 1).drop_last() =~= nb@.take(t as int));
            }
            if pj.position != pi.position {
                let r = pi.position.sub(pj.position);
                let sum = clamp_wide(pi.pressure as i128 + pj.pressure as i128);
                let half = tdiv_wide(sum as i128, 2);
                proof {
                    crate::fixed::lemma_tdiv_bound(sum as int, 2);
                }
                let m_half = fx_mul(pj.mass, half as i64);
                let coef = fx_div(-m_half, guarded(pj.density));
                let g = self.pressure_kernel.gradient(r);
                press = press.add(g.scale(coef));
                let lap = self.viscosity_kernel.laplacian(r);
                let w = fx_mul(fx_div(fx_mul(visc_const, pj.mass), guarded(pj.density)), lap);
                vis = vis.add(pj.velocity.sub(pi.velocity).scale(w));
            }
            t += 1;
        }
        proof {
            assert(nb@.take(nb@.len() as int) =~= nb@);
        }
        (press, vis)
    }

    /// The force pass: each particle's force is the sum of the pressure force
    /// and the viscous force from its neighbours, gravity and its external
    /// force, all from the current generation.
    pub fn compute_forces(&mut self, visc_const: i64, gravity: i64)
        requires
            old(self).wf(),
        ensures
            final(self).wf(),
            final(self).model() == with_entries(old(self).model(), force_pass(old(self).model(), visc_const, gravity)),
            final(self).wall_spec() == old(self).wall_spec(),
    {
        let n = self.particles.len();
        let mut next: Vec<Particle> = Vec::new();
        let mut i: usize = 0;
        while i < n
            invariant
                self.wf(),
                n == self.model().entries.len(),
                0 <= i <= n,
                next@ == force_pass(self.model(), visc_const, gravity).take(i as int),
            decreases n - i,
        {
            let (press, vis) = self.pair_forces_at(i, visc_const);
            let p = *&self.particles.iter()[i];
            let grav = Vec2 { x: 0, y: -fx_mul(gravity, p.mass) };
            let f = press.add(vis).add(grav).add(p.ext_force);
            next.push(Particle { force: f, ..p });
            proof {
                assert(next@ =~= force_pass(self.model(), visc_const, gravity).take(i + 1));
            }
            i += 1;
        }
        proof {
            let m = self.model();
            assert(next@ =~= force_pass(m, visc_const, gravity));
            lemma_same_positions_fresh(m, next@);
        }
        self.particles.set_entries(next);
    }

    /// A fluid of `count_x × count_y` particles of mass `particle_mass` at
    /// rest on a regular lattice spanning 90% of the domain
    /// `[-wall.x, wall.x] × [-wall.y, wall.y]`, with kernels of radius
    /// `kernel_radius`.
    pub fn new(wall: Vec2, count_x: usize, count_y: usize, kernel_radius: i64, particle_mass: i64) -> (f: Fluid)
        requires
            1 < kernel_radius <= MAX_RADIUS,
            EPS <= wall.x <= MAX_WALL,
            EPS <= wall.y <= MAX_WALL,
            count_x * count_y < usize::MAX - 1,
        ensures
            f.wf(),
            f.particles_spec() == lattice(wall, count_x as int, count_y as int, particle_mass),
            f.radius_spec() == kernel_radius,
            f.wall_spec() == wall,
    {
        let particles = Fluid::seed(wall, count_x, count_y, kernel_radius, particle_mass);
        Fluid {
            particles,
            density_kernel: Kernel::Poly6(Poly6Kernel::new(kernel_radius)),
            pressure_kernel: Kernel::Spiky(SpikyKernel::new(kernel_radius)),
            viscosity_kernel: Kernel::Viscosity(ViscosityKernel::new(kernel_radius)),
            wall,
            count_x,
            count_y,
        }
    }

    /// Re-seeds the lattice with a new kernel radius and particle mass,
    /// discarding all particle state.
    pub fn reset(&mut self, kernel_radius: i64, particle_mass: i64)
        requires
            old(self).wf(),
            1 < kernel_radius <= MAX_RADIUS,
        ensures
            final(self).wf(),
            final(self).particles_spec() == lattice(
                old(self).wall_spec(),
                old(self).count_x_spec() as int,
                old(self).count_y_spec() as int,
                particle_mass,
            ),
            final(self).radius_spec() == kernel_radius,
            final(self).wall_spec() == old(self).wall_spec(),
    {
        *self = Fluid::new(self.wall, self.count_x, self.count_y, kernel_radius, particle_mass);
    }

    pub closed spec fn count_x_spec(&self) -> usize {
        self.count_x
    }

    pub closed spec fn count_y_spec(&self) -> usize {
        self.count_y
    }

    /// The lattice in a fresh spatial index.
    fn seed(wall: Vec2, count_x: usize, count_y: usize, kernel_radius: i64, particle_mass: i64) -> (g: SpatialGrid2D<Particle>)
        requires
            1 < kernel_radius <= MAX_RADIUS,
            EPS <= wall.x <= MAX_WALL,
            EPS <= wall.y <= MAX_WALL,
            count_x * count_y < usize::MAX - 1,
        ensures
            g@.wf(),
            g@.fresh(),
            g@.radius == kernel_radius,
            g@.entries == lattice(wall, count_x as int, count_y as int, particle_mass),
    {
        let mut g = SpatialGrid2D::new(kernel_radius);
        let total: usize = count_x * count_y;
        let mut k: usize = 0;
        while k < total
            invariant
                g@.wf(),
                g@.fresh(),
                g@.radius == kernel_radius,
                0 <= k <= total,
                total == count_x * count_y,
                total < usize::MAX - 1,
                EPS <= wall.x <= MAX_WALL,
                EPS <= wall.y <= MAX_WALL,
                g@.entries == lattice(wall, count_x as int, count_y as int, particle_mass).take(k as int),
            decreases total - k,
        {
            proof {
                assert(count_x > 0 && count_y > 0) by (nonlinear_arith)
                    requires
                        k < count_x * count_y,
                ;
            }
            let i = k / count_y;
            let j = k % count_y;
            let x = lattice_coord_exec(wall.x, count_x, i);
            let y = lattice_coord_exec(wall.y, count_y, j);
            g.insert(Particle::new(Vec2 { x, y }, particle_mass));
            proof {
                assert(g@.entries =~= lattice(wall, count_x as int, count_y as int, particle_mass).take(k + 1));
            }
            k += 1;
        }
        proof {
            assert(g@.entries =~= lattice(wall, count_x as int, count_y as int, particle_mass));
        }
        g
    }

    /// The particles, for reading.
    pub fn particles(&self) -> (r: &Vec<Particle>)
        ensures
            r@ == self.particles_spec(),
    {
        self.particles.iter()
    }

    /// The support radius of the kernels and the cell size of the index.
    pub fn kernel_radius(&self) -> (r: i64)
        ensures
            r == self.radius_spec(),
    {
        self.particles.radius()
    }

    /// The half extents of the domain.
    pub fn wall(&self) -> (r: Vec2)
        ensures
            r == self.wall_spec(),
    {
        self.wall
    }

    /// For each particle, how far it lies outside the disk of `radius`
    /// around `point`: the distance that an external force's falloff is
    /// taken over.
    pub fn external_force_distances(&self, point: Vec2, radius: i64) -> (r: Vec<i64>)
        requires
            radius >= 0,
        ensures
            r@.len() == self.particles_spec().len(),
            forall|i: int|
                0 <= i < r@.len() ==> r@[i] == excess_distance(#[trigger] self.particles_spec()[i].position, point, radius as int),
    {
        let ps = self.particles.iter();
        let mut out: Vec<i64> = Vec::new();
        let mut i: usize = 0;
        while i < ps.len()
            invariant
                ps@ == self.particles_spec(),
                0 <= i <= ps@.len(),
                radius >= 0,
                out@.len() == i,
                forall|u: int| 0 <= u < i ==> out@[u] == excess_distance(#[trigger] ps@[u].position, point, radius as int),
            decreases ps@.len() - i,
        {
            let d = crate::fixed::isqrt(ps[i].position.sub(point).length_squared());
            proof {
                assert(d * d < 0x1_0000_0000_0000_0000 * 0x1_0000_0000_0000_0000);
                if d > 0x1_0000_0000_0000_0000 {
                    assert(d * d > 0x1_0000_0000_0000_0000 * 0x1_0000_0000_0000_0000) by (nonlinear_arith)
                        requires
                            d > 0x1_0000_0000_0000_0000,
                    ;
                }
            }
            let e: i64 = if d > radius as u128 {
                clamp_wide((d - radius as u128) as i128)
            } else {
                0
            };
            out.push(e);
            i += 1;
        }
        out
    }

    /// The particles' velocities weighted by `weights`, minus `velocity`: the
    /// drag that the fluid exerts on a body moving at `velocity`.
    pub fn get_force_at(&self, velocity: Vec2, weights: &Vec<i64>) -> (r: Vec2)
        requires
            weights@.len() == self.particles_spec().len(),
        ensures
            r == weighted_velocity(self.particles_spec(), weights@, weights@.len() as int).sub_spec(velocity),
    {
        let ps = self.particles.iter();
        let mut f = Vec2::zero();
        let mut i: usize = 0;
        while i < ps.len()
            invariant
                ps@ == self.particles_spec(),
                weights@.len() == ps@.len(),
                0 <= i <= ps@.len(),
                f == weighted_velocity(ps@, weights@, i as int),
            decreases ps@.len() - i,
        {
            f = f.add(ps[i].velocity.scale(weights[i]));
            i += 1;
        }
        f.sub(velocity)
    }

    /// Sets each particle's external force to `force * attenuation[i]`. The
    /// attenuation is a fixed-point factor per particle, normally a smooth
    /// falloff of what `external_force_distances` returns; a caller with no
    /// interaction going on sets a zero force.
    pub fn set_external_force(&mut self, force: Vec2, attenuation: &Vec<i64>)
        requires
            old(self).wf(),
            attenuation@.len() == old(self).particles_spec().len(),
        ensures
            final(self).wf(),
            final(self).model() == with_entries(
                old(self).model(),
                with_external_force(old(self).particles_spec(), force, attenuation@),
            ),
            final(self).wall_spec() == old(self).wall_spec(),
    {
        let n = self.particles.len();
        let mut next: Vec<Particle> = Vec::new();
        let mut i: usize = 0;
        while i < n
            invariant
                self.wf(),
                n == self.particles_spec().len() == attenuation@.len(),
                0 <= i <= n,
                next@ == with_external_force(self.particles_spec(), force, attenuation@).take(i as int),
            decreases n - i,
        {
            let p = *&self.particles.iter()[i];
            next.push(Particle { ext_force: force.scale(attenuation[i]), ..p });
            proof {
                assert(next@ =~= with_external_force(self.particles_spec(), force, attenuation@).take(i + 1));
            }
            i += 1;
        }
        proof {
            let m = self.model();
            assert(next@ =~= with_external_force(m.entries, force, attenuation@));
            lemma_same_positions_fresh(m, next@);
        }
        self.particles.set_entries(next);
    }

    /// Adds `force * attenuation[i]` to each particle's external force.
    pub fn add_external_force(&mut self, force: Vec2, attenuation: &Vec<i64>)
        requires
            old(self).wf(),
            attenuation@.len() == old(self).particles_spec().len(),
        ensures
            final(self).wf(),
            final(self).model() == with_entries(
                old(self).model(),
                plus_external_force(old(self).particles_spec(), force, attenuation@),
            ),
            final(self).wall_spec() == old(self).wall_spec(),
    {
        let n = self.particles.len();
        let mut next: Vec<Particle> = Vec::new();
        let mut i: usize = 0;
        while i < n
            invariant
                self.wf(),
                n == self.particles_spec().len() == attenuation@.len(),
                0 <= i <= n,
                next@ == plus_external_force(self.particles_spec(), force, attenuation@).take(i as int),
            decreases n - i,
        {
            let p = *&self.particles.iter()[i];
            next.push(Particle { ext_force: p.ext_force.add(force.scale(attenuation[i])), ..p });
            proof {
                assert(next@ =~= plus_external_force(self.particles_spec(), force, attenuation@).take(i + 1));
            }
            i += 1;
        }
        proof {
            let m = self.model();
            assert(next@ =~= plus_external_force(m.entries, force, attenuation@));
            lemma_same_positions_fresh(m, next@);
        }
        self.particles.set_entries(next);
    }

    /// The integration pass: semi-implicit Euler, then the walls, then the
    /// spatial index is rebuilt for the new positions.
    pub fn integrate(&mut self, dt: i64, bound_damping: i64)
        requires
            old(self).wf(),
        ensures
            final(self).wf(),
            final(self).particles_spec() == integrate_pass(old(self).particles_spec(), dt, bound_damping, old(self).wall_spec()),
            final(self).radius_spec() == old(self).radius_spec(),
            final(self).wall_spec() == old(self).wall_spec(),
            contained(final(self).particles_spec(), final(self).wall_spec()),
    {
        let n = self.particles.len();
        let mut next: Vec<Particle> = Vec::new();
        let mut i: usize = 0;
        while i < n
            invariant
                self.wf(),
                n == self.model().entries.len(),
                0 <= i <= n,
                next@ == integrate_pass(self.model().entries, dt, bound_damping, self.wall).take(i as int),
                contained(next@, self.wall),
            decreases n - i,
        {
            let p = *&self.particles.iter()[i];
            next.push(advance_particle(p, dt, bound_damping, self.wall));
            proof {
                assert(next@ =~= integrate_pass(self.model().entries, dt, bound_damping, self.wall).take(i + 1));
            }
            i += 1;
        }
        proof {
            assert(next@ =~= integrate_pass(self.model().entries, dt, bound_damping, self.wall));
        }
        self.particles.set_entries(next);
        self.particles.recompute();
    }

    /// Advances the simulation by one step: the density and pressure pass,
    /// the force pass and the integration pass, in that order.
    pub fn step(&mut self, params: StepParams)
        requires
            old(self).wf(),
        ensures
            final(self).wf(),
            final(self).particles_spec() == step_spec(old(self).model(), old(self).wall_spec(), params),
            final(self).radius_spec() == old(self).radius_spec(),
            final(self).wall_spec() == old(self).wall_spec(),
            contained(final(self).particles_spec(), final(self).wall_spec()),
    {
        self.compute_density_pressure(params.gas_const, params.rest_density);
        self.compute_forces(params.visc_const, params.gravity);
        self.integrate(params.dt, params.bound_damping);
    }

    /// The density and pressure pass: each particle's density is summed over
    /// its neighbours, itself included, from the current generation, and its
    /// pressure follows from the density by `gas * (density - rest)`.
    pub fn compute_density_pressure(&mut self, gas_const: i64, rest_dens: i64)
        requires
            old(self).wf(),
        ensures
            final(self).wf(),
            final(self).model() == with_entries(old(self).model(), density_pass(old(self).model(), gas_const, rest_dens)),
            final(self).wall_spec() == old(self).wall_spec(),
    {
        let n = self.particles.len();
        let mut next: Vec<Particle> = Vec::new();
        let mut i: usize = 0;
        while i < n
            invariant
                self.wf(),
                n == self.model().entries.len(),
                0 <= i <= n,
                next@ == density_pass(self.model(), gas_const, rest_dens).take(i as int),
            decreases n - i,
        {
            let d = self.density_at(i);
            let p = *&self.particles.iter()[i];
            let q = Particle { density: d, pressure: fx_mul(gas_const, fx_sub(d, rest_dens)), ..p };
            next.push(q);
            proof {
                assert(next@ =~= density_pass(self.model(), gas_const, rest_dens).take(i + 1));
            }
            i += 1;
        }
        proof {
            let m = self.model();
            assert(next@ =~= density_pass(m, gas_const, rest_dens));
            lemma_same_positions_fresh(m, next@);
        }
        self.particles.set_entries(next);
    }
}

} // verus!
