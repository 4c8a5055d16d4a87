//! A fluid particle: one sample of the continuous fluid.

use vstd::prelude::*;
use crate::vector::Vec2;
use crate::spatial_grid::Position;

verus! {

/// Per-particle state. Every scalar is fixed point (see `fixed`).
#[derive(Clone, Copy, Debug)]
pub struct Particle {
    pub mass: i64,
    pub position: Vec2,
    pub velocity: Vec2,
    /// Force injected from outside, set before each step.
    pub ext_force: Vec2,
    pub density: i64,
    pub pressure: i64,
    /// Total force from the last force pass.
    pub force: Vec2,
}

impl Particle {
    /// A particle at rest at `position`, with no forces, density or pressure.
    pub open spec fn new_spec(position: Vec2, mass: i64) -> Particle {
        Particle {
            mass,
            position,
            velocity: Vec2 { x: 0, y: 0 },
            ext_force: Vec2 { x: 0, y: 0 },
            density: 0,
            pressure: 0,
            force: Vec2 { x: 0, y: 0 },
        }
    }

    pub fn new(position: Vec2, mass: i64) -> (p: Particle)
        ensures
            p == Particle::new_spec(position, mass),
    {
        Particle {
            mass,
            position,
            velocity: Vec2::zero(),
            ext_force: Vec2::zero(),
            density: 0,
            pressure: 0,
            force: Vec2::zero(),
        }
    }
}

impl Position for Particle {
    open spec fn pos(&self) -> Vec2 {
        self.position
    }

    fn position(&self) -> (p: Vec2) {
        self.position
    }
}

} // verus!
