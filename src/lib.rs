//! A smoothed-particle-hydrodynamics fluid core in saturating fixed-point
//! arithmetic: smoothing kernels, a uniform-grid spatial index and the
//! per-step density, force and integration passes, with their contracts.
//! `ns` and `nsmath` hold the cell indexing of the Eulerian grid solver.

pub mod fixed;
pub mod vector;
pub mod kernel;
pub mod cell_map;
pub mod spatial_grid;
pub mod particle;
pub mod fluid;
pub mod ns;
pub mod nsmath;
