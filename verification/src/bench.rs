//! A self-contained simulation run: build a square domain, fill it with
//! randomly placed particles, and advance a number of frames.

use vstd::prelude::*;
use crate::fixed::fx_in_range;
use crate::fluid_sim::{FluidSim, props_wf};
use crate::spatial_hash::MAX_GRID;

verus! {

/// Build a `grid_size` by `grid_size` simulation, populate it with
/// `particle_count` randomly placed particles, and run `steps` frames of
/// length `dt`. The returned simulation is well formed and still holds all
/// its particles.
pub fn fluid_sim(grid_size: usize, particle_count: usize, steps: usize, dt: i64) -> (sim:
    FluidSim)
    requires
        1 <= grid_size <= MAX_GRID,
        (grid_size as int) * (grid_size as int) <= usize::MAX as int,
        fx_in_range(dt as int),
    ensures
        sim.wf(),
        sim.spatial_hash.x_size == grid_size,
        sim.spatial_hash.y_size == grid_size,
        sim.particles@.len() == particle_count,
{
    let mut fs = FluidSim::new(grid_size, grid_size);
    let particles = fs.generate_random_particles(particle_count);
    fs.add_particles(&particles);
    let mut step: usize = 0;
    while step < steps
        invariant
            step <= steps,
            fs.wf(),
            props_wf(fs.properties),
            fs.spatial_hash.x_size == grid_size,
            fs.spatial_hash.y_size == grid_size,
            fs.particles@.len() == particle_count,
            fx_in_range(dt as int),
        decreases steps - step,
    {
        fs.update(dt);
        step = step + 1;
    }
    fs
}

} // verus!
