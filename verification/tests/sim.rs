//! End-to-end simulation tests: detection, resolution, integration,
//! boundary reflection, rectangle collision, and population helpers.

use libphysics::bench::fluid_sim;
use libphysics::fixed::ONE;
use libphysics::fluid_sim::FluidSim;
use libphysics::particle::Particle;
use libphysics::rect::Rect;
use libphysics::shape::Shape;
use libphysics::vector_2::{Rotation, Vector2, vec2};

fn total_entries(sim: &FluidSim) -> usize {
    let mut total = 0;
    for cell in sim.spatial_hash.cells.iter() {
        total += cell.len();
    }
    total
}

#[test]
fn default_properties() {
    let sim = FluidSim::new(10, 10);
    assert_eq!(sim.properties.radius, ONE);
    assert_eq!(sim.properties.dist_squared_max, 4 * ONE);
    assert_eq!(sim.properties.elasticity, ONE);
    assert_eq!(sim.properties.damping, ONE);
    assert_eq!(sim.properties.collision_damping, ONE);
    assert_eq!(sim.properties.gravity, vec2(0, 19660));
    assert!(sim.particles.is_empty());
    assert!(sim.rects.is_empty());
}

#[test]
fn add_particles_appends_and_rebuilds_the_grid() {
    let mut sim = FluidSim::new(10, 10);
    let batch = vec![
        Particle::new(vec2(ONE, ONE)),
        Particle::with_vel(vec2(2 * ONE, 3 * ONE), vec2(5, -5)),
    ];
    sim.add_particles(&batch);
    assert_eq!(sim.particles.len(), 2);
    assert_eq!(sim.particles[0].pos, vec2(ONE, ONE));
    assert_eq!(sim.particles[1].pos, vec2(2 * ONE, 3 * ONE));
    assert_eq!(sim.particles[1].vel, vec2(5, -5));
    // Every particle is stored in the cell of its floored position.
    assert_eq!(sim.spatial_hash.cells[1 + 1 * 10], vec![0]);
    assert_eq!(sim.spatial_hash.cells[2 + 3 * 10], vec![1]);
    assert_eq!(total_entries(&sim), 2);
}

#[test]
fn no_self_collision() {
    let mut sim = FluidSim::new(10, 10);
    sim.properties.gravity = vec2(0, 0);
    sim.add_particles(&vec![Particle::new(vec2(5 * ONE, 5 * ONE))]);
    sim.update(ONE / 100);
    assert_eq!(sim.particles[0].contacts.len(), 0);
}

#[test]
fn region_completeness_finds_pairs_just_inside_the_threshold() {
    // Distance 1.9 < 2 * radius: the pair must be detected.
    let mut sim = FluidSim::new(16, 16);
    sim.properties.gravity = vec2(0, 0);
    sim.add_particles(&vec![
        Particle::new(vec2(5 * ONE, 5 * ONE)),
        Particle::new(vec2(5 * ONE + 124518, 5 * ONE)),
    ]);
    sim.update(65);
    assert_eq!(sim.particles[0].contacts.len(), 1);
    assert_eq!(sim.particles[0].contacts[0].other, 1);
    // Depth is the fixed-point center distance, the normal the unit vector
    // toward the other particle.
    assert_eq!(sim.particles[0].contacts[0].depth, 124517);
    assert_eq!(sim.particles[0].contacts[0].normal, vec2(ONE, 0));
    assert_eq!(sim.particles[1].contacts.len(), 1);
    assert_eq!(sim.particles[1].contacts[0].other, 0);
    assert_eq!(sim.particles[1].contacts[0].normal, vec2(-ONE, 0));
}

#[test]
fn pairs_outside_the_threshold_are_ignored() {
    // Distance 2.1 > 2 * radius: no contact on either side.
    let mut sim = FluidSim::new(16, 16);
    sim.properties.gravity = vec2(0, 0);
    sim.add_particles(&vec![
        Particle::new(vec2(5 * ONE, 5 * ONE)),
        Particle::new(vec2(5 * ONE + 137626, 5 * ONE)),
    ]);
    sim.update(65);
    assert_eq!(sim.particles[0].contacts.len(), 0);
    assert_eq!(sim.particles[1].contacts.len(), 0);
}

#[test]
fn boundary_reflection_energy() {
    // A particle at y = 0.1 moving with velocity (0, -5) over dt = 1 would
    // cross y = 0; it emerges with the y velocity flipped and y >= 0.
    let mut sim = FluidSim::new(10, 10);
    sim.properties.gravity = vec2(0, 0);
    sim.add_particles(&vec![Particle::with_vel(vec2(5 * ONE, 6553), vec2(0, -5 * ONE))]);
    sim.update(ONE);
    assert!(sim.particles[0].vel.y > 0);
    assert!(sim.particles[0].pos.y >= 0);
    assert_eq!(sim.particles[0].vel, vec2(0, 5 * ONE));
    assert_eq!(sim.particles[0].pos, vec2(5 * ONE, 6553 + 5 * ONE));
}

#[test]
fn two_particle_separation() {
    // Two overlapping particles drift strictly apart over one update and
    // nothing panics.
    let mut sim = FluidSim::new(10, 10);
    sim.properties.gravity = vec2(0, 0);
    sim.add_particles(&vec![
        Particle::new(vec2(5 * ONE, 5 * ONE)),
        Particle::new(vec2(5 * ONE + ONE / 2, 5 * ONE)),
    ]);
    let dist_before = sim.particles[1].pos.x - sim.particles[0].pos.x;
    sim.update(65);
    // The repulsion kick pushes them apart symmetrically.
    assert_eq!(sim.particles[0].vel, vec2(-2 * ONE, 0));
    assert_eq!(sim.particles[1].vel, vec2(2 * ONE, 0));
    assert_eq!(sim.particles[0].pos, vec2(5 * ONE - 130, 5 * ONE));
    assert_eq!(sim.particles[1].pos, vec2(5 * ONE + ONE / 2 + 130, 5 * ONE));
    let dist_after = sim.particles[1].pos.x - sim.particles[0].pos.x;
    assert!(dist_after > dist_before);
    assert_eq!(sim.particles[0].pos.y, 5 * ONE);
    assert_eq!(sim.particles[1].pos.y, 5 * ONE);
}

#[test]
fn rectangle_push_out_degenerate() {
    // Center 0.5 units inside the low-y face of an axis-aligned rectangle:
    // expelled to one radius outside that face, velocity along the face
    // normal flipped.
    let rect = Rect {
        pos: vec2(10 * ONE, 10 * ONE),
        size: vec2(8 * ONE, 4 * ONE),
        rotation: Rotation::identity(),
    };
    let sim = FluidSim::new(20, 20);
    let mut particle = Particle::with_vel(vec2(10 * ONE, 8 * ONE + ONE / 2), vec2(ONE, 2 * ONE));
    rect.collide_with(&mut particle, &sim.properties);
    // The low-y face sits at y = 8; one radius outside is y = 7.
    assert_eq!(particle.pos, vec2(10 * ONE, 7 * ONE));
    assert_eq!(particle.vel, vec2(ONE, -2 * ONE));
    // Squared distance to the boundary is at least the squared radius.
    let boundary_dist = 8 * ONE - particle.pos.y;
    assert!(boundary_dist >= ONE);
}

#[test]
fn rectangle_grazing_contact() {
    // Center 0.5 units outside the low-y face: reflected and nudged out
    // along the depth-scaled push vector.
    let rect = Rect {
        pos: vec2(10 * ONE, 10 * ONE),
        size: vec2(8 * ONE, 4 * ONE),
        rotation: Rotation::identity(),
    };
    let sim = FluidSim::new(20, 20);
    let mut particle = Particle::with_vel(vec2(10 * ONE, 7 * ONE + ONE / 2), vec2(0, 2 * ONE));
    rect.collide_with(&mut particle, &sim.properties);
    assert_eq!(particle.vel, vec2(0, -2 * ONE));
    assert_eq!(particle.pos, vec2(10 * ONE, 7 * ONE + ONE / 2 - 8192));
}

#[test]
fn rectangle_clear_of_the_particle_is_a_no_op() {
    let rect = Rect {
        pos: vec2(10 * ONE, 10 * ONE),
        size: vec2(4 * ONE, 4 * ONE),
        rotation: Rotation::identity(),
    };
    let sim = FluidSim::new(20, 20);
    let mut particle = Particle::with_vel(vec2(2 * ONE, 2 * ONE), vec2(ONE, ONE));
    rect.collide_with(&mut particle, &sim.properties);
    assert_eq!(particle.pos, vec2(2 * ONE, 2 * ONE));
    assert_eq!(particle.vel, vec2(ONE, ONE));
}

#[test]
fn random_particles_fall_inside_the_domain() {
    let sim = FluidSim::new(12, 12);
    let particles = sim.generate_random_particles(200);
    assert_eq!(particles.len(), 200);
    for p in particles.iter() {
        assert!(0 <= p.pos.x && p.pos.x < 12 * ONE);
        assert!(0 <= p.pos.y && p.pos.y < 12 * ONE);
        assert_eq!(p.vel, vec2(0, 0));
        assert!(p.contacts.is_empty());
    }
}

#[test]
fn gravity_accumulates_over_frames() {
    let mut sim = FluidSim::new(10, 10);
    sim.add_particles(&vec![Particle::new(vec2(5 * ONE, 2 * ONE))]);
    sim.update(ONE);
    // One frame of default gravity (0.3 rounded down) at dt = 1.
    assert_eq!(sim.particles[0].vel, vec2(0, 19660));
    assert_eq!(sim.particles[0].pos, vec2(5 * ONE, 2 * ONE + 19660));
}

#[test]
fn grid_is_rebuilt_at_the_new_positions() {
    let mut sim = FluidSim::new(10, 10);
    sim.properties.gravity = vec2(0, 0);
    sim.add_particles(&vec![Particle::with_vel(vec2(ONE / 2, ONE / 2), vec2(3 * ONE, 0))]);
    sim.update(ONE);
    // The particle moved from cell (0, 0) to cell (3, 0).
    assert_eq!(sim.particles[0].pos, vec2(ONE / 2 + 3 * ONE, ONE / 2));
    assert!(sim.spatial_hash.cells[0].is_empty());
    assert_eq!(sim.spatial_hash.cells[3], vec![0]);
    assert_eq!(total_entries(&sim), 1);
}

#[test]
fn grid_stays_consistent_across_frames() {
    let mut sim = FluidSim::new(20, 20);
    let particles = sim.generate_random_particles(30);
    sim.add_particles(&particles);
    for _ in 0..5 {
        sim.update(655);
    }
    // Every particle is stored exactly once, in the bucket of its floored
    // position.
    let mut seen = vec![0usize; sim.particles.len()];
    for (c, cell) in sim.spatial_hash.cells.iter().enumerate() {
        for &idx in cell.iter() {
            seen[idx] += 1;
            let p = &sim.particles[idx];
            let cx = (p.pos.x / ONE) as usize;
            let cy = (p.pos.y / ONE) as usize;
            assert_eq!(cx + cy * sim.spatial_hash.y_size, c);
        }
    }
    assert!(seen.iter().all(|&n| n == 1));
}

#[test]
fn bench_run_keeps_all_particles() {
    let sim = fluid_sim(10, 5, 3, 655);
    assert_eq!(sim.particles.len(), 5);
    for p in sim.particles.iter() {
        assert!(0 <= p.pos.x && p.pos.x < 10 * ONE);
        assert!(0 <= p.pos.y && p.pos.y < 10 * ONE);
    }
}
