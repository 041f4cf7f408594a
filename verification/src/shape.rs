//! The capability a static obstacle offers the simulation: collide a
//! particle against it, mutating the particle and never the shape.

use vstd::prelude::*;
use crate::vector_2::{Vector2, vec_in_range};
use crate::particle::Particle;
use crate::fluid_sim::{Properties, props_wf};

verus! {

pub trait Shape {
    /// The shape's own geometric well-formedness.
    spec fn shape_wf(&self) -> bool;

    /// The position and velocity a particle ends with after colliding
    /// against this shape.
    spec fn spec_collide(&self, pos: Vector2, vel: Vector2, radius: int) -> (Vector2, Vector2);

    /// Mutate the particle's position and velocity if it intersects the
    /// shape; a particle clear of the shape is left unchanged.
    fn collide_with(&self, particle: &mut Particle, properties: &Properties)
        requires
            self.shape_wf(),
            props_wf(*properties),
            vec_in_range(old(particle).pos),
            vec_in_range(old(particle).vel),
        ensures
            ({
                let (p, v) = self.spec_collide(
                    old(particle).pos,
                    old(particle).vel,
                    properties.radius as int,
                );
                final(particle).pos == p && final(particle).vel == v
            }),
            final(particle).contacts == old(particle).contacts,
            vec_in_range(final(particle).pos),
            vec_in_range(final(particle).vel),
    ;
}

} // verus!
