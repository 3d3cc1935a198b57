//! The particle data model.
//!
//! Masses, positions, velocities and accelerations are IEEE 754
//! single-precision values; the core carries each component as its 32-bit
//! pattern and never interprets it arithmetically.  The embedding program
//! converts to and from its native floating-point representation at the
//! boundary; the bit patterns pass through the store, the frame buffer and
//! the serializer unchanged.

use vstd::prelude::*;

verus! {

/// Bit pattern of the single-precision value `1.0`, the default particle
/// mass.
pub const F32_ONE_BITS: u32 = 0x3F80_0000;

/// A three-component vector, each component the bit pattern of a
/// single-precision value.
#[derive(Clone, Copy, PartialEq, Eq, Structural, Debug)]
pub struct Vec3Bits {
    pub x: u32,
    pub y: u32,
    pub z: u32,
}

impl Vec3Bits {
    /// The zero vector (all components `+0.0`, whose bit pattern is 0).
    pub fn zero() -> (r: Vec3Bits)
        ensures
            r == (Vec3Bits { x: 0u32, y: 0u32, z: 0u32 }),
    {
        Vec3Bits { x: 0, y: 0, z: 0 }
    }
}

/// One point mass: mass, position, velocity and the acceleration computed
/// for it in the latest step.
#[derive(Clone, Copy, PartialEq, Eq, Structural, Debug)]
pub struct Particle {
    pub mass: u32,
    pub pos: Vec3Bits,
    pub vel: Vec3Bits,
    pub acc: Vec3Bits,
}

impl Particle {
    /// A particle from its four components.
    pub fn new(mass: u32, pos: Vec3Bits, vel: Vec3Bits, acc: Vec3Bits) -> (r: Particle)
        ensures
            r == (Particle { mass, pos, vel, acc }),
    {
        Particle { mass, pos, vel, acc }
    }

    /// A particle at rest at the origin with unit mass.
    pub fn new_zero() -> (r: Particle)
        ensures
            r.mass == F32_ONE_BITS,
            r.pos == (Vec3Bits { x: 0u32, y: 0u32, z: 0u32 }),
            r.vel == (Vec3Bits { x: 0u32, y: 0u32, z: 0u32 }),
            r.acc == (Vec3Bits { x: 0u32, y: 0u32, z: 0u32 }),
    {
        Particle {
            mass: F32_ONE_BITS,
            pos: Vec3Bits { x: 0, y: 0, z: 0 },
            vel: Vec3Bits { x: 0, y: 0, z: 0 },
            acc: Vec3Bits { x: 0, y: 0, z: 0 },
        }
    }
}

/// The single owner of the authoritative particle state.
///
/// Each simulation step reads one consistent snapshot, computes all forces
/// against it, and then replaces the whole population at once: forces are
/// never mixed across step boundaries, and step `k + 1` reads only state
/// written back at the end of step `k`.
pub struct ParticleStore {
    particles: Vec<Particle>,
}

impl ParticleStore {
    /// The particles held, in index order.
    pub closed spec fn view(&self) -> Seq<Particle> {
        self.particles@
    }

    /// A store owning the given initial population.
    pub fn new(particles: Vec<Particle>) -> (r: ParticleStore)
        ensures
            r@ == particles@,
    {
        ParticleStore { particles }
    }

    /// Population size; fixed for the whole run.
    pub fn len(&self) -> (r: usize)
        ensures
            r == self@.len(),
    {
        self.particles.len()
    }

    /// Reads one particle.
    pub fn get(&self, i: usize) -> (r: Particle)
        requires
            i < self@.len(),
        ensures
            r == self@[i as int],
    {
        self.particles[i]
    }

    /// A consistent snapshot of the whole population, for the force phase
    /// of a step.
    pub fn snapshot(&self) -> (r: Vec<Particle>)
        ensures
            r@ == self@,
    {
        let mut r: Vec<Particle> = Vec::new();
        let mut i: usize = 0;
        while i < self.particles.len()
            invariant
                i <= self.particles@.len(),
                r@ == self.particles@.take(i as int),
            decreases self.particles@.len() - i,
        {
            r.push(self.particles[i]);
            proof {
                assert(r@ =~= self.particles@.take(i + 1));
            }
            i = i + 1;
        }
        proof {
            assert(r@ =~= self.particles@);
        }
        r
    }

    /// Exclusive write-back of the integrated population at the end of a
    /// step.  The population size never changes during a run.
    pub fn write_back(&mut self, particles: Vec<Particle>)
        requires
            particles@.len() == old(self)@.len(),
        ensures
            final(self)@ == particles@,
    {
        self.particles = particles;
    }
}

} // verus!
