//! Packed buffer layouts for a GPU force backend.
//!
//! The backend itself (device setup, kernel dispatch, readback) is an
//! opaque capability of the embedding program; the core owns the exact
//! byte layout both directions.  Uploads carry one 32-byte record per
//! particle — position, mass, velocity, one padding word — and readbacks
//! carry one 16-byte record per particle — the force vector and one
//! padding word, which is ignored.

use vstd::bytes::*;
use vstd::prelude::*;

use crate::particle::{Particle, Vec3Bits};

verus! {

/// The 32-byte upload record of one particle: position, mass, velocity,
/// and a zero padding word, each component little-endian.
pub open spec fn spec_pack_particle(p: Particle) -> Seq<u8> {
    spec_u32_to_le_bytes(p.pos.x) + spec_u32_to_le_bytes(p.pos.y) + spec_u32_to_le_bytes(p.pos.z)
        + spec_u32_to_le_bytes(p.mass) + spec_u32_to_le_bytes(p.vel.x) + spec_u32_to_le_bytes(
        p.vel.y,
    ) + spec_u32_to_le_bytes(p.vel.z) + spec_u32_to_le_bytes(0u32)
}

/// The concatenated upload records of a snapshot.
pub open spec fn spec_pack_particles(s: Seq<Particle>) -> Seq<u8>
    decreases s.len(),
{
    if s.len() == 0 {
        Seq::empty()
    } else {
        spec_pack_particles(s.drop_last()) + spec_pack_particle(s.last())
    }
}

/// Upload records have a fixed 32-byte stride.
pub proof fn lemma_pack_particles_len(s: Seq<Particle>)
    ensures
        spec_pack_particles(s).len() == 32 * s.len(),
    decreases s.len(),
{
    lemma_auto_spec_u32_to_from_le_bytes();
    if s.len() > 0 {
        lemma_pack_particles_len(s.drop_last());
    }
}

/// Packs a particle snapshot into the upload buffer for the force kernel.
pub fn pack_particles(particles: &Vec<Particle>) -> (r: Vec<u8>)
    ensures
        r@ == spec_pack_particles(particles@),
        r@.len() == 32 * particles@.len(),
{
    let mut r: Vec<u8> = Vec::new();
    let mut i: usize = 0;
    while i < particles.len()
        invariant
            i <= particles@.len(),
            r@ == spec_pack_particles(particles@.take(i as int)),
        decreases particles@.len() - i,
    {
        let p = particles[i];
        let mut ws: Vec<u8> = Vec::new();
        let mut b0 = u32_to_le_bytes(p.pos.x);
        ws.append(&mut b0);
        let mut b1 = u32_to_le_bytes(p.pos.y);
        ws.append(&mut b1);
        let mut b2 = u32_to_le_bytes(p.pos.z);
        ws.append(&mut b2);
        let mut b3 = u32_to_le_bytes(p.mass);
        ws.append(&mut b3);
        let mut b4 = u32_to_le_bytes(p.vel.x);
        ws.append(&mut b4);
        let mut b5 = u32_to_le_bytes(p.vel.y);
        ws.append(&mut b5);
        let mut b6 = u32_to_le_bytes(p.vel.z);
        ws.append(&mut b6);
        let mut b7 = u32_to_le_bytes(0u32);
        ws.append(&mut b7);
        r.append(&mut ws);
        proof {
            assert(particles@.take(i + 1).drop_last() =~= particles@.take(i as int));
            assert(particles@.take(i + 1).last() == particles@[i as int]);
            assert(r@ =~= spec_pack_particles(particles@.take(i + 1)));
        }
        i = i + 1;
    }
    proof {
        assert(particles@.take(particles@.len() as int) =~= particles@);
        lemma_pack_particles_len(particles@);
    }
    r
}

/// The force decoded from the `k`-th 16-byte readback record of `b`; the
/// fourth word of the record is padding and is ignored.
pub open spec fn spec_unpack_force(b: Seq<u8>, k: int) -> Vec3Bits {
    Vec3Bits {
        x: spec_u32_from_le_bytes(b.subrange(16 * k, 16 * k + 4)),
        y: spec_u32_from_le_bytes(b.subrange(16 * k + 4, 16 * k + 8)),
        z: spec_u32_from_le_bytes(b.subrange(16 * k + 8, 16 * k + 12)),
    }
}

/// All forces decoded from a readback buffer.
pub open spec fn spec_unpack_forces(b: Seq<u8>) -> Seq<Vec3Bits> {
    Seq::new((b.len() / 16) as nat, |k: int| spec_unpack_force(b, k))
}

/// Unpacks the force buffer read back from the kernel; rejects a buffer
/// that is not a whole run of 16-byte records.
pub fn unpack_forces(b: &Vec<u8>) -> (r: Option<Vec<Vec3Bits>>)
    ensures
        r is Some <==> b@.len() % 16 == 0,
        r is Some ==> r.unwrap()@ == spec_unpack_forces(b@),
{
    let blen = b.len();
    if blen % 16 != 0 {
        return None;
    }
    let count: usize = blen / 16;
    let mut forces: Vec<Vec3Bits> = Vec::new();
    let mut k: usize = 0;
    while k < count
        invariant
            k <= count,
            b@.len() <= usize::MAX,
            count == b@.len() / 16,
            b@.len() % 16 == 0,
            forces@.len() == k,
            forall|t: int| 0 <= t < k ==> forces@[t] == spec_unpack_force(b@, t),
        decreases count - k,
    {
        proof {
            assert(16 * (k as int) + 16 <= 16 * (count as int) && 16 * (count as int) == b@.len())
                by (nonlinear_arith)
                requires
                    0 <= k < count,
                    count == b@.len() / 16,
                    b@.len() % 16 == 0,
            ;
        }
        let base: usize = 16 * k;
        let x = u32_from_le_bytes(vstd::slice::slice_subrange(b.as_slice(), base, base + 4));
        let y = u32_from_le_bytes(vstd::slice::slice_subrange(b.as_slice(), base + 4, base + 8));
        let z = u32_from_le_bytes(vstd::slice::slice_subrange(b.as_slice(), base + 8, base + 12));
        forces.push(Vec3Bits { x, y, z });
        k = k + 1;
    }
    proof {
        assert(forces@ =~= spec_unpack_forces(b@));
    }
    Some(forces)
}

/// Work groups to dispatch for `n` particles at 64 work items per group:
/// `ceil(n / 64)`, so every particle is covered.
pub fn workgroup_count(n: usize) -> (r: usize)
    requires
        n + 63 <= usize::MAX,
    ensures
        r == (n as int + 63) / 64,
        64 * r >= n,
        n >= 1 ==> 64 * (r - 1) < n,
{
    let r = (n + 63) / 64;
    proof {
        assert({
            &&& 64 * ((n as int + 63) / 64) >= n as int
            &&& n as int >= 1 ==> 64 * (((n as int + 63) / 64) - 1) < n as int
        }) by (nonlinear_arith)
            requires
                n >= 0,
        ;
    }
    r
}

} // verus!
