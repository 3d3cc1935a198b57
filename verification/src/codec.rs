//! The binary frame-batch format.
//!
//! One batch artifact holds a 4-byte little-endian frame count, a 4-byte
//! little-endian particle count, then `frames * particles` consecutive
//! 12-byte little-endian component triples `(x, y, z)`, frame-major and
//! particle-minor.  Encoding and decoding are exact inverses, proved here;
//! the compressed container around this payload lives in `sink`.

use vstd::bytes::*;
use vstd::prelude::*;

use crate::particle::Vec3Bits;

verus! {

/// The 12 bytes of one position: `x`, `y`, `z`, each in little-endian
/// order.
pub open spec fn spec_encode_vec3(v: Vec3Bits) -> Seq<u8> {
    spec_u32_to_le_bytes(v.x) + spec_u32_to_le_bytes(v.y) + spec_u32_to_le_bytes(v.z)
}

/// The concatenated encodings of a run of positions.
pub open spec fn spec_encode_positions(s: Seq<Vec3Bits>) -> Seq<u8>
    decreases s.len(),
{
    if s.len() == 0 {
        Seq::empty()
    } else {
        spec_encode_positions(s.drop_last()) + spec_encode_vec3(s.last())
    }
}

/// The position decoded from the `k`-th 12-byte triple of `b`.
pub open spec fn spec_decode_vec3(b: Seq<u8>, k: int) -> Vec3Bits {
    Vec3Bits {
        x: spec_u32_from_le_bytes(b.subrange(12 * k, 12 * k + 4)),
        y: spec_u32_from_le_bytes(b.subrange(12 * k + 4, 12 * k + 8)),
        z: spec_u32_from_le_bytes(b.subrange(12 * k + 8, 12 * k + 12)),
    }
}

/// All positions decoded from a run of 12-byte triples.
pub open spec fn spec_decode_positions(b: Seq<u8>) -> Seq<Vec3Bits> {
    Seq::new((b.len() / 12) as nat, |k: int| spec_decode_vec3(b, k))
}

/// Position encoding has a fixed 12-byte stride.
pub proof fn lemma_encode_positions_len(s: Seq<Vec3Bits>)
    ensures
        spec_encode_positions(s).len() == 12 * s.len(),
    decreases s.len(),
{
    lemma_auto_spec_u32_to_from_le_bytes();
    if s.len() > 0 {
        lemma_encode_positions_len(s.drop_last());
    }
}

/// Decoding inverts encoding on any run of positions.
pub proof fn lemma_decode_of_encode_positions(s: Seq<Vec3Bits>)
    ensures
        spec_decode_positions(spec_encode_positions(s)) == s,
    decreases s.len(),
{
    lemma_auto_spec_u32_to_from_le_bytes();
    lemma_encode_positions_len(s);
    if s.len() == 0 {
        assert(spec_decode_positions(spec_encode_positions(s)) =~= s);
    } else {
        let p = s.drop_last();
        let e = spec_encode_positions(s);
        let ep = spec_encode_positions(p);
        lemma_decode_of_encode_positions(p);
        lemma_encode_positions_len(p);
        let n = s.len() as int;
        assert forall|k: int| 0 <= k < n implies spec_decode_vec3(e, k) == s[k] by {
            if k < n - 1 {
                assert(e.subrange(12 * k, 12 * k + 4) =~= ep.subrange(12 * k, 12 * k + 4));
                assert(e.subrange(12 * k + 4, 12 * k + 8) =~= ep.subrange(12 * k + 4, 12 * k + 8));
                assert(e.subrange(12 * k + 8, 12 * k + 12) =~= ep.subrange(
                    12 * k + 8,
                    12 * k + 12,
                ));
                assert(spec_decode_vec3(ep, k) == spec_decode_positions(ep)[k]);
                assert(spec_decode_positions(ep)[k] == p[k]);
            } else {
                let v = s.last();
                assert(e.subrange(12 * k, 12 * k + 4) =~= spec_u32_to_le_bytes(v.x));
                assert(e.subrange(12 * k + 4, 12 * k + 8) =~= spec_u32_to_le_bytes(v.y));
                assert(e.subrange(12 * k + 8, 12 * k + 12) =~= spec_u32_to_le_bytes(v.z));
            }
        }
        assert(spec_decode_positions(e) =~= s);
    }
}

/// The whole uncompressed batch payload: frame count, particle count,
/// positions.
pub open spec fn spec_encode_batch(
    frames_per_file: u32,
    num_particles: u32,
    positions: Seq<Vec3Bits>,
) -> Seq<u8> {
    spec_u32_to_le_bytes(frames_per_file) + spec_u32_to_le_bytes(num_particles)
        + spec_encode_positions(positions)
}

/// Whether a byte run is a well-formed batch payload: long enough for its
/// header, and holding exactly `frames * particles` 12-byte triples.
pub open spec fn spec_batch_valid(b: Seq<u8>) -> bool {
    &&& b.len() >= 8
    &&& b.len() - 8 == 12 * (spec_u32_from_le_bytes(b.subrange(0, 4)) as int)
        * (spec_u32_from_le_bytes(b.subrange(4, 8)) as int)
}

/// The batch read from a byte run, or nothing where the run is not a
/// well-formed payload.
pub open spec fn spec_decode_batch(b: Seq<u8>) -> Option<(u32, u32, Seq<Vec3Bits>)> {
    if spec_batch_valid(b) {
        Some(
            (
                spec_u32_from_le_bytes(b.subrange(0, 4)),
                spec_u32_from_le_bytes(b.subrange(4, 8)),
                spec_decode_positions(b.skip(8)),
            ),
        )
    } else {
        None
    }
}

/// Decoding inverts encoding on any batch whose position run matches its
/// header counts.
pub proof fn lemma_decode_of_encode_batch(
    frames_per_file: u32,
    num_particles: u32,
    positions: Seq<Vec3Bits>,
)
    requires
        positions.len() == (frames_per_file as int) * (num_particles as int),
    ensures
        spec_decode_batch(spec_encode_batch(frames_per_file, num_particles, positions)) == Some(
            (frames_per_file, num_particles, positions),
        ),
{
    lemma_auto_spec_u32_to_from_le_bytes();
    lemma_encode_positions_len(positions);
    lemma_decode_of_encode_positions(positions);
    let b = spec_encode_batch(frames_per_file, num_particles, positions);
    assert(b.subrange(0, 4) =~= spec_u32_to_le_bytes(frames_per_file));
    assert(b.subrange(4, 8) =~= spec_u32_to_le_bytes(num_particles));
    assert(b.skip(8) =~= spec_encode_positions(positions));
    assert(12 * ((frames_per_file as int) * (num_particles as int)) == 12 * (frames_per_file as int)
        * (num_particles as int)) by (nonlinear_arith);
    assert(spec_batch_valid(b));
}

/// Appends the little-endian bytes of `x`.
fn push_u32_le(out: &mut Vec<u8>, x: u32)
    ensures
        final(out)@ == old(out)@ + spec_u32_to_le_bytes(x),
{
    let mut bs = u32_to_le_bytes(x);
    out.append(&mut bs);
}

/// Encodes a batch: the header, then every position in order.
///
/// `positions` is frame-major and particle-minor: the position of particle
/// `p` in frame `f` stands at index `f * num_particles + p`.
pub fn encode_batch(frames_per_file: u32, num_particles: u32, positions: &Vec<Vec3Bits>) -> (r: Vec<
    u8,
>)
    requires
        positions@.len() == (frames_per_file as int) * (num_particles as int),
    ensures
        r@ == spec_encode_batch(frames_per_file, num_particles, positions@),
        spec_decode_batch(r@) == Some((frames_per_file, num_particles, positions@)),
{
    let mut r: Vec<u8> = Vec::new();
    push_u32_le(&mut r, frames_per_file);
    push_u32_le(&mut r, num_particles);
    let ghost header = spec_u32_to_le_bytes(frames_per_file) + spec_u32_to_le_bytes(num_particles);
    let mut i: usize = 0;
    while i < positions.len()
        invariant
            i <= positions@.len(),
            r@ == header + spec_encode_positions(positions@.take(i as int)),
        decreases positions@.len() - i,
    {
        let v = positions[i];
        push_u32_le(&mut r, v.x);
        push_u32_le(&mut r, v.y);
        push_u32_le(&mut r, v.z);
        proof {
            assert(positions@.take(i + 1).drop_last() =~= positions@.take(i as int));
            assert(positions@.take(i + 1).last() == positions@[i as int]);
            assert(r@ =~= header + spec_encode_positions(positions@.take(i + 1)));
        }
        i = i + 1;
    }
    proof {
        assert(positions@.take(positions@.len() as int) =~= positions@);
        assert(r@ =~= spec_encode_batch(frames_per_file, num_particles, positions@));
        lemma_decode_of_encode_batch(frames_per_file, num_particles, positions@);
    }
    r
}

/// A batch read back from its uncompressed payload.
pub struct DecodedBatch {
    /// Frame count from the header.
    pub frames_per_file: u32,
    /// Particle count from the header.
    pub num_particles: u32,
    /// The position of particle `p` in frame `f`, at index
    /// `f * num_particles + p`.
    pub positions: Vec<Vec3Bits>,
}

/// Decodes a batch payload; rejects byte runs that are not a well-formed
/// batch.
pub fn decode_batch(b: &Vec<u8>) -> (r: Option<DecodedBatch>)
    ensures
        spec_batch_valid(b@) <==> r is Some,
        r is Some ==> {
            let d = r.unwrap();
            &&& Some((d.frames_per_file, d.num_particles, d.positions@)) == spec_decode_batch(b@)
        },
{
    if b.len() < 8 {
        return None;
    }
    let frames_per_file = u32_from_le_bytes(vstd::slice::slice_subrange(b.as_slice(), 0, 4));
    let num_particles = u32_from_le_bytes(vstd::slice::slice_subrange(b.as_slice(), 4, 8));
    let body_len: usize = b.len() - 8;
    proof {
        assert((frames_per_file as u128) * (num_particles as u128) < 0x1_0000_0000_0000_0000u128
            && 12u128 * ((frames_per_file as u128) * (num_particles as u128))
            < 0x10_0000_0000_0000_0000u128) by (nonlinear_arith)
            requires
                frames_per_file <= u32::MAX,
                num_particles <= u32::MAX,
        ;
    }
    let fn_product: u128 = (frames_per_file as u128) * (num_particles as u128);
    let expect: u128 = 12u128 * fn_product;
    if (body_len as u128) != expect {
        proof {
            assert(12 * ((frames_per_file as int) * (num_particles as int)) == 12 * (
            frames_per_file as int) * (num_particles as int)) by (nonlinear_arith);
        }
        return None;
    }
    let count: usize = body_len / 12;
    proof {
        assert(12 * ((frames_per_file as int) * (num_particles as int)) == 12 * (
        frames_per_file as int) * (num_particles as int)) by (nonlinear_arith);
        assert(spec_batch_valid(b@));
        assert((12 * ((frames_per_file as int) * (num_particles as int))) / 12 == (
        frames_per_file as int) * (num_particles as int)) by (nonlinear_arith);
    }
    let mut positions: Vec<Vec3Bits> = Vec::new();
    let mut k: usize = 0;
    while k < count
        invariant
            k <= count,
            b@.len() <= usize::MAX,
            b@.len() - 8 == 12 * count,
            positions@.len() == k,
            forall|t: int| 0 <= t < k ==> positions@[t] == spec_decode_vec3(b@.skip(8), t),
        decreases count - k,
    {
        let base: usize = 8 + 12 * k;
        let x = u32_from_le_bytes(vstd::slice::slice_subrange(b.as_slice(), base, base + 4));
        let y = u32_from_le_bytes(vstd::slice::slice_subrange(b.as_slice(), base + 4, base + 8));
        let z = u32_from_le_bytes(vstd::slice::slice_subrange(b.as_slice(), base + 8, base + 12));
        proof {
            assert(b@.subrange(8 + 12 * (k as int), 8 + 12 * (k as int) + 4) =~= b@.skip(
                8,
            ).subrange(12 * (k as int), 12 * (k as int) + 4));
            assert(b@.subrange(8 + 12 * (k as int) + 4, 8 + 12 * (k as int) + 8) =~= b@.skip(
                8,
            ).subrange(12 * (k as int) + 4, 12 * (k as int) + 8));
            assert(b@.subrange(8 + 12 * (k as int) + 8, 8 + 12 * (k as int) + 12) =~= b@.skip(
                8,
            ).subrange(12 * (k as int) + 8, 12 * (k as int) + 12));
        }
        positions.push(Vec3Bits { x, y, z });
        k = k + 1;
    }
    proof {
        assert(positions@ =~= spec_decode_positions(b@.skip(8)));
    }
    Some(DecodedBatch { frames_per_file, num_particles, positions })
}

} // verus!
