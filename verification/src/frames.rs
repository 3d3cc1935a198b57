//! The frame buffer: a fixed-capacity batch of completed position
//! snapshots, filled one frame per step and reused across batches without
//! reallocation.
//!
//! Storage is one flat run of positions, frame-major and particle-minor —
//! exactly the payload order of the batch format in `codec`.

use vstd::prelude::*;

use crate::particle::Vec3Bits;

verus! {

/// A reusable batch buffer of `capacity_frames` frames of `num_particles`
/// positions each.
pub struct FrameBuffer {
    data: Vec<Vec3Bits>,
    num_particles: usize,
    capacity_frames: usize,
    frames_filled: usize,
}

impl FrameBuffer {
    /// Particles per frame.
    pub closed spec fn num_particles(self) -> int {
        self.num_particles as int
    }

    /// Frames per batch.
    pub closed spec fn capacity_frames(self) -> int {
        self.capacity_frames as int
    }

    /// Frames recorded since the last reset.
    pub closed spec fn frames_filled(self) -> int {
        self.frames_filled as int
    }

    /// The whole storage run, filled slots and stale ones alike.
    pub closed spec fn contents(self) -> Seq<Vec3Bits> {
        self.data@
    }

    /// The positions of frame `k`.
    pub open spec fn frame_at(self, k: int) -> Seq<Vec3Bits> {
        self.contents().subrange(k * self.num_particles(), (k + 1) * self.num_particles())
    }

    /// The storage always spans exactly the full batch, and the fill mark
    /// stays within it.
    pub open spec fn wf(self) -> bool {
        &&& self.contents().len() == self.capacity_frames() * self.num_particles()
        &&& 0 <= self.frames_filled() <= self.capacity_frames()
    }

    /// A zeroed buffer for `capacity_frames` frames of `num_particles`
    /// positions.
    pub fn new(num_particles: usize, capacity_frames: usize) -> (r: FrameBuffer)
        requires
            (capacity_frames as int) * (num_particles as int) <= usize::MAX,
        ensures
            r.wf(),
            r.num_particles() == num_particles,
            r.capacity_frames() == capacity_frames,
            r.frames_filled() == 0,
    {
        proof {
            assert((capacity_frames as int) * (num_particles as int) >= 0) by (nonlinear_arith);
        }
        let total: usize = capacity_frames * num_particles;
        let mut data: Vec<Vec3Bits> = Vec::new();
        let mut t: usize = 0;
        while t < total
            invariant
                t <= total,
                data@.len() == t,
            decreases total - t,
        {
            data.push(Vec3Bits { x: 0, y: 0, z: 0 });
            t = t + 1;
        }
        FrameBuffer { data, num_particles, capacity_frames, frames_filled: 0 }
    }

    /// Whether the batch is complete and due for the sink.
    pub fn is_full(&self) -> (r: bool)
        ensures
            r == (self.frames_filled() == self.capacity_frames()),
    {
        self.frames_filled == self.capacity_frames
    }

    /// Frames recorded since the last reset.
    pub fn len(&self) -> (r: usize)
        ensures
            r == self.frames_filled(),
    {
        self.frames_filled
    }

    /// Records one completed frame into the next slot, overwriting
    /// whatever the previous batch left there.
    pub fn push_frame(&mut self, frame: &Vec<Vec3Bits>)
        requires
            old(self).wf(),
            old(self).frames_filled() < old(self).capacity_frames(),
            frame@.len() == old(self).num_particles(),
        ensures
            final(self).wf(),
            final(self).num_particles() == old(self).num_particles(),
            final(self).capacity_frames() == old(self).capacity_frames(),
            final(self).frames_filled() == old(self).frames_filled() + 1,
            final(self).frame_at(old(self).frames_filled()) == frame@,
            forall|k: int|
                0 <= k < old(self).capacity_frames() && k != old(self).frames_filled()
                    ==> final(self).frame_at(k) == old(self).frame_at(k),
    {
        let np = self.num_particles;
        let ghost ffo = old(self).frames_filled();
        let ghost npp = np as int;
        let ghost cap = old(self).capacity_frames();
        proof {
            assert({
                &&& 0 <= ffo * npp
                &&& ffo * npp + npp == (ffo + 1) * npp
                &&& (ffo + 1) * npp <= cap * npp
            }) by (nonlinear_arith)
                requires
                    0 <= ffo < cap,
                    npp >= 0,
            ;
        }
        let dlen = self.data.len();
        let base: usize = self.frames_filled * np;
        let mut p: usize = 0;
        while p < np
            invariant
                p <= np,
                np == self.num_particles,
                base == (self.frames_filled as int) * (np as int),
                base + np <= self.data@.len(),
                self.data@.len() <= usize::MAX,
                frame@.len() == np,
                self.data@.len() == old(self).contents().len(),
                self.num_particles == old(self).num_particles,
                self.capacity_frames == old(self).capacity_frames,
                self.frames_filled == old(self).frames_filled,
                forall|t: int|
                    0 <= t < self.data@.len() && !(base <= t < base + p) ==> self.data@[t] == old(
                        self,
                    ).contents()[t],
                forall|t: int| 0 <= t < p ==> self.data@[base + t] == frame@[t],
            decreases np - p,
        {
            self.data.set(base + p, frame[p]);
            p = p + 1;
        }
        self.frames_filled = self.frames_filled + 1;
        proof {
            assert(self.frame_at(ffo) =~= frame@);
            assert forall|k: int|
                0 <= k < old(self).capacity_frames() && k != ffo implies self.frame_at(k) == old(
                self,
            ).frame_at(k) by {
                assert({
                    &&& k < ffo ==> (k + 1) * npp <= ffo * npp
                    &&& k > ffo ==> k * npp >= (ffo + 1) * npp
                    &&& 0 <= k * npp
                    &&& k * npp <= (k + 1) * npp
                    &&& (k + 1) * npp <= cap * npp
                    &&& ffo * npp + npp == (ffo + 1) * npp
                }) by (nonlinear_arith)
                    requires
                        0 <= k < cap,
                        k != ffo,
                        0 <= ffo < cap,
                        npp >= 0,
                ;
                assert(self.frame_at(k) =~= old(self).frame_at(k));
            }
        }
    }

    /// Starts the next batch: the fill mark returns to zero and the
    /// storage is reused in place.
    pub fn reset(&mut self)
        requires
            old(self).wf(),
        ensures
            final(self).wf(),
            final(self).num_particles() == old(self).num_particles(),
            final(self).capacity_frames() == old(self).capacity_frames(),
            final(self).frames_filled() == 0,
            final(self).contents() == old(self).contents(),
    {
        self.frames_filled = 0;
    }

    /// The flat position run, for the batch encoder.
    pub fn positions(&self) -> (r: &Vec<Vec3Bits>)
        ensures
            r@ == self.contents(),
    {
        &self.data
    }
}

} // verus!
