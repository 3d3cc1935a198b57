//! Batch sequencing for the run.
//!
//! A run produces `frames_total / frames_per_file` batches (truncating
//! division: trailing frames that do not fill a batch are never produced —
//! a deliberate simplification, not an error).  Per batch the driver asks
//! for `frames_per_file` simulation frames and then one flush to the sink;
//! the embedding program performs each action and reports it done.

use vstd::prelude::*;

verus! {

/// Batches a run produces: `frames_total / frames_per_file`, truncating.
pub open spec fn spec_num_batches(frames_total: int, frames_per_file: int) -> int {
    frames_total / frames_per_file
}

/// Truncating batching: the batches of a run cover at most `frames_total`
/// frames, and what they leave off is less than one batch.
pub proof fn lemma_batch_truncation(frames_total: int, frames_per_file: int)
    requires
        frames_total >= 0,
        frames_per_file >= 1,
    ensures
        0 <= spec_num_batches(frames_total, frames_per_file) * frames_per_file <= frames_total,
        frames_total - spec_num_batches(frames_total, frames_per_file) * frames_per_file
            < frames_per_file,
{
    assert({
        &&& 0 <= (frames_total / frames_per_file) * frames_per_file <= frames_total
        &&& frames_total - (frames_total / frames_per_file) * frames_per_file < frames_per_file
    }) by (nonlinear_arith)
        requires
            frames_total >= 0,
            frames_per_file >= 1,
    ;
}

/// Batches a run produces.
pub fn num_batches(frames_total: usize, frames_per_file: usize) -> (r: usize)
    requires
        frames_per_file >= 1,
    ensures
        r == spec_num_batches(frames_total as int, frames_per_file as int),
{
    frames_total / frames_per_file
}

/// What the driver asks for next.
#[derive(Clone, Copy, PartialEq, Eq, Structural, Debug)]
pub enum DriverAction {
    /// Run one simulation step and record the resulting frame.
    ComputeFrame,
    /// The batch is complete: serialize it, write it out, reset the frame
    /// buffer.
    FlushBatch,
    /// The run is over.
    Done,
}

/// The driver's position within the run: which batch, and how many frames
/// of it are recorded.
pub struct Driver {
    frames_per_file: usize,
    num_batches: usize,
    batch_index: usize,
    frame_in_batch: usize,
}

impl Driver {
    /// Frames per batch.
    pub closed spec fn frames_per_file(self) -> int {
        self.frames_per_file as int
    }

    /// Batches in the whole run.
    pub closed spec fn num_batches(self) -> int {
        self.num_batches as int
    }

    /// Batches already flushed.
    pub closed spec fn batch_index(self) -> int {
        self.batch_index as int
    }

    /// Frames recorded in the current batch.
    pub closed spec fn frame_in_batch(self) -> int {
        self.frame_in_batch as int
    }

    /// Frames recorded over the whole run so far.
    pub open spec fn frames_done(self) -> int {
        self.batch_index() * self.frames_per_file() + self.frame_in_batch()
    }

    /// The driver never runs past the batch count, never overfills a
    /// batch, and ends cleanly on a batch boundary.
    pub open spec fn wf(self) -> bool {
        &&& self.frames_per_file() >= 1
        &&& 0 <= self.batch_index() <= self.num_batches()
        &&& 0 <= self.frame_in_batch() <= self.frames_per_file()
        &&& self.batch_index() == self.num_batches() ==> self.frame_in_batch() == 0
    }

    /// What the driver asks for next: frames until the batch is full, then
    /// a flush; nothing once every batch is flushed.
    pub open spec fn spec_next(self) -> DriverAction {
        if self.batch_index() == self.num_batches() {
            DriverAction::Done
        } else if self.frame_in_batch() < self.frames_per_file() {
            DriverAction::ComputeFrame
        } else {
            DriverAction::FlushBatch
        }
    }

    /// A driver at the start of a run of `frames_total` frames in batches
    /// of `frames_per_file`.
    pub fn new(frames_total: usize, frames_per_file: usize) -> (r: Driver)
        requires
            frames_per_file >= 1,
        ensures
            r.wf(),
            r.frames_per_file() == frames_per_file,
            r.num_batches() == spec_num_batches(frames_total as int, frames_per_file as int),
            r.batch_index() == 0,
            r.frame_in_batch() == 0,
    {
        proof {
            lemma_batch_truncation(frames_total as int, frames_per_file as int);
            assert(frames_total as int / frames_per_file as int <= frames_total as int) by (
            nonlinear_arith)
                requires
                    frames_total >= 0,
                    frames_per_file >= 1,
            ;
        }
        let nb = frames_total / frames_per_file;
        Driver { frames_per_file, num_batches: nb, batch_index: 0, frame_in_batch: 0 }
    }

    /// What to do next.
    pub fn next_action(&self) -> (r: DriverAction)
        requires
            self.wf(),
        ensures
            r == self.spec_next(),
    {
        if self.batch_index == self.num_batches {
            DriverAction::Done
        } else if self.frame_in_batch < self.frames_per_file {
            DriverAction::ComputeFrame
        } else {
            DriverAction::FlushBatch
        }
    }

    /// Batches already flushed; also the index for the next artifact's
    /// file name.
    pub fn batches_flushed(&self) -> (r: usize)
        ensures
            r == self.batch_index(),
    {
        self.batch_index
    }

    /// Marks one frame recorded.
    pub fn frame_recorded(&mut self)
        requires
            old(self).wf(),
            old(self).spec_next() == DriverAction::ComputeFrame,
        ensures
            final(self).wf(),
            final(self).frames_per_file() == old(self).frames_per_file(),
            final(self).num_batches() == old(self).num_batches(),
            final(self).batch_index() == old(self).batch_index(),
            final(self).frame_in_batch() == old(self).frame_in_batch() + 1,
            final(self).frames_done() == old(self).frames_done() + 1,
    {
        self.frame_in_batch = self.frame_in_batch + 1;
    }

    /// Marks the completed batch flushed; the next batch begins.
    pub fn batch_flushed(&mut self)
        requires
            old(self).wf(),
            old(self).spec_next() == DriverAction::FlushBatch,
        ensures
            final(self).wf(),
            final(self).frames_per_file() == old(self).frames_per_file(),
            final(self).num_batches() == old(self).num_batches(),
            final(self).batch_index() == old(self).batch_index() + 1,
            final(self).frame_in_batch() == 0,
            final(self).frames_done() == old(self).frames_done(),
    {
        proof {
            let b = self.batch_index() + 1;
            let f = self.frames_per_file();
            assert(b * f == (b - 1) * f + f) by (nonlinear_arith);
        }
        self.batch_index = self.batch_index + 1;
        self.frame_in_batch = 0;
    }

    /// A finished run has recorded exactly one batch's worth of frames per
    /// batch: the truncating total, never more.
    pub proof fn lemma_run_complete(self)
        requires
            self.wf(),
            self.spec_next() == DriverAction::Done,
        ensures
            self.frames_done() == self.num_batches() * self.frames_per_file(),
    {
    }
}

} // verus!
