//! The batch plan: which frames a pool of workers computes together, and the
//! order in which their buffers are written.
//!
//! Frames are handed out in batches of at most `threads` frames. A batch is
//! written out, slot by slot, before the next one starts, so the frames
//! reach the output in the order of their indices.

use vstd::prelude::*;

verus! {

/// Size of the batch that starts when `done` of `frames` frames have been
/// handed out: a full batch of `threads` while that many are left, else
/// what is left.
pub open spec fn batch_len(frames: nat, threads: nat, done: nat) -> nat {
    if frames - done >= threads {
        threads
    } else {
        (frames - done) as nat
    }
}

/// The indices of the frames in the order in which they are written, from
/// the batch that starts at `done` to the last one.
pub open spec fn write_order(frames: nat, threads: nat, done: nat) -> Seq<nat>
    decreases frames - done,
{
    if done >= frames || threads == 0 {
        Seq::empty()
    } else {
        let len = batch_len(frames, threads, done);
        Seq::new(len, |slot: int| (done + slot) as nat) + write_order(
            frames,
            threads,
            done + len,
        )
    }
}

/// The bytes that reach the output when the frames are written in the
/// given order; `buffers` holds each frame's bytes at its index.
pub open spec fn stream(buffers: Seq<Seq<u8>>, order: Seq<nat>) -> Seq<u8>
    decreases order.len(),
{
    if order.len() == 0 {
        Seq::empty()
    } else {
        stream(buffers, order.drop_last()) + buffers[order.last() as int]
    }
}

/// A run of consecutive frames that are computed at the same time.
#[derive(Clone, Copy, Debug, PartialEq, Eq)]
pub struct Batch {
    /// Index of the frame in the first slot.
    pub first: u32,
    /// Number of slots.
    pub len: u32,
}

/// The state of a run: how many frames there are, how many workers, and
/// how many frames have been handed out so far.
#[derive(Clone, Copy, Debug)]
pub struct BatchPlan {
    frames: u32,
    threads: u32,
    done: u32,
}

impl BatchPlan {
    /// Total number of frames of the run.
    pub closed spec fn frames(&self) -> nat {
        self.frames as nat
    }

    /// Largest number of frames computed at the same time.
    pub closed spec fn threads(&self) -> nat {
        self.threads as nat
    }

    /// Number of frames handed out so far.
    pub closed spec fn done(&self) -> nat {
        self.done as nat
    }

    /// The indices of the frames still to be written, in the order in
    /// which they will be.
    pub open spec fn remaining_order(&self) -> Seq<nat> {
        write_order(self.frames(), self.threads(), self.done())
    }

    /// A plan has at least one worker and never hands out more frames than
    /// the run has.
    pub closed spec fn wf(&self) -> bool {
        &&& self.threads > 0
        &&& self.done <= self.frames
    }

    /// What every well-formed plan has: a worker, and no more frames handed
    /// out than the run holds.
    pub proof fn lemma_wf_bounds(&self)
        requires
            self.wf(),
        ensures
            self.threads() > 0,
            self.done() <= self.frames(),
            self.frames() <= u32::MAX,
    {
    }

    /// A plan for `frames` frames on `threads` workers, with nothing handed
    /// out yet.
    pub fn new(frames: u32, threads: u32) -> (plan: BatchPlan)
        requires
            threads > 0,
        ensures
            plan.wf(),
            plan.frames() == frames,
            plan.threads() == threads,
            plan.done() == 0,
            plan.remaining_order() == write_order(frames as nat, threads as nat, 0),
    {
        BatchPlan { frames, threads, done: 0 }
    }

    /// Hands out the next batch, or `None` once every frame has been
    /// handed out.
    pub fn next_batch(&mut self) -> (batch: Option<Batch>)
        requires
            old(self).wf(),
        ensures
            final(self).wf(),
            final(self).frames() == old(self).frames(),
            final(self).threads() == old(self).threads(),
            batch is None <==> old(self).done() == old(self).frames(),
            batch is None ==> final(self).done() == old(self).done(),
            batch is None ==> old(self).remaining_order() == Seq::<nat>::empty(),
            batch matches Some(b) ==> {
                &&& b.first == old(self).done()
                &&& b.len == batch_len(old(self).frames(), old(self).threads(), old(self).done())
                &&& b.len > 0
                &&& final(self).done() == old(self).done() + b.len
                &&& old(self).remaining_order() == Seq::new(
                    b.len as nat,
                    |slot: int| (b.first + slot) as nat,
                ) + final(self).remaining_order()
            },
    {
        if self.done >= self.frames {
            return None;
        }
        let left: u32 = self.frames - self.done;
        let len: u32 = if left >= self.threads {
            self.threads
        } else {
            left
        };
        let first: u32 = self.done;
        self.done = self.done + len;
        Some(Batch { first, len })
    }
}

/// The run is cut into `frames / threads` full batches followed by one
/// batch of `frames % threads` frames: batch number `k` starts at frame
/// `k * threads`, and is full unless it is the last one.
pub proof fn lemma_batch_shape(frames: nat, threads: nat, k: nat)
    requires
        threads > 0,
        k <= frames / threads,
    ensures
        k * threads <= frames,
        k < frames / threads ==> batch_len(frames, threads, k * threads) == threads,
        k == frames / threads ==> batch_len(frames, threads, k * threads) == frames % threads,
        frames == (frames / threads) * threads + frames % threads,
        frames % threads < threads,
{
    let full = frames / threads;
    assert(frames == full * threads + frames % threads && frames % threads < threads)
        by (nonlinear_arith)
        requires
            threads > 0,
            full == frames / threads,
    ;
    assert(k * threads <= full * threads) by (nonlinear_arith)
        requires
            k <= full,
    ;
    if k < full {
        assert((k + 1) * threads <= full * threads) by (nonlinear_arith)
            requires
                k + 1 <= full,
        ;
        assert((k + 1) * threads == k * threads + threads) by (nonlinear_arith);
    }
}

/// No batch holds more frames than there are workers, and none runs past
/// the last frame.
pub proof fn lemma_batch_bounded(frames: nat, threads: nat, done: nat)
    requires
        done <= frames,
    ensures
        batch_len(frames, threads, done) <= threads,
        done + batch_len(frames, threads, done) <= frames,
{
}

/// From any point of the run on, the frames are written in the order of
/// their indices, each once.
pub proof fn lemma_write_order_from(frames: nat, threads: nat, done: nat)
    requires
        threads > 0,
        done <= frames,
    ensures
        write_order(frames, threads, done) == Seq::new(
            (frames - done) as nat,
            |i: int| (done + i) as nat,
        ),
    decreases frames - done,
{
    let rest = Seq::new((frames - done) as nat, |i: int| (done + i) as nat);
    if done < frames {
        let len = batch_len(frames, threads, done);
        lemma_write_order_from(frames, threads, done + len);
        assert(write_order(frames, threads, done) =~= rest);
    } else {
        assert(write_order(frames, threads, done) =~= rest);
    }
}

/// Whatever the number of workers, the frames are written in the order
/// 0, 1, 2, and so on to the last.
pub proof fn lemma_write_order_sequential(frames: nat, threads: nat)
    requires
        threads > 0,
    ensures
        write_order(frames, threads, 0) == Seq::new(frames, |i: int| i as nat),
{
    lemma_write_order_from(frames, threads, 0);
    assert(Seq::new(frames, |i: int| (0 + i) as nat) =~= Seq::new(frames, |i: int| i as nat));
}

/// The output does not depend on the number of workers: two runs over the
/// same frames write the same bytes.
pub proof fn lemma_stream_deterministic(
    buffers: Seq<Seq<u8>>,
    frames: nat,
    threads_a: nat,
    threads_b: nat,
)
    requires
        threads_a > 0,
        threads_b > 0,
    ensures
        write_order(frames, threads_a, 0) == write_order(frames, threads_b, 0),
        stream(buffers, write_order(frames, threads_a, 0)) == stream(
            buffers,
            write_order(frames, threads_b, 0),
        ),
{
    lemma_write_order_sequential(frames, threads_a);
    lemma_write_order_sequential(frames, threads_b);
}

} // verus!
