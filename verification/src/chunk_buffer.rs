//! Accumulates incoming sample batches of any size and hands them out again
//! as frames of a fixed length, first in, first out.
use vstd::prelude::*;

verus! {

/// The frames that a drain with frame length `frame_len` takes from the
/// pending samples `pending`: as many full frames as there are, in order.
pub open spec fn drained_frames(pending: Seq<u32>, frame_len: nat) -> Seq<Seq<u32>> {
    Seq::new(
        pending.len() / frame_len,
        |k: int| pending.subrange(k * frame_len as int, (k + 1) * frame_len as int),
    )
}

/// The samples that stay behind after such a drain: fewer than one frame.
pub open spec fn after_drain(pending: Seq<u32>, frame_len: nat) -> Seq<u32> {
    pending.subrange((pending.len() / frame_len) * frame_len as int, pending.len() as int)
}

/// Number of samples in a sequence of frames.
pub open spec fn total_samples(frames: Seq<Seq<u32>>) -> nat
    decreases frames.len(),
{
    if frames.len() == 0 {
        0
    } else {
        total_samples(frames.drop_last()) + frames.last().len()
    }
}

/// Pending samples at the capture rate.
pub struct ChunkBuffer {
    pending: Vec<u32>,
}

impl View for ChunkBuffer {
    type V = Seq<u32>;

    closed spec fn view(&self) -> Seq<u32> {
        self.pending@
    }
}

impl ChunkBuffer {
    /// An empty buffer.
    pub fn new() -> (buffer: Self)
        ensures
            buffer@ == Seq::<u32>::empty(),
    {
        ChunkBuffer { pending: Vec::new() }
    }

    /// Number of pending samples.
    pub fn len(&self) -> (n: usize)
        ensures
            n == self@.len(),
    {
        self.pending.len()
    }

    /// Appends `batch` behind the pending samples.
    pub fn push(&mut self, batch: &[u32])
        ensures
            final(self)@ == old(self)@ + batch@,
    {
        let ghost before = self.pending@;
        let n = batch.len();
        let mut i: usize = 0;
        while i < n
            invariant
                n == batch@.len(),
                i <= n,
                self.pending@ == before + batch@.subrange(0, i as int),
            decreases n - i,
        {
            self.pending.push(batch[i]);
            i += 1;
        }
        assert(batch@.subrange(0, n as int) == batch@);
    }

    /// Takes the first `frame_len` pending samples, if there are that many.
    pub fn pop_frame(&mut self, frame_len: usize) -> (frame: Option<Vec<u32>>)
        ensures
            old(self)@.len() >= frame_len ==> frame is Some && frame.unwrap()@ == old(self)@.subrange(
                0,
                frame_len as int,
            ) && final(self)@ == old(self)@.subrange(frame_len as int, old(self)@.len() as int),
            old(self)@.len() < frame_len ==> frame is None && final(self)@ == old(self)@,
    {
        if self.pending.len() < frame_len {
            return None;
        }
        let mut rest = self.pending.split_off(frame_len);
        std::mem::swap(&mut self.pending, &mut rest);
        Some(rest)
    }

    /// Takes every full frame of `frame_len` samples that is pending, oldest
    /// first, and keeps the remainder for the next push.
    pub fn drain_frames(&mut self, frame_len: usize) -> (frames: Vec<Vec<u32>>)
        requires
            frame_len > 0,
        ensures
            frames@.len() == old(self)@.len() / (frame_len as nat),
            forall|k: int|
                0 <= k < frames@.len() ==> (#[trigger] frames@[k])@ == drained_frames(
                    old(self)@,
                    frame_len as nat,
                )[k],
            forall|k: int| 0 <= k < frames@.len() ==> (#[trigger] frames@[k])@.len() == frame_len,
            final(self)@ == after_drain(old(self)@, frame_len as nat),
            final(self)@.len() < frame_len,
            frames@.len() * frame_len + final(self)@.len() == old(self)@.len(),
    {
        let ghost before = self@;
        let ghost step = frame_len as int;
        let mut frames: Vec<Vec<u32>> = Vec::new();
        assert(frames@.len() * step == 0) by (nonlinear_arith)
            requires
                frames@.len() == 0,
        ;
        assert(before.subrange(0, before.len() as int) == before);
        while self.pending.len() >= frame_len
            invariant
                frame_len > 0,
                step == frame_len as int,
                frames@.len() * step <= before.len(),
                self@ == before.subrange(frames@.len() * step, before.len() as int),
                forall|k: int|
                    0 <= k < frames@.len() ==> (#[trigger] frames@[k])@ == before.subrange(
                        k * step,
                        (k + 1) * step,
                    ),
                forall|k: int| 0 <= k < frames@.len() ==> (#[trigger] frames@[k])@.len() == step,
            decreases self@.len(),
        {
            let ghost done = frames@.len() as int;
            let ghost held = self@;
            assert((done + 1) * step == done * step + step) by (nonlinear_arith);
            let frame = self.pop_frame(frame_len);
            let frame = frame.unwrap();
            assert(frame@ == before.subrange(done * step, (done + 1) * step)) by {
                assert(held.subrange(0, step) == before.subrange(done * step, (done + 1) * step));
            }
            assert(self@ == before.subrange((done + 1) * step, before.len() as int)) by {
                assert(held.subrange(step, held.len() as int) == before.subrange(
                    (done + 1) * step,
                    before.len() as int,
                ));
            }
            frames.push(frame);
        }
        proof {
            let count = frames@.len() as int;
            let n = before.len() as int;
            assert(count == n / step) by (nonlinear_arith)
                requires
                    count * step <= n,
                    n - count * step < step,
                    step > 0,
                    count >= 0,
            ;
        }
        frames
    }
}

/// One drain neither loses nor makes samples: the frames emitted and the
/// remainder together hold as many samples as were pending.
pub proof fn lemma_drain_conserves(pending: Seq<u32>, frame_len: nat)
    requires
        frame_len > 0,
    ensures
        total_samples(drained_frames(pending, frame_len)) + after_drain(pending, frame_len).len()
            == pending.len(),
        total_samples(drained_frames(pending, frame_len)) == (pending.len() / frame_len)
            * frame_len,
{
    let frames = drained_frames(pending, frame_len);
    let count = (pending.len() / frame_len) as int;
    let step = frame_len as int;
    let n = pending.len() as int;
    assert(count * step <= n && count >= 0) by {
        vstd::arithmetic::div_mod::lemma_fundamental_div_mod(n, step);
        vstd::arithmetic::div_mod::lemma_mod_bound(n, step);
        vstd::arithmetic::mul::lemma_mul_is_commutative(count, step);
    }
    assert forall|k: int| 0 <= k < frames.len() implies (#[trigger] frames[k]).len()
        == frame_len by {
        assert((k + 1) * step == k * step + step) by (nonlinear_arith);
        assert(k * step >= 0 && (k + 1) * step <= count * step) by (nonlinear_arith)
            requires
                0 <= k < count,
                step > 0,
        ;
    }
    lemma_total_of_equal_frames(frames, frame_len);
}

/// Frames of one length `frame_len` hold `frames.len() * frame_len` samples.
pub proof fn lemma_total_of_equal_frames(frames: Seq<Seq<u32>>, frame_len: nat)
    requires
        forall|k: int| 0 <= k < frames.len() ==> (#[trigger] frames[k]).len() == frame_len,
    ensures
        total_samples(frames) == frames.len() * frame_len,
    decreases frames.len(),
{
    if frames.len() > 0 {
        lemma_total_of_equal_frames(frames.drop_last(), frame_len);
        assert(frames.len() * frame_len == (frames.len() - 1) * frame_len + frame_len)
            by (nonlinear_arith);
    }
}

/// An operation on a buffer, as a history records it.
pub enum BufferOp {
    /// A push of the given batch.
    Push { batch: Seq<u32> },
    /// A drain with the given frame length.
    Drain { frame_len: nat },
}

/// The pending samples of a buffer that started empty and saw `ops` in order.
pub open spec fn pending_after(ops: Seq<BufferOp>) -> Seq<u32>
    decreases ops.len(),
{
    if ops.len() == 0 {
        Seq::empty()
    } else {
        let earlier = pending_after(ops.drop_last());
        match ops.last() {
            BufferOp::Push { batch } => earlier + batch,
            BufferOp::Drain { frame_len } => after_drain(earlier, frame_len),
        }
    }
}

/// Number of samples that the pushes in `ops` brought.
pub open spec fn samples_pushed(ops: Seq<BufferOp>) -> nat
    decreases ops.len(),
{
    if ops.len() == 0 {
        0
    } else {
        samples_pushed(ops.drop_last()) + match ops.last() {
            BufferOp::Push { batch } => batch.len(),
            BufferOp::Drain { .. } => 0,
        }
    }
}

/// Number of samples in all the frames that the drains in `ops` emitted.
pub open spec fn samples_emitted(ops: Seq<BufferOp>) -> nat
    decreases ops.len(),
{
    if ops.len() == 0 {
        0
    } else {
        samples_emitted(ops.drop_last()) + match ops.last() {
            BufferOp::Push { .. } => 0,
            BufferOp::Drain { frame_len } => total_samples(
                drained_frames(pending_after(ops.drop_last()), frame_len),
            ),
        }
    }
}

/// Conservation: after any sequence of pushes and drains, the samples pushed
/// are the samples emitted in frames plus the samples still pending.
pub proof fn lemma_samples_conserved(ops: Seq<BufferOp>)
    requires
        forall|k: int|
            0 <= k < ops.len() ==> (#[trigger] ops[k] matches BufferOp::Drain { frame_len }
                ==> frame_len > 0),
    ensures
        samples_pushed(ops) == samples_emitted(ops) + pending_after(ops).len(),
    decreases ops.len(),
{
    if ops.len() > 0 {
        let earlier = ops.drop_last();
        assert forall|k: int| 0 <= k < earlier.len() implies (#[trigger] earlier[k] matches BufferOp::Drain {
            frame_len,
        } ==> frame_len > 0) by {
            assert(earlier[k] == ops[k]);
        }
        lemma_samples_conserved(earlier);
        match ops.last() {
            BufferOp::Push { batch } => {},
            BufferOp::Drain { frame_len } => {
                assert(ops[ops.len() - 1] == ops.last());
                lemma_drain_conserves(pending_after(earlier), frame_len);
            },
        }
    }
}

} // verus!
