//! Buffer handoff: rendered buffers leave a bounded producer queue with their
//! readiness fences and reach the compositor in a frame transaction. The
//! coordinator forwards fences and never reads pixels or waits on a fence.

use vstd::prelude::*;

verus! {

/// A readiness fence, signaled when the GPU's writes to a buffer complete;
/// `ready_at` is the compositor-clock time at which it signals.
#[derive(Debug, Clone, Copy, PartialEq, Eq, Structural)]
pub struct Fence {
    pub ready_at: u64,
}

/// A rendered buffer with its readiness fence.
#[derive(Debug, Clone, Copy, PartialEq, Eq, Structural)]
pub struct AcquiredBuffer {
    pub buffer: u64,
    pub fence: Fence,
}

/// Completed buffers waiting to be handed off, oldest first, at most `depth` of them.
pub struct BufferQueue {
    depth: usize,
    completed: Vec<AcquiredBuffer>,
}

impl BufferQueue {
    /// The completed buffers, oldest first.
    pub closed spec fn view(&self) -> Seq<AcquiredBuffer> {
        self.completed@
    }

    /// How many completed buffers the queue holds at most.
    pub closed spec fn depth(&self) -> nat {
        self.depth as nat
    }

    pub open spec fn wf(&self) -> bool {
        1 <= self.depth() && self@.len() <= self.depth()
    }

    /// An empty queue of the given depth.
    pub fn new(depth: usize) -> (q: Self)
        requires
            depth >= 1,
        ensures
            q.wf(),
            q@ == Seq::<AcquiredBuffer>::empty(),
            q.depth() == depth,
    {
        BufferQueue { depth, completed: Vec::new() }
    }

    /// The number of completed buffers held.
    pub fn len(&self) -> (n: usize)
        ensures
            n == self@.len(),
    {
        self.completed.len()
    }

    /// Records a buffer the producer finished. When the queue is full its
    /// oldest buffer goes back to the producer and is returned.
    pub fn push_completed(&mut self, b: AcquiredBuffer) -> (r: Option<AcquiredBuffer>)
        requires
            old(self).wf(),
        ensures
            final(self).wf(),
            final(self).depth() == old(self).depth(),
            old(self)@.len() < old(self).depth() ==> r is None && final(self)@ == old(self)@.push(b),
            old(self)@.len() == old(self).depth() ==> r == Some(old(self)@[0]) && final(self)@
                == old(self)@.drop_first().push(b),
    {
        if self.completed.len() < self.depth {
            self.completed.push(b);
            None
        } else {
            let oldest = self.completed.remove(0);
            self.completed.push(b);
            proof {
                assert(self@ =~= old(self)@.drop_first().push(b));
            }
            Some(oldest)
        }
    }

    /// Takes the most recently completed buffer, without waiting on its fence,
    /// together with the older ones, which go back to the producer unshown.
    /// `None` when nothing has completed.
    pub fn acquire_latest(&mut self) -> (r: Option<(AcquiredBuffer, Vec<AcquiredBuffer>)>)
        requires
            old(self).wf(),
        ensures
            final(self).wf(),
            final(self).depth() == old(self).depth(),
            old(self)@.len() == 0 ==> r is None && final(self)@ == old(self)@,
            old(self)@.len() > 0 ==> {
                &&& r matches Some((b, released)) && b == old(self)@.last() && released@
                    == old(self)@.drop_last()
                &&& final(self)@ == Seq::<AcquiredBuffer>::empty()
            },
    {
        match self.completed.pop() {
            Some(latest) => {
                let mut released: Vec<AcquiredBuffer> = Vec::new();
                std::mem::swap(&mut released, &mut self.completed);
                Some((latest, released))
            },
            None => None,
        }
    }
}

/// A crop rectangle in buffer coordinates.
#[derive(Debug, Clone, Copy, PartialEq, Eq, Structural)]
pub struct Rect {
    pub left: i32,
    pub top: i32,
    pub right: i32,
    pub bottom: i32,
}

/// How the buffer is rotated or flipped onto the target.
#[derive(Debug, Clone, Copy, PartialEq, Eq, Structural)]
pub enum Transform {
    Identity,
    FlipHorizontal,
    FlipVertical,
    Rotate90,
    Rotate180,
    Rotate270,
}

/// One presentation operation on one compositor surface.
#[derive(Debug, Clone, Copy, PartialEq, Eq, Structural)]
pub enum TxOp {
    Buffer { target: u64, buffer: AcquiredBuffer },
    Crop { target: u64, rect: Rect },
    Position { target: u64, x: i32, y: i32 },
    Size { target: u64, width: u32, height: u32 },
    Transform { target: u64, transform: Transform },
    Alpha { target: u64, alpha: u8 },
    Visibility { target: u64, visible: bool },
}

/// The latest time at which a fence of a buffer attached by `ops` signals (0 when none is).
pub open spec fn ready_time(ops: Seq<TxOp>) -> u64
    decreases ops.len(),
{
    if ops.len() == 0 {
        0
    } else {
        let rest = ready_time(ops.drop_last());
        match ops.last() {
            TxOp::Buffer { buffer, .. } => if buffer.fence.ready_at > rest {
                buffer.fence.ready_at
            } else {
                rest
            },
            _ => rest,
        }
    }
}

/// Whether `ops` attach a buffer to some target.
pub open spec fn attaches_buffer(ops: Seq<TxOp>) -> bool {
    exists|i: int| 0 <= i < ops.len() && #[trigger] ops[i] is Buffer
}

/// Whether a transaction with operations `ops` may be reported complete at
/// time `t`: one that attaches buffers only strictly after the last of their
/// fences signaled, one without buffers at any time.
pub open spec fn may_complete_at(ops: Seq<TxOp>, t: u64) -> bool {
    attaches_buffer(ops) ==> ready_time(ops) < t
}

/// A batch of presentation operations, built up and then applied once.
pub struct FrameTransaction {
    ops: Vec<TxOp>,
}

impl FrameTransaction {
    /// The operations in the order they were added.
    pub closed spec fn view(&self) -> Seq<TxOp> {
        self.ops@
    }

    /// An empty transaction.
    pub fn new() -> (t: Self)
        ensures
            t@ == Seq::<TxOp>::empty(),
    {
        FrameTransaction { ops: Vec::new() }
    }

    /// Adds an operation.
    pub fn push(&mut self, op: TxOp)
        ensures
            final(self)@ == old(self)@.push(op),
    {
        self.ops.push(op);
    }

    /// Attaches a buffer, with its fence, to a target.
    pub fn set_buffer(&mut self, target: u64, buffer: AcquiredBuffer)
        ensures
            final(self)@ == old(self)@.push(TxOp::Buffer { target, buffer }),
    {
        self.ops.push(TxOp::Buffer { target, buffer });
    }

    /// Crops the target's buffer.
    pub fn set_crop(&mut self, target: u64, rect: Rect)
        ensures
            final(self)@ == old(self)@.push(TxOp::Crop { target, rect }),
    {
        self.ops.push(TxOp::Crop { target, rect });
    }

    /// Places the target at a position.
    pub fn set_position(&mut self, target: u64, x: i32, y: i32)
        ensures
            final(self)@ == old(self)@.push(TxOp::Position { target, x, y }),
    {
        self.ops.push(TxOp::Position { target, x, y });
    }

    /// Scales the target to a destination size.
    pub fn set_size(&mut self, target: u64, width: u32, height: u32)
        ensures
            final(self)@ == old(self)@.push(TxOp::Size { target, width, height }),
    {
        self.ops.push(TxOp::Size { target, width, height });
    }

    /// Rotates or flips the target's buffer.
    pub fn set_transform(&mut self, target: u64, transform: Transform)
        ensures
            final(self)@ == old(self)@.push(TxOp::Transform { target, transform }),
    {
        self.ops.push(TxOp::Transform { target, transform });
    }

    /// Sets the target's opacity (255 is opaque).
    pub fn set_alpha(&mut self, target: u64, alpha: u8)
        ensures
            final(self)@ == old(self)@.push(TxOp::Alpha { target, alpha }),
    {
        self.ops.push(TxOp::Alpha { target, alpha });
    }

    /// Shows or hides the target.
    pub fn set_visibility(&mut self, target: u64, visible: bool)
        ensures
            final(self)@ == old(self)@.push(TxOp::Visibility { target, visible }),
    {
        self.ops.push(TxOp::Visibility { target, visible });
    }

    /// Submits the transaction at time `now`; it cannot be changed afterwards.
    /// The applied transaction is ready once every attached buffer's fence
    /// has signaled.
    pub fn apply(self, now: u64) -> (a: AppliedTransaction)
        ensures
            a.ops() == self@,
            a.applied_at() == now,
            a.ready_at() == ready_time(self@),
            a.has_buffer() == attaches_buffer(self@),
            !a.completed(),
    {
        let mut ready: u64 = 0;
        let mut has_buffer = false;
        let mut i: usize = 0;
        while i < self.ops.len()
            invariant
                0 <= i <= self.ops@.len(),
                ready == ready_time(self.ops@.take(i as int)),
                has_buffer == attaches_buffer(self.ops@.take(i as int)),
            decreases self.ops@.len() - i,
        {
            let ghost pre = self.ops@.take(i as int);
            let ghost cur = self.ops@.take(i + 1);
            proof {
                assert(cur.drop_last() =~= pre);
                assert(cur.last() == self.ops@[i as int]);
                assert forall|j: int| 0 <= j < pre.len() implies #[trigger] pre[j] == cur[j] by {}
            }
            match self.ops[i] {
                TxOp::Buffer { buffer, .. } => {
                    if buffer.fence.ready_at > ready {
                        ready = buffer.fence.ready_at;
                    }
                    has_buffer = true;
                    proof {
                        assert(cur[i as int] is Buffer);
                    }
                },
                _ => {
                    proof {
                        if attaches_buffer(cur) {
                            let j = choose|j: int| 0 <= j < cur.len() && #[trigger] cur[j] is Buffer;
                            assert(j < i);
                            assert(pre[j] is Buffer);
                        }
                    }
                },
            }
            i = i + 1;
        }
        proof {
            assert(self.ops@.take(self.ops@.len() as int) =~= self.ops@);
        }
        AppliedTransaction { ops: self.ops, applied_at: now, ready_at: ready, has_buffer, completed: false }
    }
}

/// What the completion callback is told: when the transaction was applied,
/// when its buffers were ready, and when the compositor presented it.
#[derive(Debug, Clone, Copy, PartialEq, Eq, Structural)]
pub struct CompletionReport {
    pub requested_at: u64,
    pub ready_at: u64,
    pub presented_at: u64,
}

/// A transaction handed to the compositor, waiting for its completion.
pub struct AppliedTransaction {
    ops: Vec<TxOp>,
    applied_at: u64,
    ready_at: u64,
    has_buffer: bool,
    completed: bool,
}

impl AppliedTransaction {
    pub closed spec fn ops(&self) -> Seq<TxOp> {
        self.ops@
    }

    pub closed spec fn applied_at(&self) -> u64 {
        self.applied_at
    }

    pub closed spec fn ready_at(&self) -> u64 {
        self.ready_at
    }

    pub closed spec fn has_buffer(&self) -> bool {
        self.has_buffer
    }

    pub closed spec fn completed(&self) -> bool {
        self.completed
    }

    /// The operations the compositor is to carry out.
    pub fn operations(&self) -> (r: &Vec<TxOp>)
        ensures
            r@ == self.ops(),
    {
        &self.ops
    }

    /// Whether the completion has been reported.
    pub fn is_completed(&self) -> (r: bool)
        ensures
            r == self.completed(),
    {
        self.completed
    }

    /// Handles the compositor's report that it latched the transaction at
    /// `latch_time`. The completion fires once, and, where the transaction
    /// attaches buffers, only strictly after the last of their fences
    /// signaled; otherwise nothing is reported.
    pub fn on_complete(&mut self, latch_time: u64) -> (r: Option<CompletionReport>)
        ensures
            final(self).ops() == old(self).ops(),
            final(self).applied_at() == old(self).applied_at(),
            final(self).ready_at() == old(self).ready_at(),
            final(self).has_buffer() == old(self).has_buffer(),
            !old(self).completed() && (!old(self).has_buffer() || old(self).ready_at() < latch_time)
                ==> {
                &&& r == Some(
                    CompletionReport {
                        requested_at: old(self).applied_at(),
                        ready_at: old(self).ready_at(),
                        presented_at: latch_time,
                    },
                )
                &&& final(self).completed()
            },
            old(self).completed() || (old(self).has_buffer() && latch_time <= old(self).ready_at())
                ==> {
                &&& r is None
                &&& final(self).completed() == old(self).completed()
            },
    {
        if !self.completed && (!self.has_buffer || self.ready_at < latch_time) {
            self.completed = true;
            Some(
                CompletionReport {
                    requested_at: self.applied_at,
                    ready_at: self.ready_at,
                    presented_at: latch_time,
                },
            )
        } else {
            None
        }
    }
}

/// Operations attaching buffer `b` to each target, in order.
pub open spec fn attach_all(targets: Seq<u64>, b: AcquiredBuffer) -> Seq<TxOp> {
    targets.map_values(|t: u64| TxOp::Buffer { target: t, buffer: b })
}

/// Publishes the most recently rendered buffer: takes it from the queue
/// without waiting on its fence, attaches it with the fence to every target
/// after the operations already in `tx`, and applies the transaction at `now`.
/// Returns the applied transaction and the older buffers, which go back to
/// the producer. When nothing has been rendered, `tx` is handed back unapplied.
pub fn publish_latest(
    queue: &mut BufferQueue,
    tx: FrameTransaction,
    targets: &Vec<u64>,
    now: u64,
) -> (r: Result<(AppliedTransaction, Vec<AcquiredBuffer>), FrameTransaction>)
    requires
        old(queue).wf(),
    ensures
        final(queue).wf(),
        final(queue).depth() == old(queue).depth(),
        old(queue)@.len() == 0 ==> (r matches Err(t) && t@ == tx@) && final(queue)@ == old(queue)@,
        old(queue)@.len() > 0 ==> {
            &&& r matches Ok((a, released)) && {
                &&& a.ops() == tx@ + attach_all(targets@, old(queue)@.last())
                &&& a.applied_at() == now
                &&& a.ready_at() == ready_time(a.ops())
                &&& a.has_buffer() == attaches_buffer(a.ops())
                &&& !a.completed()
                &&& released@ == old(queue)@.drop_last()
            }
            &&& final(queue)@ == Seq::<AcquiredBuffer>::empty()
        },
{
    match queue.acquire_latest() {
        None => Err(tx),
        Some((latest, released)) => {
            let mut tx = tx;
            let ghost start = tx@;
            let mut i: usize = 0;
            while i < targets.len()
                invariant
                    0 <= i <= targets@.len(),
                    tx@ == start + attach_all(targets@.take(i as int), latest),
                decreases targets@.len() - i,
            {
                tx.set_buffer(targets[i], latest);
                proof {
                    assert(attach_all(targets@.take(i + 1), latest) =~= attach_all(
                        targets@.take(i as int),
                        latest,
                    ).push(TxOp::Buffer { target: targets@[i as int], buffer: latest }));
                    assert(tx@ =~= start + attach_all(targets@.take(i + 1), latest));
                }
                i = i + 1;
            }
            proof {
                assert(targets@.take(targets@.len() as int) =~= targets@);
            }
            Ok((tx.apply(now), released))
        },
    }
}

/// A completion never comes before readiness: when a transaction may be
/// reported complete at some time, every buffer it attached had its fence
/// signaled strictly before then.
pub proof fn lemma_completion_after_fences(ops: Seq<TxOp>, presented_at: u64)
    requires
        may_complete_at(ops, presented_at),
    ensures
        forall|i: int|
            0 <= i < ops.len() ==> (#[trigger] ops[i] matches TxOp::Buffer { buffer, .. }
                ==> buffer.fence.ready_at < presented_at),
{
    assert forall|i: int| 0 <= i < ops.len() implies (#[trigger] ops[i] matches TxOp::Buffer { buffer, .. }
        ==> buffer.fence.ready_at < presented_at) by {
        if ops[i] is Buffer {
            assert(attaches_buffer(ops));
            lemma_fence_within_ready_time(ops, i);
        }
    }
}

proof fn lemma_fence_within_ready_time(ops: Seq<TxOp>, i: int)
    requires
        0 <= i < ops.len(),
    ensures
        ops[i] matches TxOp::Buffer { buffer, .. } ==> buffer.fence.ready_at <= ready_time(ops),
    decreases ops.len(),
{
    if i < ops.len() - 1 {
        lemma_fence_within_ready_time(ops.drop_last(), i);
        assert(ops[i] == ops.drop_last()[i]);
    }
}

} // verus!
