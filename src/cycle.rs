//! The render cycle: check a context out, bind it, resize, draw, present,
//! unbind and park it again, with one recovery path that parks the context
//! whichever stage failed.

use vstd::prelude::*;
use crate::error::RenderError;
use crate::pool::{ContextPool, PoolSlot};

verus! {

/// The outside work of one frame, in the order the cycle performs it.
#[derive(Debug, Clone, Copy, PartialEq, Eq, Structural)]
pub enum Stage {
    /// Make the context current on the target surface.
    Bind,
    /// Tell the renderer the surface's current size (every frame).
    Resize,
    /// Issue the frame's drawing commands.
    Draw,
    /// Swap the surface's buffers.
    Present,
    /// Release the context from the thread.
    Unbind,
}

/// The stage performed at position `i` of a frame, before the unbind.
pub open spec fn frame_stage(i: int) -> Stage {
    if i == 0 {
        Stage::Bind
    } else if i == 1 {
        Stage::Resize
    } else if i == 2 {
        Stage::Draw
    } else {
        Stage::Present
    }
}

/// The error a failed stage is reported as.
pub open spec fn stage_error(s: Stage) -> RenderError {
    match s {
        Stage::Bind => RenderError::BindFailed,
        Stage::Resize => RenderError::ResizeFailed,
        Stage::Draw => RenderError::DrawFailed,
        Stage::Present => RenderError::PresentFailed,
        Stage::Unbind => RenderError::UnbindFailed,
    }
}

/// The outcomes of the stages before the unbind that a frame performed: the
/// stages run in order and stop at the first failure.
pub open spec fn is_frame_trace(outs: Seq<bool>) -> bool {
    &&& 1 <= outs.len() <= 4
    &&& forall|i: int| 0 <= i < outs.len() - 1 ==> #[trigger] outs[i]
    &&& outs.len() < 4 ==> !outs.last()
}

/// What a frame with these outcomes returns: the first failed stage's error,
/// else `UnbindFailed` when the unbind failed, else success.
pub open spec fn frame_result(outs: Seq<bool>, unbound: bool) -> Result<(), RenderError> {
    if !outs.last() {
        Err(stage_error(frame_stage(outs.len() - 1)))
    } else if !unbound {
        Err(RenderError::UnbindFailed)
    } else {
        Ok(())
    }
}

/// `step` ran one frame on context `c` and the frame returned `r`: the stages
/// before the unbind gave the outcomes of a frame trace, the unbind ran, and
/// `r` is what those outcomes make.
pub open spec fn frame_ran<C, Step: Fn(&C, Stage) -> bool>(
    step: Step,
    c: &C,
    r: Result<(), RenderError>,
) -> bool {
    exists|outs: Seq<bool>, unbound: bool|
        {
            &&& is_frame_trace(outs)
            &&& forall|i: int| 0 <= i < outs.len() ==> step.ensures((c, frame_stage(i)), #[trigger] outs[i])
            &&& step.ensures((c, Stage::Unbind), unbound)
            &&& r == frame_result(outs, unbound)
        }
}

/// Where a frame stands between checkout and park. A frame starts `Idle`
/// with its context checked out, moves one phase per successful stage, and
/// on any failure goes to `Failed`, from where, as from `Presented`, the
/// unbind and park bring it back to `Idle`.
#[derive(Debug, Clone, Copy, PartialEq, Eq, Structural)]
pub enum Phase {
    Idle,
    ContextBound,
    Resized,
    Drawn,
    Presented,
    Failed(RenderError),
}

/// The stage performed to leave a phase.
pub open spec fn phase_stage(p: Phase) -> Stage {
    match p {
        Phase::Idle => Stage::Bind,
        Phase::ContextBound => Stage::Resize,
        Phase::Resized => Stage::Draw,
        Phase::Drawn => Stage::Present,
        _ => Stage::Unbind,
    }
}

/// The phase after the stage that leaves `p` succeeded (`ok`) or failed.
pub open spec fn phase_after(p: Phase, ok: bool) -> Phase {
    match p {
        Phase::Presented => Phase::Idle,
        Phase::Failed(_) => Phase::Idle,
        _ => if ok {
            match p {
                Phase::Idle => Phase::ContextBound,
                Phase::ContextBound => Phase::Resized,
                Phase::Resized => Phase::Drawn,
                _ => Phase::Presented,
            }
        } else {
            Phase::Failed(stage_error(phase_stage(p)))
        },
    }
}

/// The phase reached after `k` successful stages.
pub open spec fn progress_phase(k: int) -> Phase {
    if k == 0 {
        Phase::Idle
    } else if k == 1 {
        Phase::ContextBound
    } else if k == 2 {
        Phase::Resized
    } else if k == 3 {
        Phase::Drawn
    } else {
        Phase::Presented
    }
}

/// The phases reached from `p` by stage outcomes `outs`, in order.
pub open spec fn run_phases(p: Phase, outs: Seq<bool>) -> Phase
    decreases outs.len(),
{
    if outs.len() == 0 {
        p
    } else {
        phase_after(run_phases(p, outs.drop_last()), outs.last())
    }
}

impl Phase {
    /// Whether a stage before the unbind is still to be performed.
    pub fn in_progress(&self) -> (r: bool)
        ensures
            r == (*self is Idle || *self is ContextBound || *self is Resized || *self is Drawn),
    {
        match self {
            Phase::Idle | Phase::ContextBound | Phase::Resized | Phase::Drawn => true,
            _ => false,
        }
    }

    /// The stage performed to leave this phase.
    pub fn next_stage(&self) -> (s: Stage)
        ensures
            s == phase_stage(*self),
    {
        match self {
            Phase::Idle => Stage::Bind,
            Phase::ContextBound => Stage::Resize,
            Phase::Resized => Stage::Draw,
            Phase::Drawn => Stage::Present,
            _ => Stage::Unbind,
        }
    }

    /// The phase after the stage that leaves this one succeeded (`ok`) or failed.
    pub fn advance(self, ok: bool) -> (q: Phase)
        ensures
            q == phase_after(self, ok),
    {
        match self {
            Phase::Presented | Phase::Failed(_) => Phase::Idle,
            Phase::Idle => if ok {
                Phase::ContextBound
            } else {
                Phase::Failed(RenderError::BindFailed)
            },
            Phase::ContextBound => if ok {
                Phase::Resized
            } else {
                Phase::Failed(RenderError::ResizeFailed)
            },
            Phase::Resized => if ok {
                Phase::Drawn
            } else {
                Phase::Failed(RenderError::DrawFailed)
            },
            Phase::Drawn => if ok {
                Phase::Presented
            } else {
                Phase::Failed(RenderError::PresentFailed)
            },
        }
    }
}

/// A frame has one recovery path: whatever the stages report, a frame that
/// starts `Idle` is `Presented` or `Failed` after at most four stages, the
/// next stage is then the unbind, and after it the frame is `Idle` again.
/// Before that, every failure leads straight to `Failed` with the failed
/// stage's error.
pub proof fn lemma_frame_always_releases(outs: Seq<bool>)
    requires
        outs.len() == 4,
    ensures
        exists|k: int|
            1 <= k <= 4 && {
                let q = run_phases(Phase::Idle, #[trigger] outs.take(k));
                &&& q is Presented || q is Failed
                &&& phase_stage(q) == Stage::Unbind
                &&& forall|ok: bool| phase_after(q, ok) == Phase::Idle
                &&& q is Failed ==> q == Phase::Failed(stage_error(frame_stage(k - 1)))
            },
{
    let k = if !outs[0] {
        1int
    } else if !outs[1] {
        2int
    } else if !outs[2] {
        3int
    } else {
        4int
    };
    lemma_run_progress(outs, k);
    let q = run_phases(Phase::Idle, outs.take(k));
    assert(q is Presented || q is Failed);
}

proof fn lemma_run_progress(outs: Seq<bool>, k: int)
    requires
        0 <= k <= outs.len(),
        k <= 4,
        forall|j: int| 0 <= j < k - 1 ==> #[trigger] outs[j],
    ensures
        k >= 1 && !outs[k - 1] ==> run_phases(Phase::Idle, outs.take(k)) == Phase::Failed(
            stage_error(frame_stage(k - 1)),
        ),
        k == 0 || outs[k - 1] ==> run_phases(Phase::Idle, outs.take(k)) == progress_phase(k),
    decreases k,
{
    if k > 0 {
        lemma_run_progress(outs, k - 1);
        assert(outs.take(k).drop_last() =~= outs.take(k - 1));
        if k >= 2 {
            assert(outs[k - 2]);
        }
    } else {
        assert(outs.take(0) =~= Seq::<bool>::empty());
    }
}

/// Renders one frame with the context of `format`.
///
/// The context is checked out of the pool (created through `create` on first
/// use of the format); configuration and context errors end the cycle before
/// anything is bound. Then `step` performs bind, resize, draw and present in
/// order, stopping at the first that fails, and always the unbind; the
/// context is parked again on every path. The result is the first failed
/// stage's error, `UnbindFailed` when only the unbind failed, or success.
pub fn render_cycle<C, K, Create, Step>(
    pool: &mut ContextPool<C, K>,
    format: i32,
    create: Create,
    step: Step,
) -> (r: Result<(), RenderError>)
    where
        Create: FnOnce() -> Result<(C, K), RenderError>,
        Step: Fn(&C, Stage) -> bool,
    requires
        !old(pool)@.contains_key(format) ==> create.requires(()),
        forall|c: &C, s: Stage| step.requires((c, s)),
    ensures
        old(pool)@.contains_key(format) && old(pool)@[format].context is None ==> {
            &&& r == Err::<(), RenderError>(RenderError::AlreadyCheckedOut)
            &&& final(pool)@ == old(pool)@
        },
        old(pool)@.contains_key(format) && old(pool)@[format].context is Some ==> {
            &&& final(pool)@ == old(pool)@
            &&& frame_ran(step, &old(pool)@[format].context->0, r)
        },
        !old(pool)@.contains_key(format) ==> {
            ||| r is Err && create.ensures((), Err::<(C, K), RenderError>(r->Err_0)) && final(pool)@ == old(pool)@
            ||| exists|c: C, k: K|
                {
                    &&& create.ensures((), Ok::<(C, K), RenderError>((c, k)))
                    &&& final(pool)@ == old(pool)@.insert(
                        format,
                        PoolSlot { context: Some(c), config: k },
                    )
                    &&& frame_ran(step, &c, r)
                }
        },
{
    let ctx = match pool.checkout(format, create) {
        Ok(c) => c,
        Err(e) => {
            return Err(e);
        },
    };
    let ghost k = pool@[format].config;
    let mut phase = Phase::Idle;
    let ghost mut outs: Seq<bool> = Seq::empty();
    while phase.in_progress()
        invariant
            forall|c: &C, s: Stage| step.requires((c, s)),
            outs.len() <= 4,
            forall|j: int|
                0 <= j < outs.len() ==> step.ensures((&ctx, frame_stage(j)), #[trigger] outs[j]),
            forall|j: int| 0 <= j < outs.len() - 1 ==> #[trigger] outs[j],
            phase == run_phases(Phase::Idle, outs),
            phase is Idle || phase is ContextBound || phase is Resized || phase is Drawn ==> {
                &&& outs.len() < 4
                &&& phase == progress_phase(outs.len() as int)
                &&& forall|j: int| 0 <= j < outs.len() ==> #[trigger] outs[j]
            },
            phase is Presented ==> outs.len() == 4 && outs.last(),
            phase is Failed ==> {
                &&& 1 <= outs.len()
                &&& !outs.last()
                &&& phase == Phase::Failed(stage_error(frame_stage(outs.len() - 1)))
            },
        decreases 4 - outs.len(),
    {
        let s = phase.next_stage();
        let ok = step(&ctx, s);
        proof {
            let prev = outs;
            outs = outs.push(ok);
            assert(outs.drop_last() =~= prev);
        }
        phase = phase.advance(ok);
    }
    assert(is_frame_trace(outs));
    let unbound = step(&ctx, Stage::Unbind);
    let result = match phase {
        Phase::Failed(e) => Err(e),
        _ => if unbound {
            Ok(())
        } else {
            Err(RenderError::UnbindFailed)
        },
    };
    assert(result == frame_result(outs, unbound));
    assert(frame_ran(step, &ctx, result));
    match pool.park(format, ctx) {
        Ok(()) => {},
        Err(_) => {
            proof {
                assert(false);
            }
        },
    }
    proof {
        if !old(pool)@.contains_key(format) {
            assert(pool@ =~= old(pool)@.insert(format, PoolSlot { context: Some(ctx), config: k }));
        } else {
            assert(pool@ =~= old(pool)@);
        }
    }
    result
}

} // verus!
