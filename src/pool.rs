//! The context pool: one rendering context per pixel format, either parked in
//! the pool or checked out by the render cycle that is using it.

use vstd::prelude::*;
use std::collections::HashMap;
use crate::error::RenderError;

verus! {

broadcast use vstd::std_specs::hash::group_hash_axioms;

/// The pool's entry for one format: its configuration, and its context while parked.
pub struct PoolSlot<C, K> {
    /// `Some` while the context is parked, `None` while it is checked out.
    pub context: Option<C>,
    pub config: K,
}

/// Rendering contexts keyed by format code. A format's context is either in
/// its slot (parked) or held by its one checked-out user, never both.
pub struct ContextPool<C, K> {
    slots: HashMap<i32, PoolSlot<C, K>>,
}

/// Which formats the pool knows, and whether each one's context is parked.
pub open spec fn parked_map<C, K>(m: Map<i32, PoolSlot<C, K>>) -> Map<i32, bool> {
    Map::new(|f: i32| m.contains_key(f), |f: i32| m[f].context is Some)
}

/// One call into the pool: a checkout or a park of a format's context.
#[derive(Debug, Clone, Copy, PartialEq, Eq, Structural)]
pub struct PoolOp {
    pub format: i32,
    pub checkout: bool,
}

/// The effect of a call on which formats are parked. A checkout of a parked
/// or unknown format leaves it checked out (a new context is created for an
/// unknown one); a checkout of a checked-out format changes nothing. A park of
/// a checked-out format parks it; any other park changes nothing.
pub open spec fn pool_step(st: Map<i32, bool>, op: PoolOp) -> Map<i32, bool> {
    if op.checkout {
        if st.contains_key(op.format) && !st[op.format] {
            st
        } else {
            st.insert(op.format, false)
        }
    } else {
        if st.contains_key(op.format) && !st[op.format] {
            st.insert(op.format, true)
        } else {
            st
        }
    }
}

/// The parked states after a run of calls, applied in order from `st`.
pub open spec fn run_ops(st: Map<i32, bool>, ops: Seq<PoolOp>) -> Map<i32, bool>
    decreases ops.len(),
{
    if ops.len() == 0 {
        st
    } else {
        pool_step(run_ops(st, ops.drop_last()), ops.last())
    }
}

/// Checkouts of `f` in `ops` not yet matched by a park.
pub open spec fn outstanding(ops: Seq<PoolOp>, f: i32) -> int
    decreases ops.len(),
{
    if ops.len() == 0 {
        0
    } else {
        outstanding(ops.drop_last(), f) + if ops.last().format != f {
            0int
        } else if ops.last().checkout {
            1int
        } else {
            -1int
        }
    }
}

/// Calls on the same format are serialized: in every prefix of the run each
/// format has at most one checkout not yet parked, and no park without one.
pub open spec fn serialized(ops: Seq<PoolOp>) -> bool {
    forall|n: int, f: i32| 0 <= n <= ops.len() ==> 0 <= #[trigger] outstanding(ops.take(n), f) <= 1
}

/// Every format the pool knows is parked.
pub open spec fn all_parked(st: Map<i32, bool>) -> bool {
    forall|f: i32| st.contains_key(f) ==> #[trigger] st[f]
}

/// The run calls on format `f`.
pub open spec fn touches(ops: Seq<PoolOp>, f: i32) -> bool {
    exists|i: int| 0 <= i < ops.len() && #[trigger] ops[i].format == f
}

proof fn lemma_run_prefix(st: Map<i32, bool>, ops: Seq<PoolOp>, n: int)
    requires
        all_parked(st),
        serialized(ops),
        0 <= n <= ops.len(),
    ensures
        forall|f: i32|
            #[trigger] run_ops(st, ops.take(n)).contains_key(f) <==> (st.contains_key(f) || touches(
                ops.take(n),
                f,
            )),
        forall|f: i32|
            #[trigger] outstanding(ops.take(n), f) == 1 ==> run_ops(st, ops.take(n)).contains_key(f)
                && !run_ops(st, ops.take(n))[f],
        forall|f: i32|
            outstanding(ops.take(n), f) == 0 && #[trigger] run_ops(st, ops.take(n)).contains_key(f)
                ==> run_ops(st, ops.take(n))[f],
    decreases n,
{
    if n == 0 {
        assert(ops.take(0) =~= Seq::<PoolOp>::empty());
        assert forall|f: i32| outstanding(ops.take(n), f) == 0 by {}
    } else {
        lemma_run_prefix(st, ops, n - 1);
        let pre = ops.take(n - 1);
        let cur = ops.take(n);
        assert(cur.drop_last() =~= pre);
        assert(cur.last() == ops[n - 1]);
        let op = ops[n - 1];
        let r0 = run_ops(st, pre);
        let r1 = run_ops(st, cur);
        assert(r1 == pool_step(r0, op));
        assert forall|f: i32| #[trigger] r1.contains_key(f) <==> (st.contains_key(f) || touches(cur, f)) by {
            if touches(cur, f) && !touches(pre, f) {
                let i = choose|i: int| 0 <= i < cur.len() && #[trigger] cur[i].format == f;
                if i < n - 1 {
                    assert(pre[i].format == f);
                }
            }
            if touches(pre, f) {
                let i = choose|i: int| 0 <= i < pre.len() && #[trigger] pre[i].format == f;
                assert(cur[i].format == f);
            }
            if op.format == f {
                assert(cur[n - 1].format == f);
                assert(0 <= outstanding(pre, f) <= 1);
                assert(0 <= outstanding(cur, f) <= 1);
            }
        }
        assert forall|f: i32| #[trigger] outstanding(cur, f) == 1 implies r1.contains_key(f) && !r1[f] by {
            assert(0 <= outstanding(pre, f) <= 1);
        }
        assert forall|f: i32| outstanding(cur, f) == 0 && #[trigger] r1.contains_key(f) implies r1[f] by {
            assert(0 <= outstanding(pre, f) <= 1);
        }
    }
}

/// For any run of checkouts and parks over any formats in which calls on the
/// same format are serialized, starting from a pool whose contexts are all
/// parked: no checkout meets a context that is already checked out, every
/// park returns a context to its slot, and when every checkout has been
/// parked again, each format that was ever checked out is in the pool and
/// parked. (The pool holds at most one context per format by construction:
/// a slot holds one optional context.)
pub proof fn lemma_serialized_calls_end_parked(st: Map<i32, bool>, ops: Seq<PoolOp>)
    requires
        all_parked(st),
        serialized(ops),
        forall|f: i32| #[trigger] outstanding(ops, f) == 0,
    ensures
        forall|i: int|
            0 <= i < ops.len() && #[trigger] ops[i].checkout ==> !(run_ops(st, ops.take(i)).contains_key(
                ops[i].format,
            ) && !run_ops(st, ops.take(i))[ops[i].format]),
        forall|i: int|
            0 <= i < ops.len() && !#[trigger] ops[i].checkout ==> run_ops(st, ops.take(i)).contains_key(
                ops[i].format,
            ) && !run_ops(st, ops.take(i))[ops[i].format],
        all_parked(run_ops(st, ops)),
        forall|f: i32| touches(ops, f) ==> #[trigger] run_ops(st, ops).contains_key(f),
{
    assert(ops.take(ops.len() as int) =~= ops);
    lemma_run_prefix(st, ops, ops.len() as int);
    assert forall|i: int| 0 <= i < ops.len() implies {
        let r = run_ops(st, ops.take(i));
        &&& #[trigger] ops[i].checkout ==> !(r.contains_key(ops[i].format) && !r[ops[i].format])
        &&& !ops[i].checkout ==> r.contains_key(ops[i].format) && !r[ops[i].format]
    } by {
        lemma_run_prefix(st, ops, i);
        let f = ops[i].format;
        let cur = ops.take(i + 1);
        assert(cur.drop_last() =~= ops.take(i));
        assert(cur.last() == ops[i]);
        assert(0 <= outstanding(cur, f) <= 1);
        assert(0 <= outstanding(ops.take(i), f) <= 1);
    }
    assert forall|f: i32| #[trigger] run_ops(st, ops).contains_key(f) implies run_ops(st, ops)[f] by {
        assert(outstanding(ops, f) == 0);
    }
}

impl<C, K> ContextPool<C, K> {
    /// The slots by format code.
    pub closed spec fn view(&self) -> Map<i32, PoolSlot<C, K>> {
        self.slots@
    }

    /// An empty pool.
    pub fn new() -> (p: Self)
        ensures
            p@ == Map::<i32, PoolSlot<C, K>>::empty(),
    {
        ContextPool { slots: HashMap::new() }
    }

    /// Whether the format's context is parked.
    pub fn is_parked(&self, format: i32) -> (r: bool)
        ensures
            r == (self@.contains_key(format) && self@[format].context is Some),
    {
        match self.slots.get(&format) {
            Some(slot) => slot.context.is_some(),
            None => false,
        }
    }

    /// Whether the format's context is checked out.
    pub fn is_checked_out(&self, format: i32) -> (r: bool)
        ensures
            r == (self@.contains_key(format) && self@[format].context is None),
    {
        match self.slots.get(&format) {
            Some(slot) => slot.context.is_none(),
            None => false,
        }
    }

    /// The configuration cached for the format, if the pool knows it.
    pub fn config(&self, format: i32) -> (r: Option<&K>)
        ensures
            match r {
                Some(k) => self@.contains_key(format) && *k == self@[format].config,
                None => !self@.contains_key(format),
            },
    {
        match self.slots.get(&format) {
            Some(slot) => Some(&slot.config),
            None => None,
        }
    }

    /// Takes the format's context out of the pool for one render cycle.
    ///
    /// A parked context is handed out. For a format the pool does not know
    /// yet, `create` is called once: its context is handed out and its
    /// configuration cached, or its error returned with the pool unchanged.
    /// A format whose context is already checked out gives `AlreadyCheckedOut`.
    pub fn checkout<F>(&mut self, format: i32, create: F) -> (r: Result<C, RenderError>)
        where
            F: FnOnce() -> Result<(C, K), RenderError>,
        requires
            !old(self)@.contains_key(format) ==> create.requires(()),
        ensures
            old(self)@.contains_key(format) ==> match old(self)@[format].context {
                Some(c) => {
                    &&& r == Ok::<C, RenderError>(c)
                    &&& final(self)@ == old(self)@.insert(
                        format,
                        PoolSlot { context: None, config: old(self)@[format].config },
                    )
                },
                None => {
                    &&& r == Err::<C, RenderError>(RenderError::AlreadyCheckedOut)
                    &&& final(self)@ == old(self)@
                },
            },
            !old(self)@.contains_key(format) ==> match r {
                Ok(c) => exists|k: K| {
                    &&& create.ensures((), Ok::<(C, K), RenderError>((c, k)))
                    &&& final(self)@ == old(self)@.insert(format, PoolSlot { context: None, config: k })
                },
                Err(e) => {
                    &&& create.ensures((), Err::<(C, K), RenderError>(e))
                    &&& final(self)@ == old(self)@
                },
            },
            r is Ok || old(self)@.contains_key(format) ==> parked_map(
                final(self)@,
            ) == pool_step(parked_map(old(self)@), PoolOp { format, checkout: true }),
    {
        match self.slots.remove(&format) {
            Some(slot) => {
                let PoolSlot { context, config } = slot;
                match context {
                    Some(c) => {
                        self.slots.insert(format, PoolSlot { context: None, config });
                        proof {
                            assert(self@ =~= old(self)@.insert(
                                format,
                                PoolSlot { context: None, config: old(self)@[format].config },
                            ));
                            assert(parked_map(self@) =~= pool_step(
                                parked_map(old(self)@),
                                PoolOp { format, checkout: true },
                            ));
                        }
                        Ok(c)
                    },
                    None => {
                        self.slots.insert(format, PoolSlot { context: None, config });
                        proof {
                            assert(self@ =~= old(self)@);
                            assert(parked_map(self@) =~= parked_map(old(self)@));
                        }
                        Err(RenderError::AlreadyCheckedOut)
                    },
                }
            },
            None => {
                proof {
                    assert(self@ =~= old(self)@);
                }
                match create() {
                    Ok((c, k)) => {
                        self.slots.insert(format, PoolSlot { context: None, config: k });
                        proof {
                            assert(parked_map(self@) =~= pool_step(
                                parked_map(old(self)@),
                                PoolOp { format, checkout: true },
                            ));
                        }
                        Ok(c)
                    },
                    Err(e) => Err(e),
                }
            },
        }
    }

    /// Puts a checked-out context back into its slot. Where the format has no
    /// context checked out the pool is left unchanged and the context handed back.
    pub fn park(&mut self, format: i32, context: C) -> (r: Result<(), C>)
        ensures
            old(self)@.contains_key(format) && old(self)@[format].context is None ==> {
                &&& r is Ok
                &&& final(self)@ == old(self)@.insert(
                    format,
                    PoolSlot { context: Some(context), config: old(self)@[format].config },
                )
            },
            !(old(self)@.contains_key(format) && old(self)@[format].context is None) ==> {
                &&& r == Err::<(), C>(context)
                &&& final(self)@ == old(self)@
            },
            parked_map(final(self)@) == pool_step(
                parked_map(old(self)@),
                PoolOp { format, checkout: false },
            ),
    {
        match self.slots.remove(&format) {
            Some(slot) => {
                let PoolSlot { context: held, config } = slot;
                match held {
                    None => {
                        self.slots.insert(format, PoolSlot { context: Some(context), config });
                        proof {
                            assert(parked_map(self@) =~= pool_step(
                                parked_map(old(self)@),
                                PoolOp { format, checkout: false },
                            ));
                        }
                        Ok(())
                    },
                    Some(h) => {
                        self.slots.insert(format, PoolSlot { context: Some(h), config });
                        proof {
                            assert(self@ =~= old(self)@);
                        }
                        Err(context)
                    },
                }
            },
            None => {
                proof {
                    assert(self@ =~= old(self)@);
                }
                Err(context)
            },
        }
    }
}

/// Creates a context by the primary profile, and only when that fails by the
/// fallback profile; `ContextCreationFailed` when both fail.
pub fn create_with_fallback<C, E, P, F>(primary: P, fallback: F) -> (r: Result<C, RenderError>)
    where
        P: FnOnce() -> Result<C, E>,
        F: FnOnce() -> Result<C, E>,
    requires
        primary.requires(()),
        fallback.requires(()),
    ensures
        match r {
            Ok(c) => primary.ensures((), Ok::<C, E>(c)) || (exists|e: E|
                primary.ensures((), Err::<C, E>(e))) && fallback.ensures((), Ok::<C, E>(c)),
            Err(x) => {
                &&& x == RenderError::ContextCreationFailed
                &&& exists|e: E| primary.ensures((), Err::<C, E>(e))
                &&& exists|e: E| fallback.ensures((), Err::<C, E>(e))
            },
        },
{
    match primary() {
        Ok(c) => Ok(c),
        Err(_) => match fallback() {
            Ok(c) => Ok(c),
            Err(_) => Err(RenderError::ContextCreationFailed),
        },
    }
}

} // verus!
