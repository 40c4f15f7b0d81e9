//! Refresh subscriptions: persistent refresh-rate-change subscriptions that
//! stop for good once unregistered, and one-shot callbacks for the next
//! display refresh pulse.

use vstd::prelude::*;

verus! {

/// The handle of a refresh-rate subscription; unregistering consumes it.
#[derive(Debug, PartialEq, Eq, Structural)]
pub struct SubscriptionHandle {
    id: u64,
}

impl SubscriptionHandle {
    pub closed spec fn spec_id(&self) -> u64 {
        self.id
    }

    /// The subscription's identifier, as dispatches name it.
    pub fn id(&self) -> (r: u64)
        ensures
            r == self.spec_id(),
    {
        self.id
    }
}

/// Who is to be told of refresh events. Identifiers are handed out in
/// increasing order and never reused; each active subscription appears once.
/// Callers serialize access (one `&mut`), so an unregistration and a
/// delivery never overlap.
pub struct VsyncHub {
    next_id: u64,
    refresh: Vec<u64>,
    frame: Vec<u64>,
}

/// Every identifier in `s` is below `next` and appears once.
pub open spec fn ids_below(s: Seq<u64>, next: u64) -> bool {
    &&& forall|i: int| 0 <= i < s.len() ==> #[trigger] s[i] < next
    &&& s.no_duplicates()
}

impl VsyncHub {
    /// The next identifier to hand out.
    pub closed spec fn next_id(&self) -> u64 {
        self.next_id
    }

    /// Active refresh-rate subscriptions, in registration order.
    pub closed spec fn refresh_subs(&self) -> Seq<u64> {
        self.refresh@
    }

    /// One-shot callbacks waiting for the next pulse, in posting order.
    pub closed spec fn frame_waiters(&self) -> Seq<u64> {
        self.frame@
    }

    pub open spec fn wf(&self) -> bool {
        &&& ids_below(self.refresh_subs(), self.next_id())
        &&& ids_below(self.frame_waiters(), self.next_id())
    }

    /// A hub with no subscriptions.
    pub fn new() -> (h: Self)
        ensures
            h.wf(),
            h.next_id() == 0,
            h.refresh_subs() == Seq::<u64>::empty(),
            h.frame_waiters() == Seq::<u64>::empty(),
    {
        VsyncHub { next_id: 0, refresh: Vec::new(), frame: Vec::new() }
    }

    /// Subscribes to refresh-rate changes until the handle is unregistered.
    /// `None` once every identifier has been handed out.
    pub fn register_refresh_rate_changed(&mut self) -> (r: Option<SubscriptionHandle>)
        requires
            old(self).wf(),
        ensures
            final(self).wf(),
            final(self).frame_waiters() == old(self).frame_waiters(),
            old(self).next_id() < u64::MAX ==> {
                &&& r matches Some(h) && h.spec_id() == old(self).next_id()
                &&& final(self).refresh_subs() == old(self).refresh_subs().push(old(self).next_id())
                &&& final(self).next_id() == old(self).next_id() + 1
            },
            old(self).next_id() == u64::MAX ==> r is None && final(self).refresh_subs()
                == old(self).refresh_subs() && final(self).next_id() == old(self).next_id(),
    {
        if self.next_id == u64::MAX {
            return None;
        }
        let id = self.next_id;
        self.refresh.push(id);
        self.next_id = id + 1;
        proof {
            assert forall|i: int| 0 <= i < self.refresh@.len() implies #[trigger] self.refresh@[i]
                < self.next_id by {
                if i < old(self).refresh@.len() {
                    assert(self.refresh@[i] == old(self).refresh@[i]);
                }
            }
            assert forall|i: int, j: int|
                0 <= i < self.refresh@.len() && 0 <= j < self.refresh@.len() && i != j implies self.refresh@[i]
                != self.refresh@[j] by {
                if i < old(self).refresh@.len() && j < old(self).refresh@.len() {
                } else if i < old(self).refresh@.len() {
                    assert(old(self).refresh@[i] < id);
                } else if j < old(self).refresh@.len() {
                    assert(old(self).refresh@[j] < id);
                }
            }
        }
        Some(SubscriptionHandle { id })
    }

    /// Ends a subscription: from now on no refresh-rate change is delivered to
    /// it. Returns whether it was active.
    pub fn unregister(&mut self, handle: SubscriptionHandle) -> (r: bool)
        requires
            old(self).wf(),
        ensures
            final(self).wf(),
            final(self).next_id() == old(self).next_id(),
            final(self).frame_waiters() == old(self).frame_waiters(),
            r == old(self).refresh_subs().contains(handle.spec_id()),
            !final(self).refresh_subs().contains(handle.spec_id()),
            final(self).refresh_subs() == old(self).refresh_subs().filter(|x: u64| x != handle.spec_id()),
    {
        let id = handle.id;
        let mut i: usize = 0;
        while i < self.refresh.len()
            invariant
                0 <= i <= self.refresh@.len(),
                self.refresh@ == old(self).refresh@,
                forall|j: int| 0 <= j < i ==> self.refresh@[j] != id,
            ensures
                0 <= i <= self.refresh@.len(),
                self.refresh@ == old(self).refresh@,
                forall|j: int| 0 <= j < i ==> self.refresh@[j] != id,
                i < self.refresh@.len() ==> self.refresh@[i as int] == id,
            decreases self.refresh@.len() - i,
        {
            if self.refresh[i] == id {
                break;
            }
            i = i + 1;
        }
        if i < self.refresh.len() {
            let ghost before = self.refresh@;
            self.refresh.remove(i);
            proof {
                assert(before[i as int] == id);
                lemma_remove_unique(before, i as int, id);
                assert(self.refresh@ =~= before.remove(i as int));
            }
            true
        } else {
            proof {
                assert(!self.refresh@.contains(id));
                lemma_filter_absent(self.refresh@, id);
            }
            false
        }
    }

    /// The subscriptions to notify of a refresh-rate change: every active one,
    /// in registration order, and no other.
    pub fn refresh_rate_changed(&self) -> (r: Vec<u64>)
        ensures
            r@ == self.refresh_subs(),
    {
        self.refresh.clone()
    }

    /// Asks for one callback at the next refresh pulse; returns its token.
    /// `None` once every identifier has been handed out.
    pub fn post_next_vsync(&mut self) -> (r: Option<u64>)
        requires
            old(self).wf(),
        ensures
            final(self).wf(),
            final(self).refresh_subs() == old(self).refresh_subs(),
            old(self).next_id() < u64::MAX ==> {
                &&& r == Some(old(self).next_id())
                &&& final(self).frame_waiters() == old(self).frame_waiters().push(old(self).next_id())
                &&& final(self).next_id() == old(self).next_id() + 1
            },
            old(self).next_id() == u64::MAX ==> r is None && final(self).frame_waiters()
                == old(self).frame_waiters() && final(self).next_id() == old(self).next_id(),
    {
        if self.next_id == u64::MAX {
            return None;
        }
        let id = self.next_id;
        self.frame.push(id);
        self.next_id = id + 1;
        proof {
            assert forall|i: int| 0 <= i < self.frame@.len() implies #[trigger] self.frame@[i]
                < self.next_id by {
                if i < old(self).frame@.len() {
                    assert(self.frame@[i] == old(self).frame@[i]);
                }
            }
            assert forall|i: int, j: int|
                0 <= i < self.frame@.len() && 0 <= j < self.frame@.len() && i != j implies self.frame@[i]
                != self.frame@[j] by {
                if i < old(self).frame@.len() && j < old(self).frame@.len() {
                } else if i < old(self).frame@.len() {
                    assert(old(self).frame@[i] < id);
                } else if j < old(self).frame@.len() {
                    assert(old(self).frame@[j] < id);
                }
            }
        }
        Some(id)
    }

    /// A refresh pulse: the one-shot callbacks to run now, each exactly once;
    /// none of them is run again at a later pulse.
    pub fn vsync_pulse(&mut self) -> (r: Vec<u64>)
        requires
            old(self).wf(),
        ensures
            final(self).wf(),
            r@ == old(self).frame_waiters(),
            final(self).frame_waiters() == Seq::<u64>::empty(),
            final(self).refresh_subs() == old(self).refresh_subs(),
            final(self).next_id() == old(self).next_id(),
    {
        let mut due: Vec<u64> = Vec::new();
        std::mem::swap(&mut due, &mut self.frame);
        due
    }
}


/// A call on the hub.
#[derive(Debug, Clone, Copy, PartialEq, Eq, Structural)]
pub enum HubOp {
    Register,
    Unregister(u64),
    PostVsync,
    Pulse,
    RefreshChanged,
}

/// The next identifier and the active refresh-rate subscriptions after a call,
/// as the hub's methods state them.
pub open spec fn hub_step(next: u64, subs: Seq<u64>, op: HubOp) -> (u64, Seq<u64>) {
    match op {
        HubOp::Register => if next < u64::MAX {
            ((next + 1) as u64, subs.push(next))
        } else {
            (next, subs)
        },
        HubOp::Unregister(x) => (next, subs.filter(|v: u64| v != x)),
        HubOp::PostVsync => if next < u64::MAX {
            ((next + 1) as u64, subs)
        } else {
            (next, subs)
        },
        _ => (next, subs),
    }
}

/// The state after a run of calls.
pub open spec fn hub_run(next: u64, subs: Seq<u64>, ops: Seq<HubOp>) -> (u64, Seq<u64>)
    decreases ops.len(),
{
    if ops.len() == 0 {
        (next, subs)
    } else {
        let (n, s) = hub_run(next, subs, ops.drop_last());
        hub_step(n, s, ops.last())
    }
}

proof fn lemma_filter_keeps_absent(s: Seq<u64>, x: u64, id: u64)
    requires
        !s.contains(id),
    ensures
        !s.filter(|v: u64| v != x).contains(id),
{
    if s.filter(|v: u64| v != x).contains(id) {
        s.lemma_filter_contains_rev(|v: u64| v != x, id);
    }
}

/// Once a subscription is unregistered, no later run of calls (registering,
/// unregistering, posting, pulses, refresh-rate changes) makes it active
/// again: every refresh-rate change after the unregistration is delivered
/// to the active subscriptions only, so its count stays where it was.
pub proof fn lemma_unregistered_stays_silent(next: u64, subs: Seq<u64>, id: u64, ops: Seq<HubOp>)
    requires
        id < next,
        !subs.contains(id),
    ensures
        id < hub_run(next, subs, ops).0,
        !hub_run(next, subs, ops).1.contains(id),
    decreases ops.len(),
{
    if ops.len() > 0 {
        lemma_unregistered_stays_silent(next, subs, id, ops.drop_last());
        let (n, s) = hub_run(next, subs, ops.drop_last());
        match ops.last() {
            HubOp::Register => {
                if n < u64::MAX {
                    assert(!s.push(n).contains(id)) by {
                        if s.push(n).contains(id) {
                            let k = choose|k: int| 0 <= k < s.push(n).len() && s.push(n)[k] == id;
                            if k < s.len() {
                                assert(s[k] == id);
                            }
                        }
                    }
                }
            },
            HubOp::Unregister(x) => {
                lemma_filter_keeps_absent(s, x, id);
            },
            _ => {},
        }
    }
}

proof fn lemma_filter_absent(s: Seq<u64>, id: u64)
    requires
        !s.contains(id),
    ensures
        s.filter(|x: u64| x != id) == s,
    decreases s.len(),
{
    reveal(Seq::filter);
    if s.len() > 0 {
        lemma_filter_absent(s.drop_last(), id);
        assert(s.drop_last().push(s.last()) =~= s);
    } else {
        assert(s.filter(|x: u64| x != id) =~= s);
    }
}

proof fn lemma_remove_unique(s: Seq<u64>, i: int, id: u64)
    requires
        0 <= i < s.len(),
        s[i] == id,
        s.no_duplicates(),
    ensures
        s.remove(i).no_duplicates(),
        !s.remove(i).contains(id),
        s.filter(|x: u64| x != id) == s.remove(i),
    decreases s.len(),
{
    reveal(Seq::filter);
    if i == s.len() - 1 {
        assert(s.remove(i) =~= s.drop_last());
        assert(!s.drop_last().contains(id)) by {
            if s.drop_last().contains(id) {
                let k = choose|k: int| 0 <= k < s.drop_last().len() && s.drop_last()[k] == id;
                assert(s[k] == s[i]);
            }
        }
        lemma_filter_absent(s.drop_last(), id);
        assert(s.filter(|x: u64| x != id) == s.drop_last().filter(|x: u64| x != id));
    } else {
        let t = s.drop_last();
        assert(t.no_duplicates());
        assert(t[i] == id);
        lemma_remove_unique(t, i, id);
        assert(s.last() != id);
        assert(t.remove(i).push(s.last()) =~= s.remove(i));
        assert(s.filter(|x: u64| x != id) == t.filter(|x: u64| x != id).push(s.last()));
    }
    assert(s.remove(i).no_duplicates()) by {
        assert forall|a: int, b: int|
            0 <= a < s.remove(i).len() && 0 <= b < s.remove(i).len() && a != b implies s.remove(i)[a]
            != s.remove(i)[b] by {
            let a2 = if a < i { a } else { a + 1 };
            let b2 = if b < i { b } else { b + 1 };
            assert(s.remove(i)[a] == s[a2]);
            assert(s.remove(i)[b] == s[b2]);
        }
    }
    assert(!s.remove(i).contains(id)) by {
        if s.remove(i).contains(id) {
            let k = choose|k: int| 0 <= k < s.remove(i).len() && s.remove(i)[k] == id;
            let k2 = if k < i { k } else { k + 1 };
            assert(s[k2] == id);
        }
    }
}

} // verus!
