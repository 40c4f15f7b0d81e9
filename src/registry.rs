//! The surface registry: drawable surfaces keyed by the identity of the
//! native window they draw into.

use vstd::prelude::*;
use std::collections::HashMap;
use crate::error::RenderError;

verus! {

broadcast use vstd::std_specs::hash::group_hash_axioms;

/// A drawable surface with the size it was created at.
pub struct SurfaceEntry<S> {
    pub surface: S,
    pub width: u32,
    pub height: u32,
}

/// Surfaces by window identity, an opaque pointer-sized token that the
/// registry only compares and stores. Each identity has at most one entry.
pub struct SurfaceRegistry<S> {
    entries: HashMap<usize, SurfaceEntry<S>>,
}

/// The registry as `get_or_create` leaves it: unchanged when the identity is
/// registered, otherwise holding `fresh`, the entry that creation returned.
pub open spec fn after_get_or_create<S>(
    m: Map<usize, SurfaceEntry<S>>,
    id: usize,
    fresh: SurfaceEntry<S>,
) -> Map<usize, SurfaceEntry<S>> {
    if m.contains_key(id) {
        m
    } else {
        m.insert(id, fresh)
    }
}

impl<S> SurfaceRegistry<S> {
    /// The entries by window identity.
    pub closed spec fn view(&self) -> Map<usize, SurfaceEntry<S>> {
        self.entries@
    }

    /// An empty registry.
    pub fn new() -> (r: Self)
        ensures
            r@ == Map::<usize, SurfaceEntry<S>>::empty(),
    {
        SurfaceRegistry { entries: HashMap::new() }
    }

    /// Whether the identity has an entry.
    pub fn contains(&self, id: usize) -> (r: bool)
        ensures
            r == self@.contains_key(id),
    {
        self.entries.contains_key(&id)
    }

    /// The entry of the identity, if any.
    pub fn get(&self, id: usize) -> (r: Option<&SurfaceEntry<S>>)
        ensures
            match r {
                Some(e) => self@.contains_key(id) && *e == self@[id],
                None => !self@.contains_key(id),
            },
    {
        self.entries.get(&id)
    }

    /// Adds an entry for a new identity; an identity that is already
    /// registered gives `SurfaceExists` and keeps its entry.
    pub fn register(&mut self, id: usize, entry: SurfaceEntry<S>) -> (r: Result<(), RenderError>)
        ensures
            old(self)@.contains_key(id) ==> r == Err::<(), RenderError>(RenderError::SurfaceExists)
                && final(self)@ == old(self)@,
            !old(self)@.contains_key(id) ==> r is Ok && final(self)@ == old(self)@.insert(id, entry),
    {
        if self.entries.contains_key(&id) {
            Err(RenderError::SurfaceExists)
        } else {
            self.entries.insert(id, entry);
            Ok(())
        }
    }

    /// The cached entry of the identity, or, for an identity not yet
    /// registered, the entry that `create` makes, which is then cached.
    /// `create` is called only for an identity without an entry; when it fails
    /// its error is returned and the registry is unchanged.
    pub fn get_or_create<F>(&mut self, id: usize, create: F) -> (r: Result<&SurfaceEntry<S>, RenderError>)
        where
            F: FnOnce() -> Result<SurfaceEntry<S>, RenderError>,
        requires
            !old(self)@.contains_key(id) ==> create.requires(()),
        ensures
            old(self)@.contains_key(id) ==> {
                &&& r matches Ok(e) && *e == old(self)@[id]
                &&& final(self)@ == old(self)@
            },
            !old(self)@.contains_key(id) ==> match r {
                Ok(e) => {
                    &&& create.ensures((), Ok::<SurfaceEntry<S>, RenderError>(*e))
                    &&& final(self)@ == after_get_or_create(old(self)@, id, *e)
                },
                Err(x) => {
                    &&& create.ensures((), Err::<SurfaceEntry<S>, RenderError>(x))
                    &&& final(self)@ == old(self)@
                },
            },
    {
        if !self.entries.contains_key(&id) {
            match create() {
                Ok(entry) => {
                    self.entries.insert(id, entry);
                },
                Err(x) => {
                    return Err(x);
                },
            }
        }
        match self.entries.get(&id) {
            Some(e) => Ok(e),
            None => {
                proof {
                    assert(false);
                }
                Err(RenderError::UnknownSurface)
            },
        }
    }

    /// Takes the identity's entry out of the registry, so that its surface can
    /// be destroyed; an identity without an entry gives `UnknownSurface`.
    pub fn remove(&mut self, id: usize) -> (r: Result<SurfaceEntry<S>, RenderError>)
        ensures
            old(self)@.contains_key(id) ==> (r matches Ok(e) && e == old(self)@[id]),
            !old(self)@.contains_key(id) ==> r == Err::<SurfaceEntry<S>, RenderError>(
                RenderError::UnknownSurface,
            ),
            final(self)@ == old(self)@.remove(id),
    {
        match self.entries.remove(&id) {
            Some(e) => Ok(e),
            None => {
                proof {
                    assert(self@ =~= old(self)@.remove(id));
                }
                Err(RenderError::UnknownSurface)
            },
        }
    }
}

/// The size a drawable surface is created at, from the window's reported
/// width and height: `None` unless both are positive.
pub fn window_extent(width: i32, height: i32) -> (r: Option<(u32, u32)>)
    ensures
        width > 0 && height > 0 ==> r == Some((width as u32, height as u32)),
        !(width > 0 && height > 0) ==> r is None,
{
    if width > 0 && height > 0 {
        Some((width as u32, height as u32))
    } else {
        None
    }
}

/// `get_or_create` twice with one identity creates at most once: the second
/// call finds the entry that the first one cached and leaves the registry as
/// it was. After `remove` of the identity, `get_or_create` creates afresh, and
/// a second `remove` finds nothing.
pub proof fn lemma_registry_caches_until_removed<S>(
    m: Map<usize, SurfaceEntry<S>>,
    id: usize,
    first: SurfaceEntry<S>,
    later: SurfaceEntry<S>,
)
    ensures
        after_get_or_create(m, id, first).contains_key(id),
        after_get_or_create(after_get_or_create(m, id, first), id, later) == after_get_or_create(
            m,
            id,
            first,
        ),
        !m.contains_key(id) ==> after_get_or_create(m, id, first)[id] == first,
        !after_get_or_create(m, id, first).remove(id).contains_key(id),
        after_get_or_create(after_get_or_create(m, id, first).remove(id), id, later)[id] == later,
{
}

} // verus!
