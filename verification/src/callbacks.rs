use vstd::prelude::*;
use std::collections::HashMap;

verus! {

broadcast use vstd::std_specs::hash::group_hash_axioms;

/// The identifier that follows `id` in a registry's sequence: `id + 1`,
/// restarting at 1 when `id` is the largest `u64`, so that 0 is never handed out.
pub open spec fn following_id(id: u64) -> u64 {
    if id == u64::MAX {
        1
    } else {
        (id + 1) as u64
    }
}

/// Callbacks registered under numeric identifiers, as kept per thread by the
/// WinUI event plumbing: a native event only carries the identifier, and the
/// callback is looked up when the event fires.
///
/// Each registry draws identifiers from its own counter, so identifiers are
/// unique within one registry. Callbacks of several kinds (clicks, scale-factor
/// changes, resizes) that are to draw from one shared counter, so that no two
/// of them ever carry the same identifier, are kept in one registry whose
/// element type tells the kinds apart.
pub struct CallbackRegistry<T> {
    next_id: u64,
    callbacks: HashMap<u64, T>,
}

impl<T> View for CallbackRegistry<T> {
    type V = Map<u64, T>;

    closed spec fn view(&self) -> Map<u64, T> {
        self.callbacks@
    }
}

impl<T> CallbackRegistry<T> {
    /// The identifier that the next registration receives.
    pub closed spec fn next(&self) -> u64 {
        self.next_id
    }

    /// Identifiers are never 0.
    pub closed spec fn wf(&self) -> bool {
        self.next_id >= 1
    }

    /// An empty registry whose first identifier is 1.
    pub fn new() -> (r: Self)
        ensures
            r.wf(),
            r@ == Map::<u64, T>::empty(),
            r.next() == 1,
    {
        CallbackRegistry { next_id: 1, callbacks: HashMap::new() }
    }

    /// Hands out the next identifier and advances the counter.
    pub fn next_callback_id(&mut self) -> (id: u64)
        requires
            old(self).wf(),
        ensures
            final(self).wf(),
            id == old(self).next(),
            id >= 1,
            final(self).next() == following_id(id),
            final(self)@ == old(self)@,
    {
        let id = self.next_id;
        self.next_id = if id == u64::MAX {
            1
        } else {
            id + 1
        };
        id
    }

    /// Stores `callback` under a fresh identifier and returns that identifier.
    pub fn register(&mut self, callback: T) -> (id: u64)
        requires
            old(self).wf(),
        ensures
            final(self).wf(),
            id == old(self).next(),
            id >= 1,
            final(self).next() == following_id(id),
            final(self)@ == old(self)@.insert(id, callback),
    {
        let id = self.next_callback_id();
        self.callbacks.insert(id, callback);
        id
    }

    /// Stores `callback` under an identifier handed out elsewhere, replacing
    /// any callback already stored under it.
    pub fn insert_with_id(&mut self, id: u64, callback: T)
        ensures
            final(self).next() == old(self).next(),
            final(self).wf() == old(self).wf(),
            final(self)@ == old(self)@.insert(id, callback),
    {
        self.callbacks.insert(id, callback);
    }

    /// The callback registered under `id`, if it is still registered.
    pub fn get(&self, id: u64) -> (r: Option<&T>)
        ensures
            match r {
                Some(c) => self@.contains_key(id) && *c == self@[id],
                None => !self@.contains_key(id),
            },
    {
        self.callbacks.get(&id)
    }

    /// Takes the callback registered under `id` out of the registry, so that
    /// it runs at most once.
    pub fn complete(&mut self, id: u64) -> (r: Option<T>)
        ensures
            final(self).next() == old(self).next(),
            final(self).wf() == old(self).wf(),
            final(self)@ == old(self)@.remove(id),
            match r {
                Some(c) => old(self)@.contains_key(id) && c == old(self)@[id],
                None => !old(self)@.contains_key(id),
            },
    {
        self.callbacks.remove(&id)
    }

    /// Drops the callback registered under `id`, if any.
    pub fn discard(&mut self, id: u64)
        ensures
            final(self).next() == old(self).next(),
            final(self).wf() == old(self).wf(),
            final(self)@ == old(self)@.remove(id),
    {
        self.callbacks.remove(&id);
    }

    /// The number of registered callbacks.
    pub fn len(&self) -> (n: usize)
        ensures
            n == self@.len(),
    {
        self.callbacks.len()
    }
}

} // verus!
