use vstd::prelude::*;
use crate::callbacks::{CallbackRegistry, following_id};

verus! {

/// A click callback registered in a [`CallbackRegistry`]; the native click
/// event carries only [`RegisteredClickCallback::id`].
pub struct RegisteredClickCallback {
    id: u64,
}

impl RegisteredClickCallback {
    /// The identifier this registration was given.
    pub closed spec fn spec_id(&self) -> u64 {
        self.id
    }

    /// Registers `callback` and keeps its identifier.
    pub fn register<T>(callbacks: &mut CallbackRegistry<T>, callback: T) -> (r: Self)
        requires
            old(callbacks).wf(),
        ensures
            final(callbacks).wf(),
            r.spec_id() == old(callbacks).next(),
            r.spec_id() >= 1,
            final(callbacks).next() == following_id(r.spec_id()),
            final(callbacks)@ == old(callbacks)@.insert(r.spec_id(), callback),
    {
        let id = callbacks.register(callback);
        RegisteredClickCallback { id }
    }

    /// The identifier this registration was given.
    pub fn id(&self) -> (id: u64)
        ensures
            id == self.spec_id(),
    {
        self.id
    }

    /// The callback to run for a click carrying `id`; `None` once its
    /// registration has been dropped.
    pub fn invoke<T>(callbacks: &CallbackRegistry<T>, id: u64) -> (r: Option<&T>)
        ensures
            match r {
                Some(c) => callbacks@.contains_key(id) && *c == callbacks@[id],
                None => !callbacks@.contains_key(id),
            },
    {
        callbacks.get(id)
    }

    /// Ends the registration: its callback no longer runs.
    pub fn unregister<T>(self, callbacks: &mut CallbackRegistry<T>)
        ensures
            final(callbacks).next() == old(callbacks).next(),
            final(callbacks).wf() == old(callbacks).wf(),
            final(callbacks)@ == old(callbacks)@.remove(self.spec_id()),
    {
        callbacks.discard(self.id);
    }
}

/// A scale-factor callback registered in a [`CallbackRegistry`].
pub struct RegisteredScaleFactorCallback {
    id: u64,
}

impl RegisteredScaleFactorCallback {
    /// The identifier this registration was given.
    pub closed spec fn spec_id(&self) -> u64 {
        self.id
    }

    /// Registers `callback` and keeps its identifier.
    pub fn register<T>(callbacks: &mut CallbackRegistry<T>, callback: T) -> (r: Self)
        requires
            old(callbacks).wf(),
        ensures
            final(callbacks).wf(),
            r.spec_id() == old(callbacks).next(),
            r.spec_id() >= 1,
            final(callbacks).next() == following_id(r.spec_id()),
            final(callbacks)@ == old(callbacks)@.insert(r.spec_id(), callback),
    {
        let id = callbacks.register(callback);
        RegisteredScaleFactorCallback { id }
    }

    /// The identifier this registration was given.
    pub fn id(&self) -> (id: u64)
        ensures
            id == self.spec_id(),
    {
        self.id
    }

    /// The callback to run for a scale-factor change carrying `id`.
    pub fn invoke<T>(callbacks: &CallbackRegistry<T>, id: u64) -> (r: Option<&T>)
        ensures
            match r {
                Some(c) => callbacks@.contains_key(id) && *c == callbacks@[id],
                None => !callbacks@.contains_key(id),
            },
    {
        callbacks.get(id)
    }

    /// Ends the registration.
    pub fn unregister<T>(self, callbacks: &mut CallbackRegistry<T>)
        ensures
            final(callbacks).next() == old(callbacks).next(),
            final(callbacks).wf() == old(callbacks).wf(),
            final(callbacks)@ == old(callbacks)@.remove(self.spec_id()),
    {
        callbacks.discard(self.id);
    }
}

/// A resize callback registered in a [`CallbackRegistry`].
pub struct RegisteredResizeCallback {
    id: u64,
}

impl RegisteredResizeCallback {
    /// The identifier this registration was given.
    pub closed spec fn spec_id(&self) -> u64 {
        self.id
    }

    /// Registers `callback` and keeps its identifier.
    pub fn register<T>(callbacks: &mut CallbackRegistry<T>, callback: T) -> (r: Self)
        requires
            old(callbacks).wf(),
        ensures
            final(callbacks).wf(),
            r.spec_id() == old(callbacks).next(),
            r.spec_id() >= 1,
            final(callbacks).next() == following_id(r.spec_id()),
            final(callbacks)@ == old(callbacks)@.insert(r.spec_id(), callback),
    {
        let id = callbacks.register(callback);
        RegisteredResizeCallback { id }
    }

    /// The identifier this registration was given.
    pub fn id(&self) -> (id: u64)
        ensures
            id == self.spec_id(),
    {
        self.id
    }

    /// The callback to run for a resize carrying `id`.
    pub fn invoke<T>(callbacks: &CallbackRegistry<T>, id: u64) -> (r: Option<&T>)
        ensures
            match r {
                Some(c) => callbacks@.contains_key(id) && *c == callbacks@[id],
                None => !callbacks@.contains_key(id),
            },
    {
        callbacks.get(id)
    }

    /// Ends the registration.
    pub fn unregister<T>(self, callbacks: &mut CallbackRegistry<T>)
        ensures
            final(callbacks).next() == old(callbacks).next(),
            final(callbacks).wf() == old(callbacks).wf(),
            final(callbacks)@ == old(callbacks)@.remove(self.spec_id()),
    {
        callbacks.discard(self.id);
    }
}

/// A callback waiting for an element's native control; dropping the
/// registration stops it from being called.
pub struct XamlRealizedRegistration {
    id: u64,
}

impl XamlRealizedRegistration {
    /// The identifier of the registered callback.
    pub closed spec fn spec_id(&self) -> u64 {
        self.id
    }

    /// Registers `callback` to run with the native control. Returns the
    /// registration and whether the callback must run right away, which is
    /// when the control already exists.
    pub fn on_realized<T>(callbacks: &mut CallbackRegistry<T>, callback: T, realized: bool) -> (r: (Self, bool))
        requires
            old(callbacks).wf(),
        ensures
            final(callbacks).wf(),
            r.0.spec_id() == old(callbacks).next(),
            final(callbacks)@ == old(callbacks)@.insert(r.0.spec_id(), callback),
            r.1 == realized,
    {
        let id = callbacks.register(callback);
        (XamlRealizedRegistration { id }, realized)
    }

    /// Ends the registration.
    pub fn release<T>(self, callbacks: &mut CallbackRegistry<T>)
        ensures
            final(callbacks).wf() == old(callbacks).wf(),
            final(callbacks)@ == old(callbacks)@.remove(self.spec_id()),
    {
        callbacks.discard(self.id);
    }
}

/// Hands out the next callback identifier of `callbacks`.
pub fn next_callback_id<T>(callbacks: &mut CallbackRegistry<T>) -> (id: u64)
    requires
        old(callbacks).wf(),
    ensures
        final(callbacks).wf(),
        id == old(callbacks).next(),
        id >= 1,
        final(callbacks).next() == following_id(id),
        final(callbacks)@ == old(callbacks)@,
{
    callbacks.next_callback_id()
}

/// Law: a callback that was just registered is the one a click with the
/// returned identifier reaches, and every callback registered before stays
/// reachable under its own identifier unless the counter came back to it.
pub proof fn lemma_register_then_invoke<T>(before: Map<u64, T>, after: Map<u64, T>, id: u64, callback: T, other: u64)
    requires
        after == before.insert(id, callback),
        other != id,
    ensures
        after.contains_key(id) && after[id] == callback,
        after.contains_key(other) == before.contains_key(other),
        before.contains_key(other) ==> after[other] == before[other],
{
}

/// Law: after a registration is dropped, a click carrying its identifier
/// reaches nothing, and every other registration is unaffected.
pub proof fn lemma_unregister_then_invoke<T>(before: Map<u64, T>, after: Map<u64, T>, id: u64, other: u64)
    requires
        after == before.remove(id),
        other != id,
    ensures
        !after.contains_key(id),
        after.contains_key(other) == before.contains_key(other),
        before.contains_key(other) ==> after[other] == before[other],
{
}

/// Law: two identifiers handed out one after the other differ, and neither is 0.
pub proof fn lemma_consecutive_ids_differ(id: u64)
    requires
        id >= 1,
    ensures
        following_id(id) != id,
        following_id(id) >= 1,
{
}

} // verus!
