//! The event registry: which callback answers to which handle.

use vstd::prelude::*;
use std::collections::HashMap;
use crate::ident::{draw_unused_in, EventHandleId, Taken};
use crate::vnode::event::VNodeEventKind;
use crate::vnode::handler::{Delivery, EventCallback, Subscription};
use crate::window::Message;

verus! {

/// The callbacks of the rendered elements, each under the handle of its
/// element, and the handles that were ever given up: a handle stands for
/// one element for good, so none of them is handed out again. The price is
/// a few bytes for every element that has left, for as long as the session
/// lasts.
#[verifier::reject_recursive_types(T)]
pub struct EventRegistry<T: Message> {
    callbacks: HashMap<u128, EventCallback<T>>,
    given_up: HashMap<u128, ()>,
}

impl<T: Message> View for EventRegistry<T> {
    type V = Map<u128, EventCallback<T>>;

    closed spec fn view(&self) -> Map<u128, EventCallback<T>> {
        self.callbacks@
    }
}

impl<T: Message> EventRegistry<T> {
    /// The handles that were given up.
    pub closed spec fn retired(self) -> Set<u128> {
        self.given_up@.dom()
    }

    /// A registry without callbacks, which has given up no handle.
    pub fn new() -> (registry: Self)
        ensures
            registry@ == Map::<u128, EventCallback<T>>::empty(),
            registry.retired() == Set::<u128>::empty(),
    {
        let registry = EventRegistry { callbacks: HashMap::new(), given_up: HashMap::new() };
        assert(registry.retired() =~= Set::<u128>::empty());
        registry
    }

    /// A registry holds finitely many callbacks.
    pub proof fn lemma_finite(self)
        ensures
            self@.dom().finite(),
    {
    }

    /// How many callbacks are registered.
    pub fn len(&self) -> (n: usize)
        ensures
            n == self@.dom().len(),
    {
        self.callbacks.len()
    }

    /// Whether a callback is registered under `id`.
    pub fn contains(&self, id: u128) -> (found: bool)
        ensures
            found == self@.contains_key(id),
    {
        self.callbacks.contains_key(&id)
    }

    /// Registers `callback` under `id`, in place of what was there.
    pub fn register(&mut self, id: u128, callback: EventCallback<T>)
        ensures
            final(self)@ == old(self)@.insert(id, callback),
            final(self).retired() == old(self).retired(),
    {
        self.callbacks.insert(id, callback);
    }

    /// Takes out what is registered under `id`, and notes the handle as
    /// given up.
    pub fn deregister(&mut self, id: u128)
        ensures
            final(self)@ == old(self)@.remove(id),
            final(self).retired() == old(self).retired().insert(id),
    {
        self.callbacks.remove(&id);
        self.given_up.insert(id, ());
        assert(self.retired() =~= old(self).retired().insert(id));
    }

    /// A handle that is not taken: a random one, or, should that one be
    /// taken, the least that is free.
    pub fn unused_handle(&self) -> (id: u128)
        ensures
            !self.taken().contains(id),
            !self@.contains_key(id),
    {
        proof {
            assert(self.callbacks.len() == self@.dom().len());
            assert(self.given_up.len() == self.retired().len());
            vstd::set_lib::lemma_len_union(self@.dom(), self.retired());
            vstd::set_lib::lemma_set_union_finite_iff(self@.dom(), self.retired());
        }
        draw_unused_in(self)
    }

    /// Hands `event` to the callback registered under `handle_id`. An event
    /// for a handle that is not registered is dropped: its element may have
    /// left while the event was on its way.
    pub fn dispatch(&self, handle_id: EventHandleId, event: VNodeEventKind) -> (delivery: Option<
        Delivery<T>,
    >)
        ensures
            delivery is Some <==> self@.contains_key(handle_id.0),
            delivery == Some(Delivery::<T>::NotSubscribed) <==> self@.contains_key(handle_id.0)
                && self@[handle_id.0].handlers.declared(event.kind()) == Subscription::Unset,
            delivery matches Some(Delivery::ChannelClosed(returned))
                ==> self@[handle_id.0].handlers.replies(event, returned),
    {
        match self.callbacks.get(&handle_id.0) {
            Some(callback) => Some(callback.call(event)),
            None => None,
        }
    }
}

impl<T: Message> Taken for EventRegistry<T> {
    /// The handles that are not handed out: those under which a callback
    /// is registered, and those that were given up.
    open spec fn taken(&self) -> Set<u128> {
        self@.dom().union(self.retired())
    }

    fn is_taken(&self, id: u128) -> (found: bool) {
        self.callbacks.contains_key(&id) || self.given_up.contains_key(&id)
    }
}

} // verus!
