//! Requests that wait for their responses.
use std::collections::HashMap;
use vstd::prelude::*;

verus! {

broadcast use vstd::std_specs::hash::group_hash_axioms;

/// The requests that wait for a response, by id, each with what its response is handed to.
pub struct Pending<T> {
    slots: HashMap<u64, T>,
}

impl<T> View for Pending<T> {
    type V = Map<u64, T>;

    closed spec fn view(&self) -> Map<u64, T> {
        self.slots@
    }
}

impl<T> Pending<T> {
    /// No request waits.
    pub fn new() -> (r: Self)
        ensures
            r@ == Map::<u64, T>::empty(),
    {
        Pending { slots: HashMap::new() }
    }

    /// Lets the request `id` wait. A request that waited under the same id is dropped.
    pub fn insert(&mut self, id: u64, slot: T)
        ensures
            final(self)@ == old(self)@.insert(id, slot),
    {
        self.slots.insert(id, slot);
    }

    /// Takes what the response to `id` is handed to. No second response finds it.
    pub fn take(&mut self, id: u64) -> (r: Option<T>)
        ensures
            r is Some <==> old(self)@.contains_key(id),
            r is Some ==> r->0 == old(self)@[id],
            final(self)@ == old(self)@.remove(id),
    {
        let r = self.slots.remove(&id);
        assert(self@ =~= old(self)@.remove(id));
        r
    }

    /// Drops every request that waits.
    pub fn clear(&mut self)
        ensures
            final(self)@ == Map::<u64, T>::empty(),
    {
        self.slots.clear();
    }
}

/// A request that waits is found once, by its own id, with what was left for it; no other request is
/// touched, and a second response finds none.
pub proof fn law_each_response_finds_its_request<T>(
    p: &mut Pending<T>,
    id: u64,
    slot: T,
    q: &mut Pending<T>,
    r: Option<T>,
    other: u64,
)
    requires
        call_ensures(Pending::<T>::insert, (p, id, slot), ()),
        *q == *final(p),
        call_ensures(Pending::<T>::take, (q, id), r),
        other != id,
    ensures
        r == Some(slot),
        !final(q)@.contains_key(id),
        final(q)@.contains_key(other) <==> old(p)@.contains_key(other),
        old(p)@.contains_key(other) ==> final(q)@[other] == old(p)@[other],
{
}

} // verus!
