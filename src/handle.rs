use std::sync::Arc;
use vstd::prelude::*;
use crate::HandleId;
use crate::queues::AssetServerGlobal;

verus! {

/// A strong, counted reference to one slot. Cloning reports one more strong
/// handle through the shared queues, dropping reports one fewer; the table
/// applies both at its next sync.
#[verifier::reject_recursive_types(P)]
pub struct Handle<P> {
    id: HandleId,
    queues: Arc<AssetServerGlobal<P>>,
}

/// Names a slot without keeping it alive: it reports nothing on clone or drop.
#[verifier::reject_recursive_types(P)]
pub struct WeakHandle<P> {
    id: HandleId,
    queues: Arc<AssetServerGlobal<P>>,
}

impl<P> View for Handle<P> {
    type V = HandleId;

    closed spec fn view(&self) -> HandleId {
        self.id
    }
}

impl<P> View for WeakHandle<P> {
    type V = HandleId;

    closed spec fn view(&self) -> HandleId {
        self.id
    }
}

impl<P> Handle<P> {
    /// A strong handle that the table already counted when it made the slot;
    /// nothing is queued.
    pub(crate) fn counted(id: HandleId, queues: Arc<AssetServerGlobal<P>>) -> (r: Self)
        ensures
            r@ == id,
    {
        Handle { id, queues }
    }

    pub fn get_idx(&self) -> (r: HandleId)
        ensures
            r == self@,
    {
        self.id
    }

    pub fn get_weak(&self) -> (r: WeakHandle<P>)
        ensures
            r@ == self@,
    {
        WeakHandle { id: self.id, queues: self.queues.clone() }
    }
}

impl<P> Clone for Handle<P> {
    fn clone(&self) -> (r: Self)
        ensures
            r@ == self@,
    {
        self.queues.push_create(self.id);
        Handle { id: self.id, queues: self.queues.clone() }
    }
}

impl<P> Drop for Handle<P> {
    fn drop(&mut self)
        opens_invariants none
        no_unwind
    {
        self.queues.push_destroy(self.id);
    }
}

impl<P> WeakHandle<P> {
    pub fn get_idx(&self) -> (r: HandleId)
        ensures
            r == self@,
    {
        self.id
    }

    /// A new strong handle to the same slot; the table counts it at its next sync.
    pub fn get_strong(&self) -> (r: Handle<P>)
        ensures
            r@ == self@,
    {
        self.queues.push_create(self.id);
        Handle { id: self.id, queues: self.queues.clone() }
    }
}

impl<P> Clone for WeakHandle<P> {
    fn clone(&self) -> (r: Self)
        ensures
            r@ == self@,
    {
        WeakHandle { id: self.id, queues: self.queues.clone() }
    }
}

} // verus!
