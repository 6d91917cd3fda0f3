use std::sync::{Arc, Mutex};
use vstd::prelude::*;
use crate::HandleId;

verus! {

#[verifier::external_type_specification]
#[verifier::external_body]
#[verifier::reject_recursive_types(T)]
pub struct ExMutex<T: ?Sized>(Mutex<T>);

/// Relies on std's Mutex::new: builds an unlocked mutex around `t`.
pub assume_specification<T>[ Mutex::<T>::new ](t: T) -> (r: Mutex<T>);

/// Relies on Mutex::lock and Vec::push: appends `item` to the guarded list.
/// Other threads push too, so nothing is stated of the contents. It does not
/// unwind: a poisoned lock is taken over, since a list of plain entries stays
/// consistent, and no lock of the queue set is held while other code runs.
#[verifier::external_body]
fn enqueue<T>(queue: &Mutex<Vec<T>>, item: T)
    opens_invariants none
    no_unwind
{
    match queue.lock() {
        Ok(mut list) => list.push(item),
        Err(poisoned) => poisoned.into_inner().push(item),
    }
}

/// Relies on Mutex::lock and std::mem::take: hands back the guarded list and
/// leaves it empty. What it holds depends on other threads.
#[verifier::external_body]
fn drain<T>(queue: &Mutex<Vec<T>>) -> Vec<T> {
    match queue.lock() {
        Ok(mut list) => std::mem::take(&mut *list),
        Err(poisoned) => std::mem::take(&mut *poisoned.into_inner()),
    }
}

/// Everything the four queues held at one drain, in queue order.
pub struct PendingBatch<P> {
    /// Ids that gained a strong handle.
    pub created: Vec<HandleId>,
    /// Payloads finished off the owning thread, with the slot each belongs to.
    pub loaded: Vec<(HandleId, Arc<P>)>,
    /// Ids whose derived state must be rebuilt.
    pub dirty: Vec<HandleId>,
    /// Ids that lost a strong handle.
    pub destroyed: Vec<HandleId>,
}

/// What a drained batch holds, as sequences.
pub ghost struct BatchModel<P> {
    pub created: Seq<HandleId>,
    pub loaded: Seq<(HandleId, Arc<P>)>,
    pub dirty: Seq<HandleId>,
    pub destroyed: Seq<HandleId>,
}

impl<P> View for PendingBatch<P> {
    type V = BatchModel<P>;

    open spec fn view(&self) -> BatchModel<P> {
        BatchModel {
            created: self.created@,
            loaded: self.loaded@,
            dirty: self.dirty@,
            destroyed: self.destroyed@,
        }
    }
}

impl<P> PendingBatch<P> {
    pub fn empty() -> (r: Self)
        ensures
            r.created@.len() == 0,
            r.loaded@.len() == 0,
            r.dirty@.len() == 0,
            r.destroyed@.len() == 0,
    {
        PendingBatch { created: Vec::new(), loaded: Vec::new(), dirty: Vec::new(), destroyed: Vec::new() }
    }
}

/// The queue set shared by the table, its handles and background tasks. Any
/// thread may push; only the table's owner drains. Each queue has its own lock.
#[verifier::reject_recursive_types(P)]
pub struct AssetServerGlobal<P> {
    pub destroy_queue: Mutex<Vec<HandleId>>,
    pub create_queue: Mutex<Vec<HandleId>>,
    pub background_loading: Mutex<Vec<(HandleId, Arc<P>)>>,
    pub mark_to_update: Mutex<Vec<HandleId>>,
}

impl<P> AssetServerGlobal<P> {
    pub fn new() -> Self {
        AssetServerGlobal {
            destroy_queue: Mutex::new(Vec::new()),
            create_queue: Mutex::new(Vec::new()),
            background_loading: Mutex::new(Vec::new()),
            mark_to_update: Mutex::new(Vec::new()),
        }
    }

    /// Reports one more strong handle to `id`.
    pub fn push_create(&self, id: HandleId)
        opens_invariants none
        no_unwind
    {
        enqueue(&self.create_queue, id);
    }

    /// Reports one strong handle to `id` gone.
    pub fn push_destroy(&self, id: HandleId)
        opens_invariants none
        no_unwind
    {
        enqueue(&self.destroy_queue, id);
    }

    /// Hands a finished payload for slot `id` to the owning thread.
    pub fn push_loaded(&self, id: HandleId, data: Arc<P>) {
        enqueue(&self.background_loading, (id, data));
    }

    /// Asks that the derived state of slot `id` be rebuilt.
    pub fn mark_dirty(&self, id: HandleId) {
        enqueue(&self.mark_to_update, id);
    }

    /// Empties the four queues, in the order in which a sync applies them.
    pub fn take_batch(&self) -> PendingBatch<P> {
        let created = drain(&self.create_queue);
        let loaded = drain(&self.background_loading);
        let dirty = drain(&self.mark_to_update);
        let destroyed = drain(&self.destroy_queue);
        PendingBatch { created, loaded, dirty, destroyed }
    }
}

} // verus!
