use std::sync::Arc;
use vstd::prelude::*;
use crate::HandleId;
use crate::holder::AssetHolder;
use crate::queues::BatchModel;

verus! {

/// Slots of a table, by id.
pub type Records<P> = Map<HandleId, AssetHolder<P>>;

/// `m` after a strong handle to `id` was reported; absent ids are ignored.
pub open spec fn count_up_one<P>(m: Records<P>, id: HandleId) -> Records<P> {
    if m.contains_key(id) { m.insert(id, m[id].counted_up()) } else { m }
}

/// `m` after a finished payload for `entry.0` arrived; absent ids are ignored.
pub open spec fn replace_one<P>(m: Records<P>, entry: (HandleId, Arc<P>)) -> Records<P> {
    if m.contains_key(entry.0) { m.insert(entry.0, m[entry.0].replaced(entry.1)) } else { m }
}

/// `m` after `id` was marked for rebuild; absent ids are ignored.
pub open spec fn flag_one<P>(m: Records<P>, id: HandleId) -> Records<P> {
    if m.contains_key(id) { m.insert(id, m[id].flagged(true)) } else { m }
}

/// `m` after a strong handle to `id` was reported gone: the slot is collected
/// when its last counted handle goes; absent ids are ignored.
pub open spec fn count_down_one<P>(m: Records<P>, id: HandleId) -> Records<P> {
    if m.contains_key(id) {
        if m[id].ref_count <= 1 { m.remove(id) } else { m.insert(id, m[id].counted_down()) }
    } else {
        m
    }
}

pub open spec fn count_up_all<P>(m: Records<P>, ids: Seq<HandleId>) -> Records<P>
    decreases ids.len(),
{
    if ids.len() == 0 { m } else { count_up_one(count_up_all(m, ids.drop_last()), ids.last()) }
}

pub open spec fn replace_all<P>(m: Records<P>, entries: Seq<(HandleId, Arc<P>)>) -> Records<P>
    decreases entries.len(),
{
    if entries.len() == 0 {
        m
    } else {
        replace_one(replace_all(m, entries.drop_last()), entries.last())
    }
}

pub open spec fn flag_all<P>(m: Records<P>, ids: Seq<HandleId>) -> Records<P>
    decreases ids.len(),
{
    if ids.len() == 0 { m } else { flag_one(flag_all(m, ids.drop_last()), ids.last()) }
}

pub open spec fn count_down_all<P>(m: Records<P>, ids: Seq<HandleId>) -> Records<P>
    decreases ids.len(),
{
    if ids.len() == 0 { m } else { count_down_one(count_down_all(m, ids.drop_last()), ids.last()) }
}

/// `m` after one sync applied `b`: increments, then payloads, then rebuild
/// marks, then decrements.
pub open spec fn synced_records<P>(m: Records<P>, b: BatchModel<P>) -> Records<P> {
    count_down_all(flag_all(replace_all(count_up_all(m, b.created), b.loaded), b.dirty), b.destroyed)
}

/// Every live slot has an id in `1..=last` and a positive count.
pub open spec fn records_wf<P>(m: Records<P>, last: HandleId) -> bool {
    forall|id: HandleId| #[trigger] m.contains_key(id) ==> 0 < id <= last && m[id].ref_count >= 1
}

/// The request for one background colour-texture load: target slot, path, gamma.
pub type RequestModel = (HandleId, Seq<char>, bool);

/// The table as its contracts see it.
pub ghost struct ServerModel<P> {
    /// Live slots.
    pub records: Records<P>,
    /// Last slot id handed out; the next is one more.
    pub last_id: HandleId,
    /// Path of each texture load ever requested, with the slot it went to.
    pub paths: Map<Seq<char>, HandleId>,
    /// Background loads requested and not yet taken by a worker pool.
    pub requests: Seq<RequestModel>,
    /// Payload a colour texture shows until its load completes.
    pub default_color: Arc<P>,
    /// Payload a normal map shows until its load completes.
    pub default_normal: Arc<P>,
}

impl<P> ServerModel<P> {
    pub open spec fn wf(self) -> bool {
        records_wf(self.records, self.last_id)
    }

    /// The id the next new slot gets.
    pub open spec fn next_id(self) -> HandleId {
        (self.last_id + 1) as HandleId
    }

    pub open spec fn payload_of(self, id: HandleId) -> Option<Arc<P>> {
        if self.records.contains_key(id) { Some(self.records[id].data) } else { None }
    }

    /// The table after a new slot holding `data` was made.
    pub open spec fn with_asset(self, data: Arc<P>) -> Self {
        ServerModel {
            records: self.records.insert(self.next_id(), AssetHolder::fresh(data)),
            last_id: self.next_id(),
            ..self
        }
    }

    /// Whether a load of `path` is answered from the path cache.
    pub open spec fn serves(self, path: Seq<char>) -> bool {
        self.paths.contains_key(path) && self.records.contains_key(self.paths[path])
    }

    /// The slot that a colour-texture load of `path` hands out.
    pub open spec fn load_target(self, path: Seq<char>) -> HandleId {
        if self.serves(path) { self.paths[path] } else { self.next_id() }
    }

    /// The table after a colour-texture load of `path` was requested.
    pub open spec fn with_color_load(self, path: Seq<char>, gamma: bool) -> Self {
        if self.serves(path) {
            self
        } else {
            let m = self.with_asset(self.default_color);
            ServerModel {
                paths: m.paths.insert(path, m.last_id),
                requests: m.requests.push((m.last_id, path, gamma)),
                ..m
            }
        }
    }

    /// The table after one sync applied `b`.
    pub open spec fn synced(self, b: BatchModel<P>) -> Self {
        ServerModel { records: synced_records(self.records, b), ..self }
    }
}

pub proof fn lemma_count_up_all_wf<P>(m: Records<P>, last: HandleId, ids: Seq<HandleId>)
    requires
        records_wf(m, last),
    ensures
        records_wf(count_up_all(m, ids), last),
    decreases ids.len(),
{
    if ids.len() > 0 {
        lemma_count_up_all_wf(m, last, ids.drop_last());
    }
}

pub proof fn lemma_replace_all_wf<P>(m: Records<P>, last: HandleId, entries: Seq<(HandleId, Arc<P>)>)
    requires
        records_wf(m, last),
    ensures
        records_wf(replace_all(m, entries), last),
    decreases entries.len(),
{
    if entries.len() > 0 {
        lemma_replace_all_wf(m, last, entries.drop_last());
    }
}

pub proof fn lemma_flag_all_wf<P>(m: Records<P>, last: HandleId, ids: Seq<HandleId>)
    requires
        records_wf(m, last),
    ensures
        records_wf(flag_all(m, ids), last),
    decreases ids.len(),
{
    if ids.len() > 0 {
        lemma_flag_all_wf(m, last, ids.drop_last());
    }
}

pub proof fn lemma_count_down_all_wf<P>(m: Records<P>, last: HandleId, ids: Seq<HandleId>)
    requires
        records_wf(m, last),
    ensures
        records_wf(count_down_all(m, ids), last),
    decreases ids.len(),
{
    if ids.len() > 0 {
        lemma_count_down_all_wf(m, last, ids.drop_last());
    }
}

/// A sync keeps every live slot's id in range and its count positive.
pub proof fn lemma_synced_wf<P>(m: Records<P>, last: HandleId, b: BatchModel<P>)
    requires
        records_wf(m, last),
    ensures
        records_wf(synced_records(m, b), last),
{
    lemma_count_up_all_wf(m, last, b.created);
    let m1 = count_up_all(m, b.created);
    lemma_replace_all_wf(m1, last, b.loaded);
    let m2 = replace_all(m1, b.loaded);
    lemma_flag_all_wf(m2, last, b.dirty);
    lemma_count_down_all_wf(flag_all(m2, b.dirty), last, b.destroyed);
}

} // verus!
