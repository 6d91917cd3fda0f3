use std::sync::Arc;
use vstd::prelude::*;
use crate::HandleId;
use crate::holder::AssetHolder;
use crate::model::{
    Records, ServerModel, count_up_one, count_up_all, replace_one, replace_all, flag_one, flag_all,
    count_down_one, count_down_all, synced_records,
};
use crate::queues::BatchModel;

verus! {

/// The table after one `new_asset` call for each of `vals`, in order.
pub open spec fn with_assets<P>(m: ServerModel<P>, vals: Seq<Arc<P>>) -> ServerModel<P>
    decreases vals.len(),
{
    if vals.len() == 0 {
        m
    } else {
        with_assets(m, vals.drop_last()).with_asset(vals.last())
    }
}

/// A batch that only reports new strong handles.
pub open spec fn created_only<P>(ids: Seq<HandleId>) -> BatchModel<P> {
    BatchModel { created: ids, loaded: Seq::empty(), dirty: Seq::empty(), destroyed: Seq::empty() }
}

/// A batch that only reports strong handles gone.
pub open spec fn destroyed_only<P>(ids: Seq<HandleId>) -> BatchModel<P> {
    BatchModel { created: Seq::empty(), loaded: Seq::empty(), dirty: Seq::empty(), destroyed: ids }
}

/// A live slot keeps its version and a set rebuild flag, and no slot appears.
pub open spec fn keeps_versions_and_flags<P>(before: Records<P>, after: Records<P>) -> bool {
    forall|id: HandleId| #[trigger] after.contains_key(id) ==> {
        &&& before.contains_key(id)
        &&& after[id].version == before[id].version
        &&& (before[id].needs_rebuild ==> after[id].needs_rebuild)
    }
}

/// No slot appears, and a set rebuild flag stays set.
pub open spec fn keeps_flags<P>(before: Records<P>, after: Records<P>) -> bool {
    forall|id: HandleId| #[trigger] after.contains_key(id) ==> {
        &&& before.contains_key(id)
        &&& (before[id].needs_rebuild ==> after[id].needs_rebuild)
    }
}

proof fn lemma_with_assets<P>(m: ServerModel<P>, vals: Seq<Arc<P>>)
    requires
        m.wf(),
        m.last_id + vals.len() <= u64::MAX,
    ensures
        with_assets(m, vals).wf(),
        with_assets(m, vals).last_id == m.last_id + vals.len(),
    decreases vals.len(),
{
    if vals.len() > 0 {
        lemma_with_assets(m, vals.drop_last());
    }
}

/// Over any run of `new_asset` calls, a later call returns a larger id than an
/// earlier one, and each returned id named no live slot before its call.
pub proof fn law_new_asset_ids_unique_and_increasing<P>(m: ServerModel<P>, vals: Seq<Arc<P>>, i: int, j: int)
    requires
        m.wf(),
        m.last_id + vals.len() <= u64::MAX,
        0 <= i < j < vals.len(),
    ensures
        with_assets(m, vals.take(i)).next_id() < with_assets(m, vals.take(j)).next_id(),
        !with_assets(m, vals.take(i)).records.contains_key(with_assets(m, vals.take(i)).next_id()),
        with_assets(m, vals.take(i + 1)).records.contains_key(with_assets(m, vals.take(i)).next_id()),
{
    lemma_with_assets(m, vals.take(i));
    lemma_with_assets(m, vals.take(j));
    assert(vals.take(i + 1).drop_last() =~= vals.take(i));
}

/// Right after `new_asset`, before any sync, the new slot holds the payload given.
pub proof fn law_get_after_new_asset<P>(m: ServerModel<P>, val: Arc<P>)
    ensures
        m.with_asset(val).payload_of(m.next_id()) == Some(val),
        m.with_asset(val).records[m.next_id()] == AssetHolder::fresh(val),
{
}

/// Reporting one clone adds exactly one to the count at the next sync.
pub proof fn law_clone_counts_one<P>(m: ServerModel<P>, id: HandleId)
    requires
        m.records.contains_key(id),
        m.records[id].ref_count < u64::MAX,
    ensures
        m.synced(created_only(seq![id])).records == m.records.insert(id, m.records[id].counted_up()),
        m.synced(created_only(seq![id])).records[id].ref_count == m.records[id].ref_count + 1,
{
    let one = seq![id];
    assert(one.drop_last() =~= Seq::<HandleId>::empty());
    assert(one.last() == id);
    assert(count_up_all(m.records, Seq::<HandleId>::empty()) == m.records);
    assert(count_up_all(m.records, one.drop_last()) == m.records);
    let m1 = count_up_all(m.records, one);
    assert(m1 == count_up_one(m.records, id));
    assert(replace_all(m1, Seq::<(HandleId, Arc<P>)>::empty()) == m1);
    assert(flag_all(m1, Seq::<HandleId>::empty()) == m1);
    assert(count_down_all(m1, Seq::<HandleId>::empty()) == m1);
    assert(synced_records(m.records, created_only(one)) == m1);
}

/// Round trip on a slot held by one strong handle: a clone brings its count to
/// two; dropping one handle leaves it live with a count of one; dropping both
/// collects it, after which lookups find nothing.
pub proof fn law_clone_then_drop_both<P>(m: ServerModel<P>, id: HandleId)
    requires
        m.records.contains_key(id),
        m.records[id].ref_count == 1,
    ensures
        m.synced(created_only(seq![id])).records[id].ref_count == 2,
        m.synced(created_only(seq![id])).synced(destroyed_only(seq![id])).payload_of(id)
            == m.payload_of(id),
        m.synced(created_only(seq![id])).synced(destroyed_only(seq![id])).records[id].ref_count == 1,
        m.synced(created_only(seq![id])).synced(destroyed_only(seq![id, id])).payload_of(id) is None,
{
    law_clone_counts_one(m, id);
    let m1 = m.synced(created_only(seq![id])).records;
    let one = seq![id];
    let two = seq![id, id];
    assert(one.drop_last() =~= Seq::<HandleId>::empty());
    assert(one.last() == id);
    assert(two.drop_last() =~= one);
    assert(two.last() == id);
    let empty_ids = Seq::<HandleId>::empty();
    let empty_loads = Seq::<(HandleId, Arc<P>)>::empty();
    assert(flag_all(replace_all(count_up_all(m1, empty_ids), empty_loads), empty_ids) == m1);
    assert(m1[id].data == m.records[id].data);
    assert(count_down_all(m1, one.drop_last()) == m1);
    let d1 = count_down_all(m1, one);
    assert(d1 == count_down_one(m1, id));
    assert(synced_records(m1, destroyed_only(one)) == d1);
    assert(d1[id].data == m.records[id].data);
    let d2 = count_down_all(m1, two);
    assert(d2 == count_down_one(d1, id));
    assert(synced_records(m1, destroyed_only(two)) == d2);
}

/// A load of a path that is already loading, or loaded, goes to the same slot
/// and changes nothing; the first load's slot shows the default colour until
/// its payload arrives.
pub proof fn law_load_color_texture_idempotent<P>(m: ServerModel<P>, path: Seq<char>, g1: bool, g2: bool)
    requires
        m.wf(),
        m.last_id < u64::MAX,
    ensures
        m.with_color_load(path, g1).load_target(path) == m.load_target(path),
        m.with_color_load(path, g1).with_color_load(path, g2) == m.with_color_load(path, g1),
        !m.serves(path) ==> m.with_color_load(path, g1).payload_of(m.load_target(path)) == Some(
            m.default_color,
        ),
{
}

/// A completion for a live slot puts its payload in place and raises its
/// version by exactly one (below the wrap point).
pub proof fn law_completion_bumps_version<P>(m: Records<P>, id: HandleId, data: Arc<P>)
    requires
        m.contains_key(id),
        m[id].version < u32::MAX,
    ensures
        replace_one(m, (id, data))[id].data == data,
        replace_one(m, (id, data))[id].version == m[id].version + 1,
{
}

proof fn lemma_count_up_all_keeps<P>(m: Records<P>, ids: Seq<HandleId>)
    ensures
        keeps_versions_and_flags(m, count_up_all(m, ids)),
    decreases ids.len(),
{
    if ids.len() > 0 {
        lemma_count_up_all_keeps(m, ids.drop_last());
    }
}

proof fn lemma_flag_all_keeps<P>(m: Records<P>, ids: Seq<HandleId>)
    ensures
        keeps_versions_and_flags(m, flag_all(m, ids)),
    decreases ids.len(),
{
    if ids.len() > 0 {
        lemma_flag_all_keeps(m, ids.drop_last());
    }
}

proof fn lemma_count_down_all_keeps<P>(m: Records<P>, ids: Seq<HandleId>)
    ensures
        keeps_versions_and_flags(m, count_down_all(m, ids)),
    decreases ids.len(),
{
    if ids.len() > 0 {
        lemma_count_down_all_keeps(m, ids.drop_last());
    }
}

proof fn lemma_replace_all_keeps_flags<P>(m: Records<P>, entries: Seq<(HandleId, Arc<P>)>)
    ensures
        keeps_flags(m, replace_all(m, entries)),
    decreases entries.len(),
{
    if entries.len() > 0 {
        lemma_replace_all_keeps_flags(m, entries.drop_last());
    }
}

proof fn lemma_count_up_all_same_keys<P>(m: Records<P>, ids: Seq<HandleId>)
    ensures
        forall|id: HandleId| #[trigger] count_up_all(m, ids).contains_key(id) <==> m.contains_key(id),
    decreases ids.len(),
{
    if ids.len() > 0 {
        let prev = count_up_all(m, ids.drop_last());
        lemma_count_up_all_same_keys(m, ids.drop_last());
        assert forall|id: HandleId| #[trigger] count_up_all(m, ids).contains_key(id) <==> m.contains_key(id) by {
            assert(prev.contains_key(id) <==> m.contains_key(id));
        }
    }
}

proof fn lemma_replace_all_same_keys<P>(m: Records<P>, entries: Seq<(HandleId, Arc<P>)>)
    ensures
        forall|id: HandleId| #[trigger] replace_all(m, entries).contains_key(id) <==> m.contains_key(id),
    decreases entries.len(),
{
    if entries.len() > 0 {
        let prev = replace_all(m, entries.drop_last());
        lemma_replace_all_same_keys(m, entries.drop_last());
        assert forall|id: HandleId| #[trigger] replace_all(m, entries).contains_key(id) <==> m.contains_key(id) by {
            assert(prev.contains_key(id) <==> m.contains_key(id));
        }
    }
}

proof fn lemma_flag_all_sets<P>(m: Records<P>, ids: Seq<HandleId>, id: HandleId)
    requires
        m.contains_key(id),
        ids.contains(id),
    ensures
        flag_all(m, ids).contains_key(id),
        flag_all(m, ids)[id].needs_rebuild,
    decreases ids.len(),
{
    let prefix = ids.drop_last();
    lemma_flag_all_keeps(m, prefix);
    if ids.last() == id {
        lemma_flag_all_same_keys(m, prefix);
    } else {
        let k = choose|k: int| 0 <= k < ids.len() && ids[k] == id;
        assert(prefix[k] == id);
        lemma_flag_all_sets(m, prefix, id);
    }
}

proof fn lemma_flag_all_same_keys<P>(m: Records<P>, ids: Seq<HandleId>)
    ensures
        forall|id: HandleId| #[trigger] flag_all(m, ids).contains_key(id) <==> m.contains_key(id),
    decreases ids.len(),
{
    if ids.len() > 0 {
        let prev = flag_all(m, ids.drop_last());
        lemma_flag_all_same_keys(m, ids.drop_last());
        assert forall|id: HandleId| #[trigger] flag_all(m, ids).contains_key(id) <==> m.contains_key(id) by {
            assert(prev.contains_key(id) <==> m.contains_key(id));
        }
    }
}

/// Count changes and rebuild marks never touch a version: a sync with no
/// completions leaves the version of every slot that stays live as it was.
pub proof fn law_sync_without_completions_keeps_versions<P>(m: ServerModel<P>, b: BatchModel<P>)
    requires
        b.loaded.len() == 0,
    ensures
        forall|id: HandleId| #[trigger] m.synced(b).records.contains_key(id) ==> {
            &&& m.records.contains_key(id)
            &&& m.synced(b).records[id].version == m.records[id].version
        },
{
    let m1 = count_up_all(m.records, b.created);
    let m2 = replace_all(m1, b.loaded);
    let m3 = flag_all(m2, b.dirty);
    lemma_count_up_all_keeps(m.records, b.created);
    assert(m2 == m1);
    lemma_flag_all_keeps(m2, b.dirty);
    lemma_count_down_all_keeps(m3, b.destroyed);
}

/// The table never clears a rebuild flag itself: a slot marked for rebuild
/// stays marked through any sync that leaves it live.
pub proof fn law_rebuild_flag_persists<P>(m: ServerModel<P>, b: BatchModel<P>, id: HandleId)
    requires
        m.records.contains_key(id),
        m.records[id].needs_rebuild,
        m.synced(b).records.contains_key(id),
    ensures
        m.synced(b).records[id].needs_rebuild,
{
    let m1 = count_up_all(m.records, b.created);
    let m2 = replace_all(m1, b.loaded);
    let m3 = flag_all(m2, b.dirty);
    lemma_count_up_all_keeps(m.records, b.created);
    lemma_replace_all_keeps_flags(m1, b.loaded);
    lemma_flag_all_keeps(m2, b.dirty);
    lemma_count_down_all_keeps(m3, b.destroyed);
}

/// A rebuild mark for a live slot sets its flag at the next sync, whatever
/// else the batch holds, unless that sync collects the slot.
pub proof fn law_mark_sets_rebuild<P>(m: ServerModel<P>, b: BatchModel<P>, id: HandleId)
    requires
        b.dirty.contains(id),
        m.records.contains_key(id),
        m.synced(b).records.contains_key(id),
    ensures
        m.synced(b).records[id].needs_rebuild,
{
    let m1 = count_up_all(m.records, b.created);
    let m2 = replace_all(m1, b.loaded);
    let m3 = flag_all(m2, b.dirty);
    lemma_count_up_all_same_keys(m.records, b.created);
    lemma_replace_all_same_keys(m1, b.loaded);
    lemma_flag_all_sets(m2, b.dirty, id);
    lemma_count_down_all_keeps(m3, b.destroyed);
}

} // verus!
