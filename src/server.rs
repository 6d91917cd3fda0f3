use std::collections::HashMap;
use std::sync::Arc;
use vstd::prelude::*;
use crate::{Asset, HandleId};
use crate::handle::{Handle, WeakHandle};
use crate::holder::AssetHolder;
use crate::model::{
    ServerModel, RequestModel, count_up_one, count_up_all, replace_one, replace_all, flag_one, flag_all,
    count_down_one, count_down_all, lemma_synced_wf,
};
use crate::path_cache::{
    PathEntry, path_map, find_path, lemma_path_map_absent, lemma_path_map_found, lemma_path_map_push,
    lemma_path_map_update,
};
use crate::queues::{AssetServerGlobal, PendingBatch};

verus! {

broadcast use vstd::std_specs::hash::group_hash_axioms;

/// A background load of a colour texture that the table asked for: decode the
/// image at `path` (as sRGB when `gamma`), build the payload, and push it for
/// slot `target` through the table's queue set.
pub struct ColorTextureRequest {
    pub target: HandleId,
    pub path: String,
    pub gamma: bool,
}

impl View for ColorTextureRequest {
    type V = RequestModel;

    open spec fn view(&self) -> RequestModel {
        (self.target, self.path@, self.gamma)
    }
}

/// The asset table. Only its owner reads or changes the slots; handles and
/// background tasks reach it through the shared queue set alone.
#[verifier::reject_recursive_types(P)]
pub struct AssetServer<P> {
    root_path: String,
    assets: HashMap<HandleId, AssetHolder<P>>,
    loaded_assets: Vec<PathEntry<P>>,
    counter: HandleId,
    memory_holder: Arc<AssetServerGlobal<P>>,
    default_color: Arc<P>,
    default_normal: Arc<P>,
    requests: Vec<ColorTextureRequest>,
}

impl<P> View for AssetServer<P> {
    type V = ServerModel<P>;

    closed spec fn view(&self) -> ServerModel<P> {
        ServerModel {
            records: self.assets@,
            last_id: self.counter,
            paths: path_map(self.loaded_assets@),
            requests: self.requests@.map_values(|r: ColorTextureRequest| r@),
            default_color: self.default_color,
            default_normal: self.default_normal,
        }
    }
}

fn count_up_in<P>(assets: &mut HashMap<HandleId, AssetHolder<P>>, ids: &Vec<HandleId>)
    ensures
        final(assets)@ == count_up_all(old(assets)@, ids@),
{
    let ghost start = assets@;
    let mut i: usize = 0;
    while i < ids.len()
        invariant
            i <= ids@.len(),
            assets@ == count_up_all(start, ids@.subrange(0, i as int)),
        decreases ids@.len() - i,
    {
        let ghost prev = assets@;
        let id = ids[i];
        match assets.remove(&id) {
            Some(mut h) => {
                h.inc_counter();
                assets.insert(id, h);
            },
            None => {},
        }
        assert(assets@ =~= count_up_one(prev, id));
        assert(ids@.subrange(0, i + 1).drop_last() =~= ids@.subrange(0, i as int));
        i = i + 1;
    }
    assert(ids@.subrange(0, ids@.len() as int) =~= ids@);
}

fn replace_in<P>(assets: &mut HashMap<HandleId, AssetHolder<P>>, entries: &Vec<(HandleId, Arc<P>)>)
    ensures
        final(assets)@ == replace_all(old(assets)@, entries@),
{
    let ghost start = assets@;
    let mut i: usize = 0;
    while i < entries.len()
        invariant
            i <= entries@.len(),
            assets@ == replace_all(start, entries@.subrange(0, i as int)),
        decreases entries@.len() - i,
    {
        let ghost prev = assets@;
        let id = entries[i].0;
        match assets.remove(&id) {
            Some(mut h) => {
                h.update_data(entries[i].1.clone());
                assets.insert(id, h);
            },
            None => {},
        }
        assert(assets@ =~= replace_one(prev, entries@[i as int]));
        assert(entries@.subrange(0, i + 1).drop_last() =~= entries@.subrange(0, i as int));
        i = i + 1;
    }
    assert(entries@.subrange(0, entries@.len() as int) =~= entries@);
}

fn flag_in<P>(assets: &mut HashMap<HandleId, AssetHolder<P>>, ids: &Vec<HandleId>)
    ensures
        final(assets)@ == flag_all(old(assets)@, ids@),
{
    let ghost start = assets@;
    let mut i: usize = 0;
    while i < ids.len()
        invariant
            i <= ids@.len(),
            assets@ == flag_all(start, ids@.subrange(0, i as int)),
        decreases ids@.len() - i,
    {
        let ghost prev = assets@;
        let id = ids[i];
        match assets.remove(&id) {
            Some(mut h) => {
                h.set_rebuild(true);
                assets.insert(id, h);
            },
            None => {},
        }
        assert(assets@ =~= flag_one(prev, id));
        assert(ids@.subrange(0, i + 1).drop_last() =~= ids@.subrange(0, i as int));
        i = i + 1;
    }
    assert(ids@.subrange(0, ids@.len() as int) =~= ids@);
}

fn count_down_in<P>(assets: &mut HashMap<HandleId, AssetHolder<P>>, ids: &Vec<HandleId>)
    ensures
        final(assets)@ == count_down_all(old(assets)@, ids@),
{
    let ghost start = assets@;
    let mut i: usize = 0;
    while i < ids.len()
        invariant
            i <= ids@.len(),
            assets@ == count_down_all(start, ids@.subrange(0, i as int)),
        decreases ids@.len() - i,
    {
        let ghost prev = assets@;
        let id = ids[i];
        match assets.remove(&id) {
            Some(mut h) => {
                if h.ref_count > 1 {
                    h.dec_counter();
                    assets.insert(id, h);
                }
            },
            None => {},
        }
        assert(assets@ =~= count_down_one(prev, id));
        assert(ids@.subrange(0, i + 1).drop_last() =~= ids@.subrange(0, i as int));
        i = i + 1;
    }
    assert(ids@.subrange(0, ids@.len() as int) =~= ids@);
}

impl<P: Asset> AssetServer<P> {
    pub open spec fn wf(&self) -> bool {
        self@.wf()
    }

    /// An empty table whose colour and normal loads show the given defaults
    /// until they complete. Assets are looked for under `res`.
    pub fn new(default_color: Arc<P>, default_normal: Arc<P>) -> (r: Self)
        ensures
            r.wf(),
            r@.records == Map::<HandleId, AssetHolder<P>>::empty(),
            r@.last_id == 0,
            r@.paths == Map::<Seq<char>, HandleId>::empty(),
            r@.requests == Seq::<RequestModel>::empty(),
            r@.default_color == default_color,
            r@.default_normal == default_normal,
    {
        let r = AssetServer {
            root_path: String::from_str("res"),
            assets: HashMap::new(),
            loaded_assets: Vec::new(),
            counter: 0,
            memory_holder: Arc::new(AssetServerGlobal::new()),
            default_color,
            default_normal,
            requests: Vec::new(),
        };
        assert(r@.requests =~= Seq::<RequestModel>::empty());
        r
    }

    /// Folder under which asset files are looked for.
    pub fn root_path(&self) -> (r: &String) {
        &self.root_path
    }

    /// The queue set, for background tasks and other producers.
    pub fn global(&self) -> Arc<AssetServerGlobal<P>> {
        self.memory_holder.clone()
    }

    pub fn default_color(&self) -> (r: Arc<P>)
        ensures
            r == self@.default_color,
    {
        self.default_color.clone()
    }

    pub fn default_normal(&self) -> (r: Arc<P>)
        ensures
            r == self@.default_normal,
    {
        self.default_normal.clone()
    }

    /// Makes a new slot holding `val`, counted for the one strong handle returned.
    pub fn new_asset(&mut self, val: Arc<P>) -> (r: Handle<P>)
        requires
            old(self).wf(),
            old(self)@.last_id < u64::MAX,
        ensures
            final(self).wf(),
            r@ == old(self)@.next_id(),
            final(self)@ == old(self)@.with_asset(val),
    {
        self.make_slot(val)
    }

    fn make_slot(&mut self, val: Arc<P>) -> (r: Handle<P>)
        requires
            old(self).wf(),
            old(self)@.last_id < u64::MAX,
        ensures
            final(self).wf(),
            r@ == old(self)@.next_id(),
            final(self)@ == old(self)@.with_asset(val),
            final(self).loaded_assets == old(self).loaded_assets,
            final(self).requests == old(self).requests,
    {
        let holder = AssetHolder::new(val);
        self.counter = self.counter + 1;
        self.assets.insert(self.counter, holder);
        Handle::counted(self.counter, self.memory_holder.clone())
    }

    /// Current payload of the slot, or `None` once it was collected.
    pub fn get(&self, handle: &Handle<P>) -> (r: Option<Arc<P>>)
        ensures
            r == self@.payload_of(handle@),
    {
        self.get_by_id(handle.get_idx())
    }

    /// As `get`, through a weak handle.
    pub fn get_untyped(&self, handle: &WeakHandle<P>) -> (r: Option<Arc<P>>)
        ensures
            r == self@.payload_of(handle@),
    {
        self.get_by_id(handle.get_idx())
    }

    pub fn get_by_id(&self, id: HandleId) -> (r: Option<Arc<P>>)
        ensures
            r == self@.payload_of(id),
    {
        match self.assets.get(&id) {
            Some(h) => Some(h.get().clone()),
            None => None,
        }
    }

    /// How often the slot's payload was replaced, or `None` once it was collected.
    pub fn get_version(&self, handle: &Handle<P>) -> (r: Option<u32>)
        ensures
            r == (if self@.records.contains_key(handle@) {
                Some(self@.records[handle@].version)
            } else {
                None
            }),
    {
        match self.assets.get(&handle.get_idx()) {
            Some(h) => Some(h.get_version()),
            None => None,
        }
    }

    /// Strong handles counted for the slot so far.
    pub fn get_ref_count(&self, id: HandleId) -> (r: Option<u64>)
        ensures
            r == (if self@.records.contains_key(id) {
                Some(self@.records[id].ref_count)
            } else {
                None
            }),
    {
        match self.assets.get(&id) {
            Some(h) => Some(h.ref_count),
            None => None,
        }
    }

    /// Whether derived state of the slot waits to be rebuilt.
    pub fn needs_rebuild(&self, id: HandleId) -> (r: Option<bool>)
        ensures
            r == (if self@.records.contains_key(id) {
                Some(self@.records[id].needs_rebuild)
            } else {
                None
            }),
    {
        match self.assets.get(&id) {
            Some(h) => Some(h.needs_rebuild),
            None => None,
        }
    }

    /// Clears the rebuild flag once a consumer has rebuilt; `false` when the
    /// slot is gone.
    pub fn clear_rebuild(&mut self, id: HandleId) -> (r: bool)
        requires
            old(self).wf(),
        ensures
            final(self).wf(),
            r == old(self)@.records.contains_key(id),
            final(self)@ == (ServerModel {
                records: if r {
                    old(self)@.records.insert(id, old(self)@.records[id].flagged(false))
                } else {
                    old(self)@.records
                },
                ..old(self)@
            }),
    {
        match self.assets.remove(&id) {
            Some(mut h) => {
                h.set_rebuild(false);
                self.assets.insert(id, h);
                proof {
                    assert(self@.records =~= old(self)@.records.insert(id, old(self)@.records[id].flagged(false)));
                }
                true
            },
            None => {
                assert(self@.records =~= old(self)@.records);
                false
            },
        }
    }

    /// Applies one drained batch: increments, then finished payloads, then
    /// rebuild marks, then decrements. Ids no longer live are skipped.
    pub fn apply_batch(&mut self, batch: PendingBatch<P>)
        requires
            old(self).wf(),
        ensures
            final(self).wf(),
            final(self)@ == old(self)@.synced(batch@),
    {
        proof {
            lemma_synced_wf(self@.records, self@.last_id, batch@);
        }
        count_up_in(&mut self.assets, &batch.created);
        replace_in(&mut self.assets, &batch.loaded);
        flag_in(&mut self.assets, &batch.dirty);
        count_down_in(&mut self.assets, &batch.destroyed);
    }

    /// Drains the shared queues and applies what they held. Call once per
    /// frame on the owning thread.
    pub fn sync_tick(&mut self)
        requires
            old(self).wf(),
        ensures
            final(self).wf(),
            exists|b| final(self)@ == #[trigger] old(self)@.synced(b),
    {
        let batch = self.memory_holder.take_batch();
        let ghost b = batch@;
        self.apply_batch(batch);
        assert(self@ == old(self)@.synced(b));
    }

    /// Hands out a strong handle to the colour texture at `path`. A path whose
    /// slot still lives is answered from the path cache, with no new load.
    /// Otherwise a new slot shows the default colour, the path is remembered,
    /// and a background load is requested; the call never waits for it.
    pub fn load_color_texture(&mut self, path: String, gamma: bool) -> (r: Handle<P>)
        requires
            old(self).wf(),
            old(self)@.last_id < u64::MAX,
        ensures
            final(self).wf(),
            r@ == old(self)@.load_target(path@),
            final(self)@ == old(self)@.with_color_load(path@, gamma),
    {
        let found = find_path(&self.loaded_assets, &path);
        match found {
            Some(i) => {
                proof {
                    lemma_path_map_found(self.loaded_assets@, i as int, path@);
                }
                let id = self.loaded_assets[i].handle.get_idx();
                if self.assets.contains_key(&id) {
                    return self.loaded_assets[i].handle.get_strong();
                }
            },
            None => {
                proof {
                    lemma_path_map_absent(self.loaded_assets@, path@);
                }
            },
        }
        let ghost before = self@;
        let default_color = self.default_color.clone();
        let handler = self.make_slot(default_color);
        let entry = PathEntry { path: path.clone(), handle: handler.get_weak() };
        match found {
            Some(i) => {
                proof {
                    lemma_path_map_update(self.loaded_assets@, i as int, entry);
                }
                self.loaded_assets.set(i, entry);
            },
            None => {
                proof {
                    lemma_path_map_push(self.loaded_assets@, entry);
                }
                self.loaded_assets.push(entry);
            },
        }
        let request = ColorTextureRequest { target: handler.get_idx(), path, gamma };
        self.requests.push(request);
        proof {
            assert(self@.requests =~= before.requests.push((before.next_id(), path@, gamma)));
        }
        handler
    }

    /// Takes the background loads requested since the last call, oldest first,
    /// for the caller to run on its worker pool.
    pub fn take_load_requests(&mut self) -> (r: Vec<ColorTextureRequest>)
        requires
            old(self).wf(),
        ensures
            final(self).wf(),
            r@.len() == old(self)@.requests.len(),
            forall|i: int| 0 <= i < r@.len() ==> (#[trigger] r@[i])@ == old(self)@.requests[i],
            final(self)@ == (ServerModel { requests: Seq::<RequestModel>::empty(), ..old(self)@ }),
    {
        let mut r = Vec::new();
        std::mem::swap(&mut r, &mut self.requests);
        assert(self@.requests =~= Seq::<RequestModel>::empty());
        r
    }

    /// Loads the colour texture that a scene file names by `uri`, relative to
    /// the folder `base`; with no texture the slot shows the default colour.
    pub fn load_gltf_color_texture(&mut self, base: &String, uri: Option<String>, gamma: bool) -> (r:
        Handle<P>)
        requires
            old(self).wf(),
            old(self)@.last_id < u64::MAX,
        ensures
            final(self).wf(),
            match uri {
                Some(u) => {
                    &&& r@ == old(self)@.load_target(joined_path(base@, u@))
                    &&& final(self)@ == old(self)@.with_color_load(joined_path(base@, u@), gamma)
                },
                None => {
                    &&& r@ == old(self)@.next_id()
                    &&& final(self)@ == old(self)@.with_asset(old(self)@.default_color)
                },
            },
    {
        match uri {
            Some(u) => self.load_color_texture(join_path(base, &u), gamma),
            None => {
                let default_color = self.default_color.clone();
                self.new_asset(default_color)
            },
        }
    }

    /// As `load_gltf_color_texture` for a normal map: never gamma-corrected,
    /// and with no texture the slot shows the default normal.
    pub fn load_gltf_normal_texture(&mut self, base: &String, uri: Option<String>) -> (r: Handle<P>)
        requires
            old(self).wf(),
            old(self)@.last_id < u64::MAX,
        ensures
            final(self).wf(),
            match uri {
                Some(u) => {
                    &&& r@ == old(self)@.load_target(joined_path(base@, u@))
                    &&& final(self)@ == old(self)@.with_color_load(joined_path(base@, u@), false)
                },
                None => {
                    &&& r@ == old(self)@.next_id()
                    &&& final(self)@ == old(self)@.with_asset(old(self)@.default_normal)
                },
            },
    {
        match uri {
            Some(u) => self.load_color_texture(join_path(base, &u), false),
            None => {
                let default_normal = self.default_normal.clone();
                self.new_asset(default_normal)
            },
        }
    }
}

/// `uri` inside the folder `base`.
pub open spec fn joined_path(base: Seq<char>, uri: Seq<char>) -> Seq<char> {
    base + seq!['/'] + uri
}

pub fn join_path(base: &String, uri: &String) -> (r: String)
    ensures
        r@ == joined_path(base@, uri@),
{
    let mut r = base.clone();
    r.append("/");
    r.append(uri.as_str());
    proof {
        reveal_strlit("/");
    }
    r
}

} // verus!
