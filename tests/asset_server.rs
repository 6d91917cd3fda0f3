use std::sync::Arc;

use space_assets::handle::Handle;
use space_assets::queues::PendingBatch;
use space_assets::server::{join_path, AssetServer};
use space_assets::Asset;

#[derive(Debug, PartialEq)]
struct Tex(u32);

impl Asset for Tex {}

fn table() -> AssetServer<Tex> {
    AssetServer::new(Arc::new(Tex(0)), Arc::new(Tex(1)))
}

fn payload(server: &AssetServer<Tex>, handle: &Handle<Tex>) -> Option<u32> {
    server.get(handle).map(|t| t.0)
}

#[test]
fn new_asset_ids_are_unique_and_increasing() {
    let mut server = table();
    let handles: Vec<Handle<Tex>> = (0..10).map(|i| server.new_asset(Arc::new(Tex(i)))).collect();
    for w in handles.windows(2) {
        assert!(w[0].get_idx() < w[1].get_idx());
    }
    assert_eq!(handles[0].get_idx(), 1);
    assert_eq!(handles[9].get_idx(), 10);
}

#[test]
fn ids_are_not_reused_after_collection() {
    let mut server = table();
    let h = server.new_asset(Arc::new(Tex(5)));
    let first = h.get_idx();
    drop(h);
    server.sync_tick();
    assert!(server.get_by_id(first).is_none());
    let h2 = server.new_asset(Arc::new(Tex(6)));
    assert!(h2.get_idx() > first);
}

#[test]
fn get_after_new_asset_returns_payload() {
    let mut server = table();
    let a = server.new_asset(Arc::new(Tex(42)));
    let b = server.new_asset(Arc::new(Tex(43)));
    assert_eq!(payload(&server, &a), Some(42));
    assert_eq!(payload(&server, &b), Some(43));
    assert_eq!(server.get_version(&a), Some(0));
    assert_eq!(server.get_ref_count(a.get_idx()), Some(1));
    assert_eq!(server.needs_rebuild(a.get_idx()), Some(false));
}

#[test]
fn clone_sync_drop_round_trip() {
    let mut server = table();
    let h1 = server.new_asset(Arc::new(Tex(3)));
    let id = h1.get_idx();
    let weak = h1.get_weak();
    let h2 = h1.clone();
    assert_eq!(server.get_ref_count(id), Some(1));
    server.sync_tick();
    assert_eq!(server.get_ref_count(id), Some(2));
    drop(h1);
    server.sync_tick();
    assert_eq!(server.get_ref_count(id), Some(1));
    assert_eq!(server.get_untyped(&weak).map(|t| t.0), Some(3));
    drop(h2);
    server.sync_tick();
    assert!(server.get_untyped(&weak).is_none());
    assert!(server.get_ref_count(id).is_none());
}

#[test]
fn clone_and_drop_in_one_frame_net_out() {
    let mut server = table();
    let h1 = server.new_asset(Arc::new(Tex(3)));
    let id = h1.get_idx();
    let h2 = h1.clone();
    drop(h1);
    server.sync_tick();
    assert_eq!(server.get_ref_count(id), Some(1));
    assert_eq!(payload(&server, &h2), Some(3));
}

#[test]
fn weak_handles_do_not_count() {
    let mut server = table();
    let h = server.new_asset(Arc::new(Tex(8)));
    let id = h.get_idx();
    let weak = h.get_weak();
    let weak2 = weak.clone();
    drop(weak);
    server.sync_tick();
    assert_eq!(server.get_ref_count(id), Some(1));
    let strong = weak2.get_strong();
    server.sync_tick();
    assert_eq!(server.get_ref_count(id), Some(2));
    drop(strong);
    drop(h);
    server.sync_tick();
    assert!(server.get_untyped(&weak2).is_none());
}

#[test]
fn load_color_texture_twice_gives_one_slot() {
    let mut server = table();
    let h1 = server.load_color_texture("a.png".to_string(), true);
    let h2 = server.load_color_texture("a.png".to_string(), true);
    assert_eq!(h1.get_idx(), h2.get_idx());
    assert_eq!(payload(&server, &h1), Some(0));
    assert_eq!(payload(&server, &h2), Some(0));
    let requests = server.take_load_requests();
    assert_eq!(requests.len(), 1);
    assert_eq!(requests[0].target, h1.get_idx());
    assert_eq!(requests[0].path, "a.png");
    assert!(requests[0].gamma);
    server.global().push_loaded(requests[0].target, Arc::new(Tex(77)));
    server.sync_tick();
    assert_eq!(payload(&server, &h1), Some(77));
    assert_eq!(payload(&server, &h2), Some(77));
    assert_eq!(server.get_version(&h1), Some(1));
    assert_eq!(server.get_version(&h2), Some(1));
    assert_eq!(server.get_ref_count(h1.get_idx()), Some(2));
}

#[test]
fn distinct_paths_get_distinct_slots() {
    let mut server = table();
    let a = server.load_color_texture("a.png".to_string(), true);
    let b = server.load_color_texture("b.png".to_string(), false);
    assert_ne!(a.get_idx(), b.get_idx());
    let requests = server.take_load_requests();
    assert_eq!(requests.len(), 2);
    assert_eq!(requests[1].path, "b.png");
    assert!(!requests[1].gamma);
    assert!(server.take_load_requests().is_empty());
}

#[test]
fn load_after_collection_starts_a_new_load() {
    let mut server = table();
    let h = server.load_color_texture("a.png".to_string(), true);
    let first = h.get_idx();
    drop(h);
    server.sync_tick();
    assert!(server.get_by_id(first).is_none());
    let again = server.load_color_texture("a.png".to_string(), true);
    assert!(again.get_idx() > first);
    assert_eq!(server.take_load_requests().len(), 2);
    let third = server.load_color_texture("a.png".to_string(), true);
    assert_eq!(third.get_idx(), again.get_idx());
}

#[test]
fn version_counts_completions_only() {
    let mut server = table();
    let h = server.new_asset(Arc::new(Tex(1)));
    let id = h.get_idx();
    let global = server.global();
    let h2 = h.clone();
    global.mark_dirty(id);
    server.sync_tick();
    assert_eq!(server.get_version(&h), Some(0));
    drop(h2);
    server.sync_tick();
    assert_eq!(server.get_version(&h), Some(0));
    global.push_loaded(id, Arc::new(Tex(2)));
    server.sync_tick();
    assert_eq!(server.get_version(&h), Some(1));
    global.push_loaded(id, Arc::new(Tex(3)));
    global.push_loaded(id, Arc::new(Tex(4)));
    server.sync_tick();
    assert_eq!(server.get_version(&h), Some(3));
    assert_eq!(payload(&server, &h), Some(4));
}

#[test]
fn scenario_load_complete_clone_drop() {
    let mut server = table();
    let h1 = server.load_color_texture("a.png".to_string(), true);
    let id = h1.get_idx();
    assert_eq!(payload(&server, &h1), Some(0));
    assert_eq!(server.get_version(&h1), Some(0));
    server.global().push_loaded(id, Arc::new(Tex(9)));
    server.sync_tick();
    assert_eq!(payload(&server, &h1), Some(9));
    assert_eq!(server.get_version(&h1), Some(1));
    let h2 = h1.clone();
    server.sync_tick();
    assert_eq!(server.get_ref_count(id), Some(2));
    drop(h1);
    drop(h2);
    server.sync_tick();
    assert!(server.get_by_id(id).is_none());
}

#[test]
fn scenario_mark_dirty_persists_until_cleared() {
    let mut server = table();
    let h = server.new_asset(Arc::new(Tex(1)));
    let id = h.get_idx();
    server.global().mark_dirty(id);
    assert_eq!(server.needs_rebuild(id), Some(false));
    server.sync_tick();
    assert_eq!(server.needs_rebuild(id), Some(true));
    server.sync_tick();
    server.sync_tick();
    assert_eq!(server.needs_rebuild(id), Some(true));
    assert!(server.clear_rebuild(id));
    assert_eq!(server.needs_rebuild(id), Some(false));
    assert!(!server.clear_rebuild(id + 100));
}

#[test]
fn entries_for_absent_ids_are_ignored() {
    let mut server = table();
    let h = server.new_asset(Arc::new(Tex(1)));
    let global = server.global();
    global.push_loaded(999, Arc::new(Tex(2)));
    global.mark_dirty(999);
    global.push_create(999);
    global.push_destroy(999);
    server.sync_tick();
    assert!(server.get_by_id(999).is_none());
    assert_eq!(payload(&server, &h), Some(1));
    assert_eq!(server.get_version(&h), Some(0));
}

#[test]
fn apply_batch_runs_increments_before_decrements() {
    let mut server = table();
    let h = server.new_asset(Arc::new(Tex(1)));
    let id = h.get_idx();
    let mut batch = PendingBatch::empty();
    batch.destroyed.push(id);
    batch.created.push(id);
    batch.loaded.push((id, Arc::new(Tex(5))));
    batch.dirty.push(id);
    server.apply_batch(batch);
    assert_eq!(server.get_ref_count(id), Some(1));
    assert_eq!(payload(&server, &h), Some(5));
    assert_eq!(server.get_version(&h), Some(1));
    assert_eq!(server.needs_rebuild(id), Some(true));
    let mut batch = PendingBatch::empty();
    batch.destroyed.push(id);
    batch.loaded.push((id, Arc::new(Tex(6))));
    server.apply_batch(batch);
    assert!(server.get_by_id(id).is_none());
}

#[test]
fn gltf_textures_join_paths_and_fall_back() {
    let mut server = table();
    let color = server.load_gltf_color_texture(&"models/ship".to_string(), Some("hull.png".to_string()), true);
    let normal = server.load_gltf_normal_texture(&"models/ship".to_string(), Some("hull_n.png".to_string()));
    let no_color = server.load_gltf_color_texture(&"models/ship".to_string(), None, true);
    let no_normal = server.load_gltf_normal_texture(&"models/ship".to_string(), None);
    let requests = server.take_load_requests();
    assert_eq!(requests.len(), 2);
    assert_eq!(requests[0].path, "models/ship/hull.png");
    assert_eq!(requests[0].target, color.get_idx());
    assert!(requests[0].gamma);
    assert_eq!(requests[1].path, "models/ship/hull_n.png");
    assert_eq!(requests[1].target, normal.get_idx());
    assert!(!requests[1].gamma);
    assert_eq!(payload(&server, &no_color), Some(0));
    assert_eq!(payload(&server, &no_normal), Some(1));
    assert_eq!(server.get_version(&no_normal), Some(0));
}

#[test]
fn join_path_puts_a_slash_between() {
    assert_eq!(join_path(&"res/a".to_string(), &"b.png".to_string()), "res/a/b.png");
    assert_eq!(join_path(&String::new(), &"b.png".to_string()), "/b.png");
}

#[test]
fn new_table_is_empty() {
    let server = table();
    assert_eq!(server.root_path(), "res");
    assert!(server.get_by_id(1).is_none());
    assert_eq!(server.default_color().0, 0);
    assert_eq!(server.default_normal().0, 1);
}
