use std::collections::HashMap;

use eren::eren_2d::game_world::asset_bundle::AssetBundle as SpriteBundle;
use eren::eren_3d::game_world::asset_bundle::AssetBundle as ModelBundle;
use eren::eren_core::asset::AssetBundle;
use eren::eren_core::game::state::{contains_string, GameState};
use eren::eren_core::game_world::state::assets::{contains_id, AssetsState};
use eren::eren_core::render_world::asset_cache::GpuAssetCache;

fn s(x: &str) -> String {
    x.to_string()
}

#[test]
fn game_state_reports_loaded_asset() {
    let mut state = GameState::new();
    state.loaded_assets.push(s("logo.png"));
    assert!(state.is_asset_loaded(s("logo.png")));
    assert!(state.required_assets.is_empty());
}

#[test]
fn game_state_records_missing_asset_once() {
    let mut state = GameState::new();
    assert!(!state.is_asset_loaded(s("a.png")));
    assert!(!state.is_asset_loaded(s("a.png")));
    assert!(!state.is_asset_loaded(s("b.png")));
    assert_eq!(state.required_assets, vec![s("a.png"), s("b.png")]);
    assert!(contains_string(&state.required_assets, &s("b.png")));
    assert!(!contains_string(&state.required_assets, &s("c.png")));
}

#[test]
fn core_bundle_waits_until_loaded() {
    let mut state = GameState::new();
    let mut bundle = AssetBundle::new(vec![(s("a"), s("a.png")), (s("b"), s("b.png"))]);
    state.loaded_assets.push(s("b"));
    assert!(!bundle.is_loaded(&mut state));
    assert_eq!(state.required_assets, vec![s("a")]);
    // checking again, with nothing loaded in between, changes nothing
    assert!(!bundle.is_loaded(&mut state));
    assert_eq!(state.required_assets, vec![s("a")]);
    state.loaded_assets.push(s("a"));
    assert!(bundle.is_loaded(&mut state));
    assert!(bundle.is_loaded(&mut state));
}

#[test]
fn contains_id_finds_ids() {
    assert!(contains_id(&vec![3, 5, 8], 5));
    assert!(!contains_id(&vec![3, 5, 8], 4));
    assert!(!contains_id(&vec![], 4));
}

#[test]
fn empty_sprite_bundle_is_loaded() {
    let mut assets = AssetsState::new();
    let mut bundle = SpriteBundle::new(vec![]);
    assert!(bundle.is_loaded(&mut assets));
    assert!(assets.pending.is_empty());
}

#[test]
fn sprite_bundle_requests_missing_sprites_with_first_path() {
    let mut assets = AssetsState::new();
    assets.ready.push(7);
    assets.pending.insert(7, "old/seven.png");
    assets.pending.insert(9, "nine.png");
    let mut bundle = SpriteBundle::new(vec![(1, "one.png"), (7, "seven.png"), (1, "other.png"), (9, "x.png")]);
    assert!(!bundle.is_loaded(&mut assets));
    let mut expected = HashMap::new();
    expected.insert(1, "one.png");
    expected.insert(9, "nine.png");
    assert_eq!(assets.pending, expected);
    assert_eq!(assets.ready, vec![7]);
}

#[test]
fn sprite_bundle_is_loaded_after_engine_drains() {
    let mut assets = AssetsState::new();
    let mut bundle = SpriteBundle::new(vec![(1, "logo.png"), (2, "hero.png")]);
    assert!(!bundle.is_loaded(&mut assets));
    let mut loads = assets.drain_pending();
    loads.sort();
    assert_eq!(loads, vec![(1, "logo.png"), (2, "hero.png")]);
    assert!(assets.pending.is_empty());
    let mut ready = assets.ready.clone();
    ready.sort();
    assert_eq!(ready, vec![1, 2]);
    assert!(bundle.is_loaded(&mut assets));
}

#[test]
fn model_bundle_is_loaded_after_engine_drains() {
    let mut assets = AssetsState::new();
    let mut bundle = ModelBundle::new(vec![(4, "character.glb")]);
    assert!(!bundle.is_loaded(&mut assets));
    assert!(!bundle.is_loaded(&mut assets));
    assert_eq!(assets.pending.len(), 1);
    let loads = assets.drain_pending();
    assert_eq!(loads, vec![(4, "character.glb")]);
    assert!(bundle.is_loaded(&mut assets));
    assert!(assets.pending.is_empty());
}

#[test]
fn drain_of_empty_table_loads_nothing() {
    let mut assets = AssetsState::new();
    assets.ready.push(3);
    assert!(assets.drain_pending().is_empty());
    assert_eq!(assets.ready, vec![3]);
}

#[test]
fn asset_cache_uploads_only_while_gpu_exists() {
    let mut cache: GpuAssetCache<&str, usize> = GpuAssetCache::new();
    assert!(!cache.is_gpu_ready());
    assert_eq!(cache.load(1, "image one", |d| d.len()), None);
    assert!(cache.get_gpu_resource(1).is_none());
    cache.on_gpu_resources_ready(|d| d.len());
    assert!(cache.is_gpu_ready());
    assert_eq!(cache.get_gpu_resource(1), Some(&9));
    assert_eq!(cache.load(2, "image two!", |d| d.len()), None);
    assert_eq!(cache.get_gpu_resource(2), Some(&10));
    assert_eq!(cache.loaded_data(2), Some(&"image two!"));
    // loading again replaces the resource, and hands back the one replaced
    assert_eq!(cache.load(2, "two", |d| d.len()), Some(10));
    assert_eq!(cache.get_gpu_resource(2), Some(&3));
    cache.on_gpu_resources_lost();
    assert!(!cache.is_gpu_ready());
    assert!(cache.get_gpu_resource(1).is_none());
    assert!(cache.get_gpu_resource(2).is_none());
    let mut loaded = cache.loaded_assets();
    loaded.sort();
    assert_eq!(loaded, vec![1, 2]);
    // every loaded asset is uploaded again when the GPU comes back
    cache.on_gpu_resources_ready(|d| d.len() + 100);
    assert_eq!(cache.get_gpu_resource(1), Some(&109));
    assert_eq!(cache.get_gpu_resource(2), Some(&103));
}

#[test]
fn drawable_requests_skip_assets_without_resources() {
    let mut cache: GpuAssetCache<&str, usize> = GpuAssetCache::new();
    cache.load(1, "one", |d| d.len());
    cache.on_gpu_resources_ready(|d| d.len());
    cache.load(2, "two", |d| d.len());
    assert_eq!(cache.drawable_requests(&vec![1, 3, 2, 3]), vec![0, 2]);
    assert!(cache.drawable_requests(&vec![]).is_empty());
    cache.on_gpu_resources_lost();
    assert!(cache.drawable_requests(&vec![2]).is_empty());
}
