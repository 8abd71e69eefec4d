use vstd::prelude::*;

use crate::eren_core::render_world::asset_cache::GpuAssetCache;

verus! {

/// The wgpu sprite manager: decoded images `I`, and the bind groups (with sizes) `R`
/// made from them while the device exists.
pub type WgpuSpriteAssetManager<I, R> = GpuAssetCache<I, R>;

} // verus!
