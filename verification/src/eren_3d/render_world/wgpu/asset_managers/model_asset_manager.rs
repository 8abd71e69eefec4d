use vstd::prelude::*;
use vstd::utf8::encode_utf8;

use crate::eren_core::render::wgpu::asset::{extension_of, extension_start, suffix_equals};
use crate::eren_core::render_world::asset_cache::GpuAssetCache;

verus! {

/// One mesh of a model on the GPU: its vertex and index buffers, the number of
/// indices to draw, and its texture's bind group when it has a base color texture.
pub struct MeshGpuResource<B, G> {
    pub vertex_buffer: B,
    pub index_buffer: B,
    pub num_indices: u32,
    pub bind_group: Option<G>,
}

/// A model on the GPU: its meshes, in the order of the model file.
pub struct ModelGpuResource<B, G> {
    pub meshes: Vec<MeshGpuResource<B, G>>,
}

/// The wgpu model manager: parsed models `M`, and the meshes on the GPU `R` made
/// from them while the device exists.
pub type WgpuModelAssetManager<M, R> = GpuAssetCache<M, R>;

/// The extension `gltf`.
pub open spec fn gltf_extension() -> Seq<u8> {
    seq![103u8, 108u8, 116u8, 102u8]
}

/// The extension `glb`.
pub open spec fn glb_extension() -> Seq<u8> {
    seq![103u8, 108u8, 98u8]
}

/// Whether a model at `path` can be loaded: its extension is `gltf` or `glb`.
pub fn is_supported_model_path(path: &String) -> (supported: bool)
    ensures
        supported == (extension_of(encode_utf8(path@)) == gltf_extension() || extension_of(
            encode_utf8(path@),
        ) == glb_extension()),
{
    let bytes = path.as_str().as_bytes();
    let start = extension_start(bytes);
    let gltf: [u8; 4] = [103u8, 108u8, 116u8, 102u8];
    let glb: [u8; 3] = [103u8, 108u8, 98u8];
    assert(gltf@ =~= gltf_extension());
    assert(glb@ =~= glb_extension());
    suffix_equals(bytes, start, &gltf) || suffix_equals(bytes, start, &glb)
}

} // verus!
