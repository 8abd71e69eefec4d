use vstd::prelude::*;

use crate::eren_core::render_world::ash::buffer::{
    find_memory_type_index, is_first_fitting_type, MemoryProperties, MAX_MEMORY_TYPES,
};
use crate::eren_core::render_world::asset_cache::GpuAssetCache;

verus! {

/// The Vulkan sprite manager: decoded images `I`, and the images, views and
/// descriptor sets `R` made from them while the device exists.
pub type AshSpriteAssetManager<I, R> = GpuAssetCache<I, R>;

/// The first memory type that `type_bits` allows and that has every property in
/// `reqs`: where a sprite texture's memory is allocated.
pub fn find_memory_type(type_bits: u32, reqs: u32, props: &MemoryProperties) -> (found: Option<u32>)
    requires
        props.memory_type_count <= props.property_flags@.len(),
        props.property_flags@.len() <= MAX_MEMORY_TYPES,
    ensures
        is_first_fitting_type(
            found,
            type_bits,
            props.property_flags@,
            reqs,
            props.memory_type_count as int,
        ),
{
    find_memory_type_index(type_bits, props, reqs)
}

} // verus!
