use vstd::prelude::*;

use crate::eren_core::render_world::instancing::{
    batch_by_key, is_batching_of, is_instance_capacity, DrawBatch, InstanceBufferState,
    MAX_INSTANCES,
};

verus! {

/// Vulkan's index list for the sprite quad: two triangles over four corners.
pub const QUAD_INDICES: [u16; 6] = [0, 1, 2, 2, 3, 0];

/// The work of one frame of sprites: the instance buffer to allocate, if the old
/// one is too small, and the draw calls, one per run of sprites that share a
/// descriptor set.
pub struct SpriteDrawPlan {
    pub new_instance_capacity: Option<usize>,
    pub batches: Vec<DrawBatch>,
}

/// The frame-to-frame state of the Vulkan sprite renderer: its instance buffer.
pub struct AshSpriteRenderer {
    instance_buffer: InstanceBufferState,
}

impl AshSpriteRenderer {
    pub closed spec fn instance_buffer(&self) -> InstanceBufferState {
        self.instance_buffer
    }

    pub open spec fn wf(&self) -> bool {
        self.instance_buffer().wf()
    }

    pub fn new() -> (renderer: Self)
        ensures
            renderer.wf(),
            !renderer.instance_buffer().allocated(),
            renderer.instance_buffer().capacity() == 0,
    {
        AshSpriteRenderer { instance_buffer: InstanceBufferState::new() }
    }

    /// Plans the draw of one frame whose sprites are bound through
    /// `descriptor_sets`, in order. An empty frame records nothing.
    pub fn plan_render(&mut self, descriptor_sets: &Vec<u64>) -> (plan: Option<SpriteDrawPlan>)
        requires
            old(self).wf(),
            descriptor_sets@.len() <= MAX_INSTANCES,
        ensures
            final(self).wf(),
            descriptor_sets@.len() == 0 ==> (plan is None && *final(self) == *old(self)),
            descriptor_sets@.len() > 0 ==> (plan matches Some(p) && {
                &&& is_batching_of(descriptor_sets@, p.batches@)
                &&& final(self).instance_buffer().allocated()
                &&& descriptor_sets@.len() <= final(self).instance_buffer().capacity()
                &&& (descriptor_sets@.len() > old(self).instance_buffer().capacity()
                    || !old(self).instance_buffer().allocated()) ==> (p.new_instance_capacity
                    matches Some(c) && c == final(self).instance_buffer().capacity()
                    && is_instance_capacity(descriptor_sets@.len() as int, c as int))
                &&& !(descriptor_sets@.len() > old(self).instance_buffer().capacity()
                    || !old(self).instance_buffer().allocated()) ==> (p.new_instance_capacity is None
                    && final(self).instance_buffer() == old(self).instance_buffer())
            }),
    {
        if descriptor_sets.len() == 0 {
            return None;
        }
        let new_instance_capacity = self.instance_buffer.reserve(descriptor_sets.len());
        let batches = batch_by_key(descriptor_sets);
        Some(SpriteDrawPlan { new_instance_capacity, batches })
    }
}

} // verus!
