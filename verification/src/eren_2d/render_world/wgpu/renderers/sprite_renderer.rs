use vstd::prelude::*;

use crate::eren_core::render_world::instancing::{
    batch_by_key, is_batching_of, is_instance_capacity, DrawBatch, InstanceBufferState,
    MAX_INSTANCES,
};

verus! {

/// The work of one frame of sprites: the instance buffer to allocate, if the old
/// one is missing or too small, and the draw calls, one per run of sprites that
/// share an asset.
pub struct SpriteRenderPlan {
    pub new_instance_capacity: Option<usize>,
    pub batches: Vec<DrawBatch>,
}

/// The frame-to-frame state of the wgpu sprite renderer: whether its GPU
/// resources exist, and its instance buffer.
pub struct WgpuSpriteRenderer {
    gpu_ready: bool,
    instance_buffer: InstanceBufferState,
}

impl WgpuSpriteRenderer {
    pub closed spec fn gpu_ready(&self) -> bool {
        self.gpu_ready
    }

    pub closed spec fn instance_buffer(&self) -> InstanceBufferState {
        self.instance_buffer
    }

    pub open spec fn wf(&self) -> bool {
        self.instance_buffer().wf()
    }

    /// The state of a renderer without GPU resources: not ready, no instance buffer.
    pub closed spec fn unready() -> Self {
        WgpuSpriteRenderer { gpu_ready: false, instance_buffer: InstanceBufferState::released() }
    }

    pub fn new() -> (renderer: Self)
        ensures
            renderer.wf(),
            !renderer.gpu_ready(),
            !renderer.instance_buffer().allocated(),
            renderer.instance_buffer().capacity() == 0,
            renderer == Self::unready(),
    {
        WgpuSpriteRenderer { gpu_ready: false, instance_buffer: InstanceBufferState::new() }
    }

    /// The pipeline, quad and screen buffers now exist.
    pub fn on_gpu_resources_ready(&mut self)
        requires
            old(self).wf(),
        ensures
            final(self).wf(),
            final(self).gpu_ready(),
            final(self).instance_buffer() == old(self).instance_buffer(),
    {
        self.gpu_ready = true;
    }

    /// Every GPU resource is gone, the instance buffer with them.
    pub fn on_gpu_resources_lost(&mut self)
        ensures
            final(self).wf(),
            !final(self).gpu_ready(),
            !final(self).instance_buffer().allocated(),
            final(self).instance_buffer().capacity() == 0,
            *final(self) == Self::unready(),
    {
        self.gpu_ready = false;
        self.instance_buffer.release();
    }

    /// Plans the draw of one frame whose sprites use `sprite_asset_ids`, in order.
    /// Nothing is drawn when there is no sprite or no GPU resource.
    pub fn plan_render(&mut self, sprite_asset_ids: &Vec<u64>) -> (plan: Option<SpriteRenderPlan>)
        requires
            old(self).wf(),
            old(self).gpu_ready() ==> sprite_asset_ids@.len() <= MAX_INSTANCES,
        ensures
            final(self).wf(),
            final(self).gpu_ready() == old(self).gpu_ready(),
            (sprite_asset_ids@.len() == 0 || !old(self).gpu_ready()) ==> (plan is None
                && *final(self) == *old(self)),
            (sprite_asset_ids@.len() > 0 && old(self).gpu_ready()) ==> (plan matches Some(p) && {
                &&& is_batching_of(sprite_asset_ids@, p.batches@)
                &&& final(self).instance_buffer().allocated()
                &&& sprite_asset_ids@.len() <= final(self).instance_buffer().capacity()
                &&& (sprite_asset_ids@.len() > old(self).instance_buffer().capacity()
                    || !old(self).instance_buffer().allocated()) ==> (p.new_instance_capacity
                    matches Some(c) && c == final(self).instance_buffer().capacity()
                    && is_instance_capacity(sprite_asset_ids@.len() as int, c as int))
                &&& !(sprite_asset_ids@.len() > old(self).instance_buffer().capacity()
                    || !old(self).instance_buffer().allocated()) ==> (p.new_instance_capacity is None
                    && final(self).instance_buffer() == old(self).instance_buffer())
            }),
    {
        if sprite_asset_ids.len() == 0 || !self.gpu_ready {
            return None;
        }
        let new_instance_capacity = self.instance_buffer.reserve(sprite_asset_ids.len());
        let batches = batch_by_key(sprite_asset_ids);
        Some(SpriteRenderPlan { new_instance_capacity, batches })
    }
}

} // verus!
