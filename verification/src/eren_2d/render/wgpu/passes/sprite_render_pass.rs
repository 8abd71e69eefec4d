use vstd::prelude::*;

verus! {

/// The sprite pass: the bind-group layout of its texture and sampler, which
/// exists once the surface does.
pub struct WgpuSpriteRenderPass<L> {
    bind_group_layout: Option<L>,
}

impl<L> WgpuSpriteRenderPass<L> {
    pub closed spec fn bind_group_layout(&self) -> Option<L> {
        self.bind_group_layout
    }

    pub fn new() -> (pass: Self)
        ensures
            pass.bind_group_layout() is None,
    {
        WgpuSpriteRenderPass { bind_group_layout: None }
    }

    /// Keeps the layout made for the new surface's device.
    pub fn surface_created(&mut self, bind_group_layout: L)
        ensures
            final(self).bind_group_layout() == Some(bind_group_layout),
    {
        self.bind_group_layout = Some(bind_group_layout);
    }
}

} // verus!
