use vstd::prelude::*;

verus! {

/// What a Vulkan render pass is given.
pub struct AshRenderContext {}

/// A Vulkan render pass, implemented by users of the engine.
pub trait AshRenderPass {
    fn app_resumed(&mut self, context: &mut AshRenderContext);

    fn app_suspended(&mut self, context: &mut AshRenderContext);

    fn window_resized(&mut self, context: &mut AshRenderContext);

    fn render(&mut self, context: &mut AshRenderContext);
}

} // verus!
