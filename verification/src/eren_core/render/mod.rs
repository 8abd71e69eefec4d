use vstd::prelude::*;

pub mod ash;
pub mod wgpu;

verus! {

/// The GPU API the engine renders with.
#[derive(Clone, Copy, PartialEq, Eq, Structural)]
pub enum GraphicsLibrary {
    Ash,
    Wgpu,
}

/// What a render pass is given each frame.
pub struct RenderContext {}

/// A pass of the frame, implemented by users of the engine.
pub trait RenderPassHandler {
    fn render_pass(&mut self, context: &mut RenderContext);
}

} // verus!
