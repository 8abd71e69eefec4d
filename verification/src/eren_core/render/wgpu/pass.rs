use vstd::prelude::*;

verus! {

/// What a render pass is told by the context.
#[derive(Clone, Copy, PartialEq, Eq, Structural, Debug)]
pub enum PassEvent {
    SurfaceCreated,
    SurfaceDestroyed,
    WindowResized,
    Rendered,
}

/// A render pass of the wgpu context, implemented by users of the engine.
///
/// `events` describes a pass for the contracts below. Its default body only lets
/// implementations written outside Verus compile: code that is generic over the
/// trait never sees it, and for such implementations the contracts are trusted,
/// not checked.
pub trait WgpuRenderPass {
    type Device;
    type Encoder;
    type View;

    /// What the pass has been told so far, in order.
    closed spec fn events(&self) -> Seq<PassEvent> {
        Seq::empty()
    }

    fn surface_created(&mut self, device: &Self::Device)
        ensures
            final(self).events() == old(self).events().push(PassEvent::SurfaceCreated),
    ;

    fn surface_destroyed(&mut self)
        ensures
            final(self).events() == old(self).events().push(PassEvent::SurfaceDestroyed),
    ;

    fn window_resized(&mut self)
        ensures
            final(self).events() == old(self).events().push(PassEvent::WindowResized),
    ;

    fn render(&mut self, encoder: &mut Self::Encoder, view: &Self::View)
        ensures
            final(self).events() == old(self).events().push(PassEvent::Rendered),
    ;
}

} // verus!
