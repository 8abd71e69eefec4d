use vstd::prelude::*;

verus! {

/// The Vulkan context: its render passes, in the order in which they run.
pub struct AshGpuContext<P> {
    render_passes: Vec<P>,
}

impl<P> AshGpuContext<P> {
    pub closed spec fn render_passes(&self) -> Seq<P> {
        self.render_passes@
    }

    pub fn new() -> (context: Self)
        ensures
            context.render_passes() == Seq::<P>::empty(),
    {
        AshGpuContext { render_passes: Vec::new() }
    }

    /// Adds a pass that runs after the others.
    pub fn add_render_pass(&mut self, render_pass: P)
        ensures
            final(self).render_passes() == old(self).render_passes().push(render_pass),
    {
        self.render_passes.push(render_pass);
    }
}

} // verus!
