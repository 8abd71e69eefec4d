use vstd::prelude::*;

use crate::eren_core::render::wgpu::asset::WgpuAssetManager;
use crate::eren_core::render::wgpu::pass::{PassEvent, WgpuRenderPass};

verus! {

/// The wgpu context: its asset manager, its render passes in the order in which
/// they run, and whether a configured surface exists to draw on.
pub struct WgpuGpuContext<P, L> {
    asset_manager: WgpuAssetManager<L>,
    render_passes: Vec<P>,
    surface_ready: bool,
}

impl<P, L> WgpuGpuContext<P, L> {
    pub closed spec fn assets(&self) -> WgpuAssetManager<L> {
        self.asset_manager
    }

    pub closed spec fn render_passes(&self) -> Seq<P> {
        self.render_passes@
    }

    pub closed spec fn surface_ready(&self) -> bool {
        self.surface_ready
    }

    pub fn new() -> (context: Self)
        ensures
            context.render_passes() == Seq::<P>::empty(),
            !context.surface_ready(),
            context.assets().wf(),
            context.assets().loader_extensions() == Seq::<String>::empty(),
            context.assets().loaders() == Seq::<L>::empty(),
            context.assets().loading_assets() == Seq::<String>::empty(),
    {
        WgpuGpuContext {
            asset_manager: WgpuAssetManager::new(),
            render_passes: Vec::new(),
            surface_ready: false,
        }
    }

    /// Adds a pass that runs after the others.
    pub fn add_render_pass(&mut self, render_pass: P)
        ensures
            final(self).render_passes() == old(self).render_passes().push(render_pass),
            final(self).surface_ready() == old(self).surface_ready(),
    {
        self.render_passes.push(render_pass);
    }

    /// The asset manager, to register loaders and route asset requests.
    pub fn asset_manager(&mut self) -> (manager: &mut WgpuAssetManager<L>)
        ensures
            *manager == old(self).assets(),
            final(self).assets() == *final(manager),
            final(self).render_passes() == old(self).render_passes(),
            final(self).surface_ready() == old(self).surface_ready(),
    {
        &mut self.asset_manager
    }

    /// The pass that runs `index`-th.
    pub fn render_pass(&self, index: usize) -> (pass: &P)
        requires
            index < self.render_passes().len(),
        ensures
            *pass == self.render_passes()[index as int],
    {
        &self.render_passes[index]
    }
}

/// Every pass of `after` has been told `event` once since `before`.
pub open spec fn all_told<P: WgpuRenderPass>(before: Seq<P>, after: Seq<P>, event: PassEvent) -> bool {
    &&& after.len() == before.len()
    &&& forall|j: int|
        0 <= j < after.len() ==> (#[trigger] after[j]).events() == before[j].events().push(event)
}

impl<P: WgpuRenderPass, L> WgpuGpuContext<P, L> {
    /// The surface, device and queue now exist: every pass is told, in order.
    pub fn surface_created(&mut self, device: &P::Device)
        ensures
            final(self).surface_ready(),
            all_told(old(self).render_passes(), final(self).render_passes(), PassEvent::SurfaceCreated),
            final(self).assets() == old(self).assets(),
    {
        let mut k: usize = 0;
        while k < self.render_passes.len()
            invariant
                self.render_passes@.len() == old(self).render_passes@.len(),
                self.asset_manager == old(self).asset_manager,
                k <= self.render_passes@.len(),
                forall|j: int|
                    0 <= j < k ==> (#[trigger] self.render_passes@[j]).events()
                        == old(self).render_passes@[j].events().push(PassEvent::SurfaceCreated),
                forall|j: int|
                    k <= j < self.render_passes@.len() ==> #[trigger] self.render_passes@[j]
                        == old(self).render_passes@[j],
            decreases self.render_passes@.len() - k,
        {
            self.render_passes[k].surface_created(device);
            k = k + 1;
        }
        self.surface_ready = true;
    }

    /// The surface, device and queue are gone: every pass is told, in order.
    pub fn surface_destroyed(&mut self)
        ensures
            !final(self).surface_ready(),
            all_told(old(self).render_passes(), final(self).render_passes(), PassEvent::SurfaceDestroyed),
            final(self).assets() == old(self).assets(),
    {
        let mut k: usize = 0;
        while k < self.render_passes.len()
            invariant
                self.render_passes@.len() == old(self).render_passes@.len(),
                self.asset_manager == old(self).asset_manager,
                k <= self.render_passes@.len(),
                forall|j: int|
                    0 <= j < k ==> (#[trigger] self.render_passes@[j]).events()
                        == old(self).render_passes@[j].events().push(PassEvent::SurfaceDestroyed),
                forall|j: int|
                    k <= j < self.render_passes@.len() ==> #[trigger] self.render_passes@[j]
                        == old(self).render_passes@[j],
            decreases self.render_passes@.len() - k,
        {
            self.render_passes[k].surface_destroyed();
            k = k + 1;
        }
        self.surface_ready = false;
    }

    /// The window was resized: when there is a surface, every pass is told, in
    /// order; answers whether the surface is to be reconfigured.
    pub fn window_resized(&mut self) -> (resized: bool)
        ensures
            resized == old(self).surface_ready(),
            resized ==> all_told(old(self).render_passes(), final(self).render_passes(), PassEvent::WindowResized),
            !resized ==> final(self).render_passes() == old(self).render_passes(),
            final(self).surface_ready() == old(self).surface_ready(),
            final(self).assets() == old(self).assets(),
    {
        if !self.surface_ready {
            return false;
        }
        let mut k: usize = 0;
        while k < self.render_passes.len()
            invariant
                self.surface_ready == old(self).surface_ready,
                self.render_passes@.len() == old(self).render_passes@.len(),
                self.asset_manager == old(self).asset_manager,
                k <= self.render_passes@.len(),
                forall|j: int|
                    0 <= j < k ==> (#[trigger] self.render_passes@[j]).events()
                        == old(self).render_passes@[j].events().push(PassEvent::WindowResized),
                forall|j: int|
                    k <= j < self.render_passes@.len() ==> #[trigger] self.render_passes@[j]
                        == old(self).render_passes@[j],
            decreases self.render_passes@.len() - k,
        {
            self.render_passes[k].window_resized();
            k = k + 1;
        }
        true
    }

    /// Records a frame: when there is a surface, every pass renders, in order, into
    /// `encoder` and `view`; answers whether a frame was recorded.
    pub fn render(&mut self, encoder: &mut P::Encoder, view: &P::View) -> (rendered: bool)
        ensures
            rendered == old(self).surface_ready(),
            rendered ==> all_told(old(self).render_passes(), final(self).render_passes(), PassEvent::Rendered),
            !rendered ==> final(self).render_passes() == old(self).render_passes(),
            final(self).surface_ready() == old(self).surface_ready(),
            final(self).assets() == old(self).assets(),
    {
        if !self.surface_ready {
            return false;
        }
        let mut k: usize = 0;
        while k < self.render_passes.len()
            invariant
                self.surface_ready == old(self).surface_ready,
                self.render_passes@.len() == old(self).render_passes@.len(),
                self.asset_manager == old(self).asset_manager,
                k <= self.render_passes@.len(),
                forall|j: int|
                    0 <= j < k ==> (#[trigger] self.render_passes@[j]).events()
                        == old(self).render_passes@[j].events().push(PassEvent::Rendered),
                forall|j: int|
                    k <= j < self.render_passes@.len() ==> #[trigger] self.render_passes@[j]
                        == old(self).render_passes@[j],
            decreases self.render_passes@.len() - k,
        {
            self.render_passes[k].render(encoder, view);
            k = k + 1;
        }
        true
    }
}

} // verus!

