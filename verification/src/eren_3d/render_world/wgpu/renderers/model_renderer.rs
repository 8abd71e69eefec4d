use vstd::prelude::*;

use crate::eren_3d::render_world::wgpu::asset_managers::model_asset_manager::{
    MeshGpuResource, ModelGpuResource,
};
use crate::eren_core::render_world::instancing::{
    is_instance_capacity, InstanceBufferState, MAX_INSTANCES,
};

verus! {

/// One indexed draw of one mesh of one model instance.
pub struct MeshDraw {
    /// The instance, that is the index of the render command.
    pub instance: u32,
    /// The mesh, within the instance's model.
    pub mesh: usize,
    pub index_count: u32,
}

/// The draws of the textured meshes of `meshes`, in order, for `instance`.
pub open spec fn mesh_draws<B, G>(instance: int, meshes: Seq<MeshGpuResource<B, G>>) -> Seq<
    MeshDraw,
>
    decreases meshes.len(),
{
    if meshes.len() == 0 {
        Seq::empty()
    } else {
        let before = mesh_draws(instance, meshes.drop_last());
        if meshes.last().bind_group is Some {
            before.push(
                MeshDraw {
                    instance: instance as u32,
                    mesh: (meshes.len() - 1) as usize,
                    index_count: meshes.last().num_indices,
                },
            )
        } else {
            before
        }
    }
}

/// The draws of every command of `models`, command after command.
pub open spec fn model_draws<B, G>(models: Seq<ModelGpuResource<B, G>>) -> Seq<MeshDraw>
    decreases models.len(),
{
    if models.len() == 0 {
        Seq::empty()
    } else {
        model_draws(models.drop_last()) + mesh_draws(models.len() - 1, models.last().meshes@)
    }
}

/// The work of one frame of models: the instance buffer to allocate, if the old
/// one is missing or too small, and the indexed draws.
pub struct ModelRenderPlan {
    pub new_instance_capacity: Option<usize>,
    pub draws: Vec<MeshDraw>,
}

/// The frame-to-frame state of the wgpu model renderer: whether its GPU
/// resources exist, and its instance buffer.
pub struct WgpuModelRenderer {
    gpu_ready: bool,
    instance_buffer: InstanceBufferState,
}

/// The draws of the textured meshes of one model, for `instance`.
fn plan_mesh_draws<B, G>(instance: u32, model: &ModelGpuResource<B, G>, draws: &mut Vec<MeshDraw>)
    ensures
        final(draws)@ == old(draws)@ + mesh_draws(instance as int, model.meshes@),
        model.meshes@.len() <= usize::MAX,
{
    let mut m: usize = 0;
    while m < model.meshes.len()
        invariant
            m <= model.meshes@.len(),
            draws@ == old(draws)@ + mesh_draws(instance as int, model.meshes@.take(m as int)),
        decreases model.meshes@.len() - m,
    {
        assert(model.meshes@.take(m + 1).drop_last() =~= model.meshes@.take(m as int));
        let mesh = &model.meshes[m];
        if mesh.bind_group.is_some() {
            draws.push(MeshDraw { instance, mesh: m, index_count: mesh.num_indices });
        }
        m = m + 1;
    }
    assert(model.meshes@.take(m as int) =~= model.meshes@);
}

impl WgpuModelRenderer {
    pub closed spec fn gpu_ready(&self) -> bool {
        self.gpu_ready
    }

    pub closed spec fn instance_buffer(&self) -> InstanceBufferState {
        self.instance_buffer
    }

    pub open spec fn wf(&self) -> bool {
        self.instance_buffer().wf()
    }

    /// The state of a renderer without GPU resources: not ready, no instance buffer.
    pub closed spec fn unready() -> Self {
        WgpuModelRenderer { gpu_ready: false, instance_buffer: InstanceBufferState::released() }
    }

    pub fn new() -> (renderer: Self)
        ensures
            renderer.wf(),
            !renderer.gpu_ready(),
            !renderer.instance_buffer().allocated(),
            renderer.instance_buffer().capacity() == 0,
            renderer == Self::unready(),
    {
        WgpuModelRenderer { gpu_ready: false, instance_buffer: InstanceBufferState::new() }
    }

    /// The pipeline, camera buffer and depth view now exist.
    pub fn on_gpu_resources_ready(&mut self)
        requires
            old(self).wf(),
        ensures
            final(self).wf(),
            final(self).gpu_ready(),
            final(self).instance_buffer() == old(self).instance_buffer(),
    {
        self.gpu_ready = true;
    }

    /// Every GPU resource is gone, the instance buffer with them.
    pub fn on_gpu_resources_lost(&mut self)
        ensures
            final(self).wf(),
            !final(self).gpu_ready(),
            !final(self).instance_buffer().allocated(),
            final(self).instance_buffer().capacity() == 0,
            *final(self) == Self::unready(),
    {
        self.gpu_ready = false;
        self.instance_buffer.release();
    }

    /// Plans the draw of one frame, one instance per entry of `models`: each
    /// textured mesh of an instance's model is drawn with that instance. Nothing is
    /// drawn when there is no model or no GPU resource.
    pub fn plan_render<B, G>(&mut self, models: &Vec<ModelGpuResource<B, G>>) -> (plan: Option<
        ModelRenderPlan,
    >)
        requires
            old(self).wf(),
            old(self).gpu_ready() ==> models@.len() <= MAX_INSTANCES,
        ensures
            final(self).wf(),
            final(self).gpu_ready() == old(self).gpu_ready(),
            (models@.len() == 0 || !old(self).gpu_ready()) ==> (plan is None && *final(self)
                == *old(self)),
            (models@.len() > 0 && old(self).gpu_ready()) ==> (plan matches Some(p) && {
                &&& p.draws@ == model_draws(models@)
                &&& forall|k: int|
                    0 <= k < p.draws@.len() ==> {
                        let d = #[trigger] p.draws@[k];
                        &&& d.instance < models@.len()
                        &&& d.mesh < models@[d.instance as int].meshes@.len()
                        &&& models@[d.instance as int].meshes@[d.mesh as int].bind_group is Some
                        &&& d.index_count == models@[d.instance as int].meshes@[d.mesh as int].num_indices
                    }
                &&& forall|i: int, m: int|
                    0 <= i < models@.len() && 0 <= m < models@[i].meshes@.len() && (
                    #[trigger] models@[i].meshes@[m]).bind_group is Some ==> exists|k: int|
                        0 <= k < p.draws@.len() && p.draws@[k].instance == i && p.draws@[k].mesh == m
                &&& forall|k: int, l: int|
                    0 <= k < l < p.draws@.len() ==> (#[trigger] p.draws@[k]).instance
                        < (#[trigger] p.draws@[l]).instance || (p.draws@[k].instance
                        == p.draws@[l].instance && p.draws@[k].mesh < p.draws@[l].mesh)
                &&& final(self).instance_buffer().allocated()
                &&& models@.len() <= final(self).instance_buffer().capacity()
                &&& (models@.len() > old(self).instance_buffer().capacity()
                    || !old(self).instance_buffer().allocated()) ==> (p.new_instance_capacity
                    matches Some(c) && c == final(self).instance_buffer().capacity()
                    && is_instance_capacity(models@.len() as int, c as int))
                &&& !(models@.len() > old(self).instance_buffer().capacity()
                    || !old(self).instance_buffer().allocated()) ==> (p.new_instance_capacity is None
                    && final(self).instance_buffer() == old(self).instance_buffer())
            }),
    {
        if models.len() == 0 || !self.gpu_ready {
            return None;
        }
        let new_instance_capacity = self.instance_buffer.reserve(models.len());
        let mut draws: Vec<MeshDraw> = Vec::new();
        let mut i: usize = 0;
        while i < models.len()
            invariant
                i <= models@.len() <= MAX_INSTANCES,
                draws@ == model_draws(models@.take(i as int)),
                forall|j: int| 0 <= j < i ==> (#[trigger] models@[j]).meshes@.len() <= usize::MAX,
            decreases models@.len() - i,
        {
            assert(models@.take(i + 1).drop_last() =~= models@.take(i as int));
            plan_mesh_draws(i as u32, &models[i], &mut draws);
            i = i + 1;
        }
        assert(models@.take(i as int) =~= models@);
        proof {
            law_model_draws_exact(models@);
        }
        Some(ModelRenderPlan { new_instance_capacity, draws })
    }
}

} // verus!

verus! {

/// The draws of one command's model: one per textured mesh, in mesh order, each
/// with the command's instance and its mesh's index count.
pub proof fn law_mesh_draws_exact<B, G>(instance: int, meshes: Seq<MeshGpuResource<B, G>>)
    requires
        0 <= instance <= u32::MAX,
        meshes.len() <= usize::MAX,
    ensures
        forall|k: int|
            0 <= k < mesh_draws(instance, meshes).len() ==> {
                let d = #[trigger] mesh_draws(instance, meshes)[k];
                &&& d.instance == instance
                &&& d.mesh < meshes.len()
                &&& meshes[d.mesh as int].bind_group is Some
                &&& d.index_count == meshes[d.mesh as int].num_indices
            },
        forall|m: int|
            0 <= m < meshes.len() && (#[trigger] meshes[m]).bind_group is Some ==> exists|k: int|
                0 <= k < mesh_draws(instance, meshes).len() && mesh_draws(instance, meshes)[k].mesh == m,
        forall|k: int, l: int|
            0 <= k < l < mesh_draws(instance, meshes).len() ==> (#[trigger] mesh_draws(
                instance,
                meshes,
            )[k]).mesh < (#[trigger] mesh_draws(instance, meshes)[l]).mesh,
    decreases meshes.len(),
{
    if meshes.len() > 0 {
        let rest = meshes.drop_last();
        law_mesh_draws_exact(instance, rest);
        let before = mesh_draws(instance, rest);
        let d = mesh_draws(instance, meshes);
        assert forall|k: int| 0 <= k < before.len() implies #[trigger] d[k] == before[k] by {}
        assert forall|k: int| 0 <= k < before.len() implies (#[trigger] before[k]).mesh < rest.len()
            && meshes[before[k].mesh as int] == rest[before[k].mesh as int] by {}
        assert forall|m: int|
            0 <= m < meshes.len() && (#[trigger] meshes[m]).bind_group is Some implies exists|k: int|
                0 <= k < d.len() && d[k].mesh == m by {
            if m < rest.len() {
                assert(rest[m] == meshes[m]);
                let k = choose|k: int| 0 <= k < before.len() && before[k].mesh == m;
                assert(d[k].mesh == m);
            } else {
                assert(d[before.len() as int].mesh == m);
            }
        }
    }
}

/// The draws of a frame: every draw belongs to the command whose index is its
/// instance, and is that command's model's textured mesh, with its index count;
/// every textured mesh of every command is drawn; draws come command after
/// command, and mesh after mesh within a command.
pub proof fn law_model_draws_exact<B, G>(models: Seq<ModelGpuResource<B, G>>)
    requires
        models.len() <= u32::MAX + 1,
        forall|i: int| 0 <= i < models.len() ==> (#[trigger] models[i]).meshes@.len() <= usize::MAX,
    ensures
        forall|k: int|
            0 <= k < model_draws(models).len() ==> {
                let d = #[trigger] model_draws(models)[k];
                &&& d.instance < models.len()
                &&& d.mesh < models[d.instance as int].meshes@.len()
                &&& models[d.instance as int].meshes@[d.mesh as int].bind_group is Some
                &&& d.index_count == models[d.instance as int].meshes@[d.mesh as int].num_indices
            },
        forall|i: int, m: int|
            0 <= i < models.len() && 0 <= m < models[i].meshes@.len() && (
            #[trigger] models[i].meshes@[m]).bind_group is Some ==> exists|k: int|
                0 <= k < model_draws(models).len() && model_draws(models)[k].instance == i
                    && model_draws(models)[k].mesh == m,
        forall|k: int, l: int|
            0 <= k < l < model_draws(models).len() ==> (#[trigger] model_draws(models)[k]).instance
                < (#[trigger] model_draws(models)[l]).instance || (model_draws(models)[k].instance
                == model_draws(models)[l].instance && model_draws(models)[k].mesh
                < model_draws(models)[l].mesh),
    decreases models.len(),
{
    if models.len() > 0 {
        let rest = models.drop_last();
        let n = models.len() - 1;
        assert forall|i: int| 0 <= i < rest.len() implies (#[trigger] rest[i]).meshes@.len()
            <= usize::MAX by {
            assert(rest[i] == models[i]);
        }
        law_model_draws_exact(rest);
        assert(models[n].meshes@.len() <= usize::MAX);
        law_mesh_draws_exact(n, models.last().meshes@);
        let before = model_draws(rest);
        let tail = mesh_draws(n, models.last().meshes@);
        let d = model_draws(models);
        assert(d == before + tail);
        assert forall|k: int| 0 <= k < before.len() implies #[trigger] d[k] == before[k] by {}
        assert forall|k: int| 0 <= k < tail.len() implies #[trigger] d[before.len() + k] == tail[k] by {}
        assert forall|k: int| 0 <= k < before.len() implies (#[trigger] before[k]).instance < rest.len()
            && models[before[k].instance as int] == rest[before[k].instance as int] by {}
        assert forall|k: int| 0 <= k < d.len() implies {
            let e = #[trigger] d[k];
            &&& e.instance < models.len()
            &&& e.mesh < models[e.instance as int].meshes@.len()
            &&& models[e.instance as int].meshes@[e.mesh as int].bind_group is Some
            &&& e.index_count == models[e.instance as int].meshes@[e.mesh as int].num_indices
        } by {
            if k < before.len() {
                assert(d[k] == before[k]);
            } else {
                assert(d[k] == tail[k - before.len()]);
            }
        }
        assert forall|i: int, m: int|
            0 <= i < models.len() && 0 <= m < models[i].meshes@.len() && (
            #[trigger] models[i].meshes@[m]).bind_group is Some implies exists|k: int|
                0 <= k < d.len() && d[k].instance == i && d[k].mesh == m by {
            if i < rest.len() {
                assert(rest[i] == models[i]);
                assert(rest[i].meshes@[m] == models[i].meshes@[m]);
                let k = choose|k: int|
                    0 <= k < before.len() && before[k].instance == i && before[k].mesh == m;
                assert(d[k] == before[k]);
            } else {
                assert(models.last().meshes@[m] == models[i].meshes@[m]);
                let k = choose|k: int| 0 <= k < tail.len() && tail[k].mesh == m;
                assert(d[before.len() + k] == tail[k]);
            }
        }
        assert forall|k: int, l: int| 0 <= k < l < d.len() implies (#[trigger] d[k]).instance
            < (#[trigger] d[l]).instance || (d[k].instance == d[l].instance && d[k].mesh
            < d[l].mesh) by {
            if l < before.len() {
                assert(d[k] == before[k] && d[l] == before[l]);
            } else if k < before.len() {
                assert(d[k] == before[k]);
                assert(d[l] == tail[l - before.len()]);
            } else {
                assert(d[k] == tail[k - before.len()]);
                assert(d[l] == tail[l - before.len()]);
            }
        }
    }
}

} // verus!
