use eren::eren_2d::render_world::ash::renderers::sprite_renderer::{AshSpriteRenderer, QUAD_INDICES};
use eren::eren_2d::render_world::wgpu::renderers::sprite_renderer::WgpuSpriteRenderer;
use eren::eren_3d::render_world::wgpu::asset_managers::model_asset_manager::{
    MeshGpuResource, ModelGpuResource,
};
use eren::eren_3d::render_world::wgpu::renderers::model_renderer::WgpuModelRenderer;
use eren::eren_core::render::ash::gpu::AshGpuContext;
use eren::eren_core::render::wgpu::gpu::WgpuGpuContext;
use eren::eren_core::render::wgpu::pass::{PassEvent, WgpuRenderPass};
use eren::eren_core::render_world::instancing::{
    batch_by_key, instance_capacity_for, next_power_of_two, DrawBatch, InstanceBufferState,
};

fn batch(b: &DrawBatch) -> (u64, u32, u32) {
    (b.key, b.first_instance, b.instance_count)
}

#[test]
fn next_power_of_two_values() {
    assert_eq!(next_power_of_two(0), 1);
    assert_eq!(next_power_of_two(1), 1);
    assert_eq!(next_power_of_two(5), 8);
    assert_eq!(next_power_of_two(64), 64);
    assert_eq!(next_power_of_two(65), 128);
}

#[test]
fn instance_capacity_is_at_least_sixteen() {
    assert_eq!(instance_capacity_for(1), 16);
    assert_eq!(instance_capacity_for(16), 16);
    assert_eq!(instance_capacity_for(17), 32);
    assert_eq!(instance_capacity_for(100), 128);
}

#[test]
fn batches_follow_runs_of_keys() {
    let batches = batch_by_key(&vec![1, 1, 2, 2, 2, 1]);
    let got: Vec<_> = batches.iter().map(batch).collect();
    assert_eq!(got, vec![(1, 0, 2), (2, 2, 3), (1, 5, 1)]);
    assert!(batch_by_key(&vec![]).is_empty());
    let single: Vec<_> = batch_by_key(&vec![9]).iter().map(batch).collect();
    assert_eq!(single, vec![(9, 0, 1)]);
}

#[test]
fn batches_cover_each_instance_once() {
    let keys = vec![4, 4, 1, 2, 2, 2, 4];
    let batches = batch_by_key(&keys);
    for i in 0..keys.len() as u32 {
        let holding: Vec<_> = batches
            .iter()
            .filter(|b| b.first_instance <= i && i < b.first_instance + b.instance_count)
            .collect();
        assert_eq!(holding.len(), 1);
        assert_eq!(holding[0].key, keys[i as usize]);
    }
}

#[test]
fn instance_buffer_is_reused_when_it_fits() {
    let mut buffer = InstanceBufferState::new();
    assert_eq!(buffer.reserve(3), Some(16));
    assert_eq!(buffer.reserve(3), None);
    assert_eq!(buffer.reserve(16), None);
    assert_eq!(buffer.reserve(17), Some(32));
    buffer.release();
    assert_eq!(buffer.reserve(1), Some(16));
}

#[test]
fn wgpu_sprite_renderer_draws_only_with_gpu() {
    let mut renderer = WgpuSpriteRenderer::new();
    assert!(renderer.plan_render(&vec![1, 2]).is_none());
    renderer.on_gpu_resources_ready();
    assert!(renderer.plan_render(&vec![]).is_none());
    let plan = renderer.plan_render(&vec![1, 1, 2]).unwrap();
    assert_eq!(plan.new_instance_capacity, Some(16));
    let got: Vec<_> = plan.batches.iter().map(batch).collect();
    assert_eq!(got, vec![(1, 0, 2), (2, 2, 1)]);
    let plan = renderer.plan_render(&vec![3]).unwrap();
    assert_eq!(plan.new_instance_capacity, None);
    renderer.on_gpu_resources_lost();
    assert!(renderer.plan_render(&vec![3]).is_none());
    renderer.on_gpu_resources_ready();
    assert_eq!(renderer.plan_render(&vec![3]).unwrap().new_instance_capacity, Some(16));
}

#[test]
fn ash_sprite_renderer_batches_by_descriptor_set() {
    let mut renderer = AshSpriteRenderer::new();
    assert!(renderer.plan_render(&vec![]).is_none());
    let sets: Vec<u64> = (0..20).map(|i| if i < 10 { 0xAA } else { 0xBB }).collect();
    let plan = renderer.plan_render(&sets).unwrap();
    assert_eq!(plan.new_instance_capacity, Some(32));
    let got: Vec<_> = plan.batches.iter().map(batch).collect();
    assert_eq!(got, vec![(0xAA, 0, 10), (0xBB, 10, 10)]);
    assert_eq!(QUAD_INDICES, [0, 1, 2, 2, 3, 0]);
}

fn mesh(num_indices: u32, textured: bool) -> MeshGpuResource<u8, &'static str> {
    MeshGpuResource {
        vertex_buffer: 0,
        index_buffer: 1,
        num_indices,
        bind_group: if textured { Some("texture") } else { None },
    }
}

#[test]
fn model_renderer_draws_textured_meshes_per_instance() {
    let mut renderer = WgpuModelRenderer::new();
    let models = vec![
        ModelGpuResource { meshes: vec![mesh(6, true), mesh(9, false), mesh(12, true)] },
        ModelGpuResource { meshes: vec![mesh(3, true)] },
    ];
    assert!(renderer.plan_render(&models).is_none());
    renderer.on_gpu_resources_ready();
    let plan = renderer.plan_render(&models).unwrap();
    assert_eq!(plan.new_instance_capacity, Some(16));
    let draws: Vec<_> = plan.draws.iter().map(|d| (d.instance, d.mesh, d.index_count)).collect();
    assert_eq!(draws, vec![(0, 0, 6), (0, 2, 12), (1, 0, 3)]);
    renderer.on_gpu_resources_lost();
    assert!(renderer.plan_render(&models).is_none());
}

#[derive(Default)]
struct Pass {
    name: &'static str,
    events: Vec<PassEvent>,
}

impl WgpuRenderPass for Pass {
    type Device = ();
    type Encoder = Vec<&'static str>;
    type View = ();

    fn surface_created(&mut self, _device: &()) {
        self.events.push(PassEvent::SurfaceCreated);
    }

    fn surface_destroyed(&mut self) {
        self.events.push(PassEvent::SurfaceDestroyed);
    }

    fn window_resized(&mut self) {
        self.events.push(PassEvent::WindowResized);
    }

    fn render(&mut self, encoder: &mut Vec<&'static str>, _view: &()) {
        encoder.push(self.name);
        self.events.push(PassEvent::Rendered);
    }
}

#[test]
fn contexts_keep_passes_in_order() {
    let mut ash: AshGpuContext<&str> = AshGpuContext::new();
    ash.add_render_pass("first");
    ash.add_render_pass("second");
    let mut wgpu: WgpuGpuContext<Pass, ()> = WgpuGpuContext::new();
    wgpu.add_render_pass(Pass { name: "sprites", ..Default::default() });
    wgpu.add_render_pass(Pass { name: "text", ..Default::default() });
    let mut encoder = Vec::new();
    // without a surface nothing is drawn and no pass hears of a resize
    assert!(!wgpu.render(&mut encoder, &()));
    assert!(!wgpu.window_resized());
    assert!(encoder.is_empty());
    wgpu.surface_created(&());
    assert!(wgpu.window_resized());
    assert!(wgpu.render(&mut encoder, &()));
    assert_eq!(encoder, vec!["sprites", "text"]);
    wgpu.surface_destroyed();
    assert!(!wgpu.render(&mut encoder, &()));
    for i in 0..2 {
        assert_eq!(
            wgpu.render_pass(i).events,
            vec![
                PassEvent::SurfaceCreated,
                PassEvent::WindowResized,
                PassEvent::Rendered,
                PassEvent::SurfaceDestroyed
            ]
        );
    }
}
