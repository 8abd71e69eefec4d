pub mod wgpu;
