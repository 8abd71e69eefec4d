pub mod ash;
pub mod wgpu;
