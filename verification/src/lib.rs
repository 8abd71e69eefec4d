//! Verified core of the eren game engine: asset bookkeeping, render batching,
//! Vulkan/wgpu resource decisions and the window/frame state machines.

pub mod eren_core;
pub mod eren_2d;
pub mod eren_3d;
