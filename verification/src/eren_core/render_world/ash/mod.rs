pub mod buffer;
pub mod frames;
pub mod gpu;
