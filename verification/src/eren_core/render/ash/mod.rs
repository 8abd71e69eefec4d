pub mod gpu;
pub mod pass;
