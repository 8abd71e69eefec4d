pub mod asset;
pub mod gpu;
pub mod pass;
