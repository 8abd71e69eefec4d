pub mod ash;
pub mod asset_cache;
pub mod common;
pub mod instancing;
