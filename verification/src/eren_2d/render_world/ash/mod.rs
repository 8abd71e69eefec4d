pub mod asset_managers;
pub mod renderers;
