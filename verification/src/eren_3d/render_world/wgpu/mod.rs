pub mod asset_managers;
pub mod load_model;
pub mod renderers;
