pub mod app;
pub mod game_world;
pub mod render;
pub mod render_world;
