pub mod app_handler;
pub mod asset;
pub mod game;
pub mod game_world;
pub mod render;
pub mod render_world;
pub mod window;
