pub mod game_world;
pub mod render_world;
