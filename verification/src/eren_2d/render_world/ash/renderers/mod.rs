pub mod sprite_renderer;
