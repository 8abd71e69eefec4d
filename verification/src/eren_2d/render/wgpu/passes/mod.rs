pub mod sprite_render_pass;
