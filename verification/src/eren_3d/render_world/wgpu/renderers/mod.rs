pub mod model_renderer;
