use vstd::prelude::*;

use crate::eren_core::render::GraphicsLibrary;
use crate::eren_core::window::WindowConfig;

verus! {

/// How a 2D game starts: its window, and the GPU API it renders with.
pub struct AppConfig {
    pub window_width: u32,
    pub window_height: u32,
    pub window_title: String,
    pub graphics_library: GraphicsLibrary,
}

impl AppConfig {
    /// The window part of the configuration, as the window's lifecycle takes it.
    pub fn window_config(self) -> (window: WindowConfig)
        ensures
            window.window_width == self.window_width,
            window.window_height == self.window_height,
            window.window_title == self.window_title,
    {
        WindowConfig {
            window_width: self.window_width,
            window_height: self.window_height,
            window_title: self.window_title,
        }
    }
}

} // verus!
