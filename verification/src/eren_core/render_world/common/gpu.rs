pub use crate::eren_core::render::GraphicsLibrary;
