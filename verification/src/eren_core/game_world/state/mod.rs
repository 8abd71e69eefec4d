pub mod assets;
