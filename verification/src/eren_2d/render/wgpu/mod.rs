pub mod passes;
