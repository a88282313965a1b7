pub mod commands;
pub mod control;
pub mod lines;
pub mod progress;
pub mod render;
pub mod state;
pub mod style;
