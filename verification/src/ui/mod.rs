//! Screen state for the touch interface.
pub mod commands;
pub mod console;
pub mod fans;
pub mod led;
pub mod motion;
pub mod progress;
pub mod screen;
pub mod thermal;
pub mod tuning;
