//! Klipper G-code commands and macro lists.
pub mod gcode;
pub mod macros;
