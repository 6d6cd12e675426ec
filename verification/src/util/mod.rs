//! General-purpose containers.
pub mod ring_buffer;
