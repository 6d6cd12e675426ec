//! Moonraker connection: printer selection, message routing and reconnection.
pub mod client;
pub mod connection;
pub mod files;
pub mod message;
pub mod multi;
