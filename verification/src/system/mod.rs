//! Host-system helpers (Wi-Fi).
pub mod wifi;
