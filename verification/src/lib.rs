//! Printer-screen logic for a Klipper/Moonraker touch interface: G-code
//! formatting, console history, fan/LED/motion state, Wi-Fi scan parsing,
//! multi-printer selection and a bounded history buffer.
use vstd::prelude::*;

pub mod config;
pub mod json;
pub mod klipper;
pub mod logging;
pub mod moonraker;
pub mod system;
pub mod text;
pub mod ui;
pub mod util;

verus! {

} // verus!
