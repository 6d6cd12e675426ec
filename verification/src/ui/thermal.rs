//! Material temperature presets.
use vstd::prelude::*;

verus! {

/// Material temperature presets (extruder / bed).
#[derive(Debug, Clone, Copy, PartialEq, Eq)]
pub enum MaterialPreset {
    /// PLA: Extruder 220°C, Bed 60°C
    Pla,
    /// PETG: Extruder 250°C, Bed 80°C
    Petg,
    /// ABS: Extruder 260°C, Bed 100°C
    Abs,
}

impl MaterialPreset {
    /// Extruder temperature in °C for this material.
    pub fn extruder_celsius(self) -> (t: u32)
        ensures
            t == match self {
                MaterialPreset::Pla => 220u32,
                MaterialPreset::Petg => 250u32,
                MaterialPreset::Abs => 260u32,
            },
    {
        match self {
            MaterialPreset::Pla => 220,
            MaterialPreset::Petg => 250,
            MaterialPreset::Abs => 260,
        }
    }

    /// Bed temperature in °C for this material.
    pub fn bed_celsius(self) -> (t: u32)
        ensures
            t == match self {
                MaterialPreset::Pla => 60u32,
                MaterialPreset::Petg => 80u32,
                MaterialPreset::Abs => 100u32,
            },
    {
        match self {
            MaterialPreset::Pla => 60,
            MaterialPreset::Petg => 80,
            MaterialPreset::Abs => 100,
        }
    }
}

} // verus!
