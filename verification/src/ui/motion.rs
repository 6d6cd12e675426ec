//! Axis movement speed presets.
use vstd::prelude::*;

verus! {

#[derive(Debug, Clone, Copy, PartialEq, Eq)]
pub enum MovementSpeed {
    /// 1800 mm/min - fine positioning
    Slow,
    /// 3000 mm/min - normal movement
    Medium,
    /// 6000 mm/min - rapid movement
    Fast,
}

impl MovementSpeed {
    /// The feed rate in mm/min for this speed preset.
    pub fn feed_rate_per_minute(self) -> (r: u32)
        ensures
            r == match self {
                MovementSpeed::Slow => 1800u32,
                MovementSpeed::Medium => 3000u32,
                MovementSpeed::Fast => 6000u32,
            },
    {
        match self {
            MovementSpeed::Slow => 1800,
            MovementSpeed::Medium => 3000,
            MovementSpeed::Fast => 6000,
        }
    }
}

} // verus!
