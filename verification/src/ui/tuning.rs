//! On-the-fly tuning of the print speed (M220) and flow rate (M221), each a
//! percentage kept between 50 and 200.
use vstd::prelude::*;
use crate::text::{dec_int, push_dec_i64};

verus! {

/// The lowest speed or flow percentage.
pub const RATE_MIN: i32 = 50;

/// The highest speed or flow percentage.
pub const RATE_MAX: i32 = 200;

/// `v` limited to `[RATE_MIN, RATE_MAX]`.
pub open spec fn clamp_rate(v: int) -> int {
    if v < RATE_MIN {
        RATE_MIN as int
    } else if v > RATE_MAX {
        RATE_MAX as int
    } else {
        v
    }
}

/// Speed and flow percentages of the tuning screen.
#[derive(Debug, Clone)]
pub struct TuningControl {
    pub speed_multiplier: i32,
    pub flow_rate: i32,
}

fn clamped(v: i64) -> (r: i32)
    requires
        i32::MIN <= v <= i32::MAX,
    ensures
        r == clamp_rate(v as int),
{
    if v < RATE_MIN as i64 {
        RATE_MIN
    } else if v > RATE_MAX as i64 {
        RATE_MAX
    } else {
        v as i32
    }
}

impl TuningControl {
    /// Both at 100%.
    pub fn new() -> (t: Self)
        ensures
            t.speed_multiplier == 100,
            t.flow_rate == 100,
    {
        TuningControl { speed_multiplier: 100, flow_rate: 100 }
    }

    /// Changes the speed by `delta` points, kept within 50-200.
    pub fn adjust_speed(&mut self, delta: i32)
        requires
            i32::MIN <= old(self).speed_multiplier + delta <= i32::MAX,
        ensures
            final(self).speed_multiplier == clamp_rate(old(self).speed_multiplier + delta),
            final(self).flow_rate == old(self).flow_rate,
    {
        self.speed_multiplier = clamped(self.speed_multiplier as i64 + delta as i64);
    }

    /// Changes the flow by `delta` points, kept within 50-200.
    pub fn adjust_flow(&mut self, delta: i32)
        requires
            i32::MIN <= old(self).flow_rate + delta <= i32::MAX,
        ensures
            final(self).flow_rate == clamp_rate(old(self).flow_rate + delta),
            final(self).speed_multiplier == old(self).speed_multiplier,
    {
        self.flow_rate = clamped(self.flow_rate as i64 + delta as i64);
    }

    /// `M220 S{speed}`.
    pub fn speed_gcode(&self) -> (r: String)
        ensures
            r@ == "M220 S"@ + dec_int(self.speed_multiplier as int),
    {
        let mut s = "M220 S".to_string();
        push_dec_i64(&mut s, self.speed_multiplier as i64);
        s
    }

    /// `M221 S{flow}`.
    pub fn flow_gcode(&self) -> (r: String)
        ensures
            r@ == "M221 S"@ + dec_int(self.flow_rate as int),
    {
        let mut s = "M221 S".to_string();
        push_dec_i64(&mut s, self.flow_rate as i64);
        s
    }
}

impl Default for TuningControl {
    fn default() -> (t: Self)
        ensures
            t.speed_multiplier == 100,
            t.flow_rate == 100,
    {
        Self::new()
    }
}

/// The clamp leaves a rate of 50 to 200 as it is and moves any other rate
/// to the nearer end of that range.
pub proof fn lemma_clamp_rate_keeps_range(v: int)
    ensures
        50 <= v <= 200 ==> clamp_rate(v) == v,
        v < 50 ==> clamp_rate(v) == 50,
        v > 200 ==> clamp_rate(v) == 200,
{
}

/// However a rate started, after one adjustment it lies within 50-200.
pub proof fn lemma_adjusted_rate_in_range(v: int, delta: int)
    ensures
        RATE_MIN <= clamp_rate(v + delta) <= RATE_MAX,
{
}

} // verus!
